//! A CHIP-8 virtual machine core: keypad, framebuffer and instruction interpreter.

pub mod cpu;
pub mod render;
