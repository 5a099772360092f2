//! The interpreter and the machine state it owns.

pub mod display;
pub mod font;
pub mod keyboard;
pub mod laws;
pub mod model;
pub mod opcode;

use crate::cpu::display::Display;
use crate::cpu::font::{FONT_SET, FONT_SIZE, GLYPH_SIZE};
use crate::cpu::keyboard::Keyboard;
use crate::cpu::model::{
    highest_down, overlay, Fault, Machine, FLAG, MAX_ROM_SIZE, MEMORY_SIZE, PROGRAM_START,
    STACK_DEPTH,
};
use crate::cpu::opcode::{fields, operation, Fields, Operation};
use vstd::prelude::*;

verus! {

/// The virtual machine: memory, registers, timers, call stack, keypad and screen.
#[allow(non_camel_case_types)]
pub struct CPU {
    memory: [u8; 4096],
    v: [u8; 16],
    i: u16,
    dt: u16,
    st: u16,
    pc: u16,
    sp: u8,
    stack: [u16; 16],
    /// The keypad; the host reports key presses and releases here.
    pub keyboard: Keyboard,
    /// The screen; the host reads the pixels from here.
    pub display: Display,
}

impl View for CPU {
    type V = Machine;

    closed spec fn view(&self) -> Machine {
        Machine {
            memory: self.memory@,
            v: self.v@,
            i: self.i,
            dt: self.dt,
            st: self.st,
            pc: self.pc,
            sp: self.sp,
            stack: self.stack@,
            keys: self.keyboard@,
            screen: self.display@,
        }
    }
}

/// Whether a call that was owed `expected` kept its word: on `Ok` the machine
/// is the new one, on `Err` the fault is reported and the machine is untouched.
pub open spec fn settled(
    before: Machine,
    expected: Result<Machine, Fault>,
    result: Result<(), Fault>,
    after: Machine,
) -> bool {
    match expected {
        Ok(machine) => result is Ok && after == machine,
        Err(fault) => result == Err::<(), Fault>(fault) && after == before,
    }
}

impl CPU {
    /// A machine with everything zeroed: no font in memory yet, and the
    /// program counter at 0. `reset` makes it ready to run.
    pub fn new() -> (cpu: CPU)
        ensures
            cpu@ == Machine::zeroed(),
            cpu@.wf(),
    {
        let cpu = CPU {
            memory: [0; 4096],
            v: [0; 16],
            i: 0,
            dt: 0,
            st: 0,
            pc: 0,
            sp: 0,
            stack: [0; 16],
            keyboard: Keyboard::new(),
            display: Display::new(),
        };
        proof {
            cpu.keyboard.lemma_len();
            cpu.display.lemma_len();
            assert(cpu@.memory =~= Machine::zeroed().memory);
            assert(cpu@.v =~= Machine::zeroed().v);
            assert(cpu@.stack =~= Machine::zeroed().stack);
            assert(cpu@.keys =~= Machine::zeroed().keys);
        }
        cpu
    }

    /// Zeroes registers, timers, stack and memory, releases all keys, clears
    /// the screen, loads the font at address 0 and points the program counter
    /// at `PROGRAM_START`.
    pub fn reset(&mut self)
        ensures
            final(self)@ == Machine::initial(),
            final(self)@.wf(),
    {
        self.memory = [0; 4096];
        self.v = [0; 16];
        self.i = 0;
        self.dt = 0;
        self.st = 0;
        self.pc = PROGRAM_START;
        self.sp = 0;
        self.stack = [0; 16];
        self.keyboard.reset();
        self.display.cls();
        for a in 0..FONT_SIZE
            invariant
                forall|j: int| 0 <= j < a ==> self.memory@[j] == FONT_SET@[j],
                forall|j: int| a <= j < 4096 ==> self.memory@[j] == 0,
                self.v@ == Machine::zeroed().v,
                self.stack@ == Machine::zeroed().stack,
                self.i == 0 && self.dt == 0 && self.st == 0 && self.sp == 0,
                self.pc == PROGRAM_START,
                self.keyboard@ == Machine::zeroed().keys,
                self.display@ == Machine::zeroed().screen,
        {
            self.memory[a] = FONT_SET[a];
        }
        proof {
            assert(self@.memory =~= Machine::initial().memory);
        }
    }

    /// Copies `rom` into memory from `PROGRAM_START` on, or refuses it,
    /// leaving the machine untouched, when it is longer than `MAX_ROM_SIZE`.
    pub fn load_rom(&mut self, rom: &Vec<u8>) -> (result: Result<(), Fault>)
        requires
            old(self)@.wf(),
        ensures
            settled(
                old(self)@,
                if rom@.len() <= MAX_ROM_SIZE {
                    Ok(
                        Machine {
                            memory: overlay(old(self)@.memory, PROGRAM_START as int, rom@),
                            ..old(self)@
                        },
                    )
                } else {
                    Err(Fault::RomTooLarge)
                },
                result,
                final(self)@,
            ),
            final(self)@.wf(),
    {
        let rom_size = rom.len();
        if rom_size > MAX_ROM_SIZE {
            return Err(Fault::RomTooLarge);
        }
        let ghost before = self@;
        assert(before.memory =~= overlay(before.memory, PROGRAM_START as int, rom@.take(0)));
        for k in 0..rom_size
            invariant
                rom_size == rom@.len(),
                rom_size <= MAX_ROM_SIZE,
                before.wf(),
                self@ == (Machine {
                    memory: overlay(before.memory, PROGRAM_START as int, rom@.take(k as int)),
                    ..before
                }),
        {
            self.memory[0x200 + k] = rom[k];
            assert(self@.memory =~= overlay(
                before.memory,
                PROGRAM_START as int,
                rom@.take(k + 1),
            ));
        }
        assert(rom@.take(rom_size as int) =~= rom@);
        Ok(())
    }

    /// Reads the two-byte instruction at the program counter, most
    /// significant byte first.
    pub fn read_opcode(&self) -> (opcode: Result<u16, Fault>)
        requires
            self@.wf(),
        ensures
            opcode == self@.fetch(),
    {
        if self.pc as usize + 1 >= MEMORY_SIZE {
            return Err(Fault::ProgramCounterOutOfBounds);
        }
        let high = self.memory[self.pc as usize] as u16;
        let low = self.memory[self.pc as usize + 1] as u16;
        assert((high << 8) | low == high * 256 + low) by (bit_vector)
            requires
                high < 256,
                low < 256,
        ;
        Ok((high << 8) | low)
    }

    /// Decreases each timer that is not yet zero by 1.
    pub fn decrement_timers(&mut self)
        requires
            old(self)@.wf(),
        ensures
            final(self)@ == old(self)@.ticked(),
            final(self)@.wf(),
    {
        self.dt = if self.dt > 0 {
            self.dt - 1
        } else {
            self.dt
        };
        self.st = if self.st > 0 {
            self.st - 1
        } else {
            self.st
        };
    }

    /// Records that key `key` went down.
    pub fn key_down(&mut self, key: usize)
        requires
            key < 16,
        ensures
            final(self)@ == (Machine {
                keys: old(self)@.keys.update(key as int, true),
                ..old(self)@
            }),
    {
        self.keyboard.key_down(key);
    }

    /// Records that key `key` went up.
    pub fn key_up(&mut self, key: usize)
        requires
            key < 16,
        ensures
            final(self)@ == (Machine {
                keys: old(self)@.keys.update(key as int, false),
                ..old(self)@
            }),
    {
        self.keyboard.key_up(key);
    }

    /// The cells of the screen, row after row: 1 for a lit pixel, 0 for a dark one.
    pub fn screen_buffer(&self) -> (cells: &[u8; 2048])
        ensures
            cells@.len() == 2048,
            forall|p: int|
                0 <= p < 2048 ==> #[trigger] cells@[p] == (if self@.screen[p] {
                    1u8
                } else {
                    0u8
                }),
    {
        self.display.screen_buffer()
    }

    /// The value of register `Vx`.
    pub fn register(&self, x: usize) -> (value: u8)
        requires
            x < 16,
        ensures
            value == self@.v[x as int],
    {
        self.v[x]
    }

    /// The value of the address register `I`.
    pub fn index(&self) -> (value: u16)
        ensures
            value == self@.i,
    {
        self.i
    }

    /// The program counter.
    pub fn program_counter(&self) -> (value: u16)
        ensures
            value == self@.pc,
    {
        self.pc
    }

    /// The number of calls that have not returned yet.
    pub fn stack_pointer(&self) -> (value: u8)
        ensures
            value == self@.sp,
    {
        self.sp
    }

    /// The value of the delay timer.
    pub fn delay_timer(&self) -> (value: u16)
        ensures
            value == self@.dt,
    {
        self.dt
    }

    /// The value of the sound timer.
    pub fn sound_timer(&self) -> (value: u16)
        ensures
            value == self@.st,
    {
        self.st
    }

    /// Whether the buzzer should sound: the sound timer has not run out.
    pub fn sound_active(&self) -> (active: bool)
        ensures
            active == (self@.st > 0),
    {
        self.st > 0
    }

    /// The byte of memory at `address`.
    pub fn memory_byte(&self, address: usize) -> (value: u8)
        requires
            address < MEMORY_SIZE,
        ensures
            value == self@.memory[address as int],
    {
        self.memory[address]
    }
}

/// The sum of two bytes modulo 256, and whether it went beyond 255.
fn overflowing_sum(a: u8, b: u8) -> (sum: (u8, bool))
    ensures
        sum.0 == (a + b) % 256,
        sum.1 == (a + b > 255),
{
    (a.wrapping_add(b), a as u16 + b as u16 > 255)
}

/// The difference of two bytes modulo 256, and whether it stayed at or above 0.
fn overflowing_difference(a: u8, b: u8) -> (difference: (u8, bool))
    ensures
        difference.0 == (a - b) % 256,
        difference.1 == (a >= b),
{
    (a.wrapping_sub(b), a >= b)
}

/// A byte shifted right by one bit: half of it, rounded down.
fn shifted_right(a: u8) -> (half: u8)
    ensures
        half == a / 2,
{
    assert(a >> 1 == a / 2) by (bit_vector);
    a >> 1
}

/// A byte shifted left by one bit: twice the byte, modulo 256.
fn shifted_left(a: u8) -> (double: u8)
    ensures
        double == (a * 2) % 256,
{
    assert(a << 1 == (a * 2) % 256) by (bit_vector);
    a << 1
}

/// The lowest bit of a byte, as 0 or 1.
fn lowest_bit(a: u8) -> (bit: u8)
    ensures
        bit == a % 2,
{
    assert(a & 1 == a % 2) by (bit_vector);
    a & 1
}

/// The highest bit of a byte, as 0 or 1.
fn highest_bit(a: u8) -> (bit: u8)
    ensures
        bit == a / 128,
{
    assert((a & 0x80) >> 7 == a / 128) by (bit_vector);
    (a & 0x80) >> 7
}

/// Draws a byte from `rand::random`, which takes it from the generator of the
/// calling thread. Nothing is claimed of the byte: it differs from call to call.
#[verifier::external_body]
fn random_byte() -> (byte: u8) {
    rand::random::<u8>()
}

impl CPU {
    /// The highest key that is down, if any. The scan runs over all sixteen
    /// keys, lowest first, and the last one found down wins.
    fn highest_key_down(&self) -> (found: Option<u8>)
        ensures
            match highest_down(self@.keys, 16) {
                Some(key) => found == Some(key as u8) && 0 <= key < 16,
                None => found is None,
            },
    {
        let keys = self.keyboard.keys();
        let mut found: Option<u8> = None;
        for k in 0..16usize
            invariant
                keys@ == self@.keys,
                match highest_down(self@.keys, k as int) {
                    Some(key) => found == Some(key as u8) && 0 <= key < k,
                    None => found is None,
                },
        {
            if keys[k] {
                found = Some(k as u8);
            }
        }
        found
    }

    /// Stores `V0..=Vx` in memory from `I` on.
    fn store_registers(&mut self, x: usize)
        requires
            x < 16,
            old(self).i + x < MEMORY_SIZE,
        ensures
            final(self)@ == (Machine {
                memory: overlay(
                    old(self)@.memory,
                    old(self)@.i as int,
                    old(self)@.v.subrange(0, x + 1),
                ),
                ..old(self)@
            }),
    {
        let base = self.i as usize;
        let ghost before = self@;
        assert(before.memory =~= overlay(before.memory, base as int, before.v.subrange(0, 0)));
        for j in 0..x + 1
            invariant
                x < 16,
                base == before.i,
                base + x < MEMORY_SIZE,
                self@ == (Machine {
                    memory: overlay(before.memory, base as int, before.v.subrange(0, j as int)),
                    ..before
                }),
        {
            self.memory[base + j] = self.v[j];
            assert(self@.memory =~= overlay(
                before.memory,
                base as int,
                before.v.subrange(0, j + 1),
            ));
        }
    }

    /// Loads `V0..=Vx` from memory from `I` on.
    fn load_registers(&mut self, x: usize)
        requires
            x < 16,
            old(self).i + x < MEMORY_SIZE,
        ensures
            final(self)@ == (Machine {
                v: overlay(
                    old(self)@.v,
                    0,
                    old(self)@.memory.subrange(old(self)@.i as int, old(self)@.i + x + 1),
                ),
                ..old(self)@
            }),
    {
        let base = self.i as usize;
        let ghost before = self@;
        assert(before.v =~= overlay(before.v, 0, before.memory.subrange(base as int, base as int)));
        for j in 0..x + 1
            invariant
                x < 16,
                base == before.i,
                base + x < MEMORY_SIZE,
                self@ == (Machine {
                    v: overlay(before.v, 0, before.memory.subrange(base as int, base + j)),
                    ..before
                }),
        {
            self.v[j] = self.memory[base + j];
            assert(self@.v =~= overlay(
                before.v,
                0,
                before.memory.subrange(base as int, base + j + 1),
            ));
        }
    }

    /// Executes an operation that only moves the program counter, the stack or
    /// the screen as a whole: clear, return, jump, call, the skips, and ignored words.
    #[verifier::spinoff_prover]
    #[verifier::rlimit(40)]
    fn control(&mut self, operation: Operation, f: Fields) -> (result: Result<(), Fault>)
        requires
            old(self)@.wf(),
            old(self)@.pc + 1 < MEMORY_SIZE,
            f.in_range(),
            operation is ClearScreen
                || operation is Return
                || operation is Jump
                || operation is Call
                || operation is SkipIfEqual
                || operation is SkipIfNotEqual
                || operation is SkipIfRegistersEqual
                || operation is SkipIfRegistersNotEqual
                || operation is JumpOffset
                || operation is SkipIfKeyDown
                || operation is SkipIfKeyUp
                || operation is Ignored,
        ensures
            settled(old(self)@, old(self)@.execute(operation, f, 0), result, final(self)@),
            final(self)@.wf(),
    {
        let x = f.x;
        let vx = self.v[f.x];
        let vy = self.v[f.y];
        let next = self.pc + 2;
        match operation {
            Operation::ClearScreen => {
                self.display.cls();
                self.pc = next;
            },
            Operation::Return => {
                if self.sp == 0 {
                    return Err(Fault::StackUnderflow);
                }
                self.sp -= 1;
                self.pc = self.stack[self.sp as usize];
            },
            Operation::Jump => {
                self.pc = f.nnn;
            },
            Operation::Call => {
                if self.sp as usize >= STACK_DEPTH {
                    return Err(Fault::StackOverflow);
                }
                self.stack[self.sp as usize] = next;
                self.sp += 1;
                self.pc = f.nnn;
            },
            Operation::SkipIfEqual => {
                self.pc = if vx == f.kk {
                    next + 2
                } else {
                    next
                };
            },
            Operation::SkipIfNotEqual => {
                self.pc = if vx != f.kk {
                    next + 2
                } else {
                    next
                };
            },
            Operation::SkipIfRegistersEqual => {
                self.pc = if vx == vy {
                    next + 2
                } else {
                    next
                };
            },
            Operation::SkipIfRegistersNotEqual => {
                self.pc = if vx != vy {
                    next + 2
                } else {
                    next
                };
            },
            Operation::JumpOffset => {
                self.pc = self.v[0] as u16 + f.nnn;
            },
            Operation::SkipIfKeyDown => {
                if vx >= 16 {
                    return Err(Fault::KeyOutOfRange);
                }
                self.pc = if self.keyboard.key_pressed(vx as usize) {
                    next + 2
                } else {
                    next
                };
            },
            Operation::SkipIfKeyUp => {
                if vx >= 16 {
                    return Err(Fault::KeyOutOfRange);
                }
                self.pc = if !self.keyboard.key_pressed(vx as usize) {
                    next + 2
                } else {
                    next
                };
            },
            Operation::Ignored => {
                self.pc = next;
            },
            _ => {},
        }
        Ok(())
    }

    /// Executes an operation that computes `Vx` from registers and immediates
    /// without touching the flag: loads, the wrapping sum with a byte, bitwise
    /// operations and random bytes.
    #[verifier::spinoff_prover]
    #[verifier::rlimit(40)]
    fn arithmetic(&mut self, operation: Operation, f: Fields, random: u8) -> (result: Result<
        (),
        Fault,
    >)
        requires
            old(self)@.wf(),
            old(self)@.pc + 1 < MEMORY_SIZE,
            f.in_range(),
            operation is LoadByte
                || operation is AddByte
                || operation is Move
                || operation is Or
                || operation is And
                || operation is Xor
                || operation is Random,
        ensures
            settled(old(self)@, old(self)@.execute(operation, f, random), result, final(self)@),
            final(self)@.wf(),
    {
        let x = f.x;
        let vx = self.v[f.x];
        let vy = self.v[f.y];
        let next = self.pc + 2;
        match operation {
            Operation::LoadByte => {
                self.v[x] = f.kk;
                self.pc = next;
            },
            Operation::AddByte => {
                self.v[x] = overflowing_sum(vx, f.kk).0;
                self.pc = next;
            },
            Operation::Move => {
                self.v[x] = vy;
                self.pc = next;
            },
            Operation::Or => {
                self.v[x] = vx | vy;
                self.pc = next;
            },
            Operation::And => {
                self.v[x] = vx & vy;
                self.pc = next;
            },
            Operation::Xor => {
                self.v[x] = vx ^ vy;
                self.pc = next;
            },
            Operation::Random => {
                self.v[x] = random & f.kk;
                self.pc = next;
            },
            _ => {},
        }
        Ok(())
    }

    /// Executes an operation that writes the flag and then `Vx`: sums,
    /// differences and shifts of registers.
    #[verifier::spinoff_prover]
    #[verifier::rlimit(40)]
    fn flagged(&mut self, operation: Operation, f: Fields) -> (result: Result<(), Fault>)
        requires
            old(self)@.wf(),
            old(self)@.pc + 1 < MEMORY_SIZE,
            f.in_range(),
            operation is Add
                || operation is Subtract
                || operation is ShiftRight
                || operation is SubtractFrom
                || operation is ShiftLeft,
        ensures
            settled(old(self)@, old(self)@.execute(operation, f, 0), result, final(self)@),
            final(self)@.wf(),
    {
        let x = f.x;
        let vx = self.v[f.x];
        let vy = self.v[f.y];
        let next = self.pc + 2;
        match operation {
            Operation::Add => {
                let (sum, carry) = overflowing_sum(vx, vy);
                self.v[FLAG] = if carry {
                    1
                } else {
                    0
                };
                self.v[x] = sum;
                self.pc = next;
            },
            Operation::Subtract => {
                let (difference, no_borrow) = overflowing_difference(vx, vy);
                self.v[FLAG] = if no_borrow {
                    1
                } else {
                    0
                };
                self.v[x] = difference;
                self.pc = next;
            },
            Operation::ShiftRight => {
                self.v[FLAG] = lowest_bit(vx);
                self.v[x] = shifted_right(self.v[x]);
                self.pc = next;
            },
            Operation::SubtractFrom => {
                let (difference, no_borrow) = overflowing_difference(vy, vx);
                self.v[FLAG] = if no_borrow {
                    1
                } else {
                    0
                };
                self.v[x] = difference;
                self.pc = next;
            },
            Operation::ShiftLeft => {
                self.v[FLAG] = highest_bit(vx);
                self.v[x] = shifted_left(self.v[x]);
                self.pc = next;
            },
            _ => {},
        }
        Ok(())
    }

    /// Executes an operation that involves `I`, the timers, the keypad, memory
    /// or sprites.
    #[verifier::spinoff_prover]
    #[verifier::rlimit(40)]
    fn transfer(&mut self, operation: Operation, f: Fields) -> (result: Result<(), Fault>)
        requires
            old(self)@.wf(),
            old(self)@.pc + 1 < MEMORY_SIZE,
            f.in_range(),
            operation is LoadIndex
                || operation is Draw
                || operation is ReadDelay
                || operation is WaitForKey
                || operation is SetDelay
                || operation is SetSound
                || operation is AddToIndex
                || operation is LoadGlyph
                || operation is StoreDecimal
                || operation is StoreRegisters
                || operation is LoadRegisters,
        ensures
            settled(old(self)@, old(self)@.execute(operation, f, 0), result, final(self)@),
            final(self)@.wf(),
    {
        let x = f.x;
        let vx = self.v[f.x];
        let vy = self.v[f.y];
        let next = self.pc + 2;
        match operation {
            Operation::LoadIndex => {
                self.i = f.nnn;
                self.pc = next;
            },
            Operation::Draw => {
                if self.i as usize + f.n as usize > MEMORY_SIZE {
                    return Err(Fault::MemoryOutOfBounds);
                }
                let collision = self.display.draw_sprite(
                    &self.memory,
                    f.n as usize,
                    self.i as usize,
                    vx as usize,
                    vy as usize,
                );
                self.v[FLAG] = if collision {
                    1
                } else {
                    0
                };
                self.pc = next;
            },
            Operation::ReadDelay => {
                self.v[x] = self.dt as u8;
                self.pc = next;
            },
            Operation::WaitForKey => {
                match self.highest_key_down() {
                    Some(key) => {
                        self.v[x] = key;
                        self.pc = next;
                    },
                    None => {},
                }
            },
            Operation::SetDelay => {
                self.dt = vx as u16;
                self.pc = next;
            },
            Operation::SetSound => {
                self.st = vx as u16;
                self.pc = next;
            },
            Operation::AddToIndex => {
                if self.i as u32 + vx as u32 > 0xFFFF {
                    return Err(Fault::IndexOverflow);
                }
                self.i = self.i + vx as u16;
                self.pc = next;
            },
            Operation::LoadGlyph => {
                self.i = vx as u16 * GLYPH_SIZE as u16;
                self.pc = next;
            },
            Operation::StoreDecimal => {
                if self.i as usize + 2 >= MEMORY_SIZE {
                    return Err(Fault::MemoryOutOfBounds);
                }
                let base = self.i as usize;
                let ghost before = self@;
                self.memory[base] = vx / 100;
                self.memory[base + 1] = (vx / 10) % 10;
                self.memory[base + 2] = vx % 10;
                self.pc = next;
                assert(self@.memory =~= overlay(
                    before.memory,
                    base as int,
                    seq![vx / 100, (vx / 10) % 10, vx % 10],
                ));
            },
            Operation::StoreRegisters => {
                if self.i as usize + x >= MEMORY_SIZE {
                    return Err(Fault::MemoryOutOfBounds);
                }
                self.store_registers(x);
                self.pc = next;
            },
            Operation::LoadRegisters => {
                if self.i as usize + x >= MEMORY_SIZE {
                    return Err(Fault::MemoryOutOfBounds);
                }
                self.load_registers(x);
                self.pc = next;
            },
            _ => {},
        }
        Ok(())
    }

    /// Executes the instruction word `opcode`, with `random` as the byte that
    /// a `Random` operation is to use.
    ///
    /// Either the whole instruction takes effect, or a fault is returned and
    /// the machine is as it was.
    #[verifier::spinoff_prover]
    pub fn process_opcode(&mut self, opcode: u16, random: u8) -> (result: Result<(), Fault>)
        requires
            old(self)@.wf(),
        ensures
            settled(old(self)@, old(self)@.step(opcode, random), result, final(self)@),
            final(self)@.wf(),
    {
        if self.pc as usize + 1 >= MEMORY_SIZE {
            return Err(Fault::ProgramCounterOutOfBounds);
        }
        let f = fields(opcode);
        let op = operation(opcode);
        match op {
            Operation::ClearScreen
            | Operation::Return
            | Operation::Jump
            | Operation::Call
            | Operation::SkipIfEqual
            | Operation::SkipIfNotEqual
            | Operation::SkipIfRegistersEqual
            | Operation::SkipIfRegistersNotEqual
            | Operation::JumpOffset
            | Operation::SkipIfKeyDown
            | Operation::SkipIfKeyUp
            | Operation::Ignored => self.control(op, f),
            Operation::LoadByte
            | Operation::AddByte
            | Operation::Move
            | Operation::Or
            | Operation::And
            | Operation::Xor
            | Operation::Random => self.arithmetic(op, f, random),
            Operation::Add
            | Operation::Subtract
            | Operation::ShiftRight
            | Operation::SubtractFrom
            | Operation::ShiftLeft => self.flagged(op, f),
            Operation::LoadIndex
            | Operation::Draw
            | Operation::ReadDelay
            | Operation::WaitForKey
            | Operation::SetDelay
            | Operation::SetSound
            | Operation::AddToIndex
            | Operation::LoadGlyph
            | Operation::StoreDecimal
            | Operation::StoreRegisters
            | Operation::LoadRegisters => self.transfer(op, f),
        }
    }

    /// Executes the current cycle: fetches the instruction at the program
    /// counter and executes it.
    ///
    /// Only a `Random` operation draws a random byte, so the outcome of every
    /// other cycle is determined by the machine alone.
    pub fn execute_cycle(&mut self) -> (result: Result<(), Fault>)
        requires
            old(self)@.wf(),
        ensures
            exists|random: u8|
                settled(old(self)@, #[trigger] old(self)@.cycle(random), result, final(self)@),
            !old(self)@.draws_random() ==> forall|random: u8|
                settled(old(self)@, #[trigger] old(self)@.cycle(random), result, final(self)@),
            final(self)@.wf(),
    {
        let opcode = match self.read_opcode() {
            Ok(opcode) => opcode,
            Err(fault) => {
                assert(settled(self@, self@.cycle(0), Err(fault), self@));
                return Err(fault);
            },
        };
        let random = match operation(opcode) {
            Operation::Random => random_byte(),
            _ => 0,
        };
        let ghost before = self@;
        let result = self.process_opcode(opcode, random);
        assert(settled(before, before.cycle(random), result, self@));
        result
    }
}

} // verus!
