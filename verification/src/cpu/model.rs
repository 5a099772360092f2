//! The machine as a mathematical value, and what one instruction does to it.

use crate::cpu::display::{blank, drawn, erases};
use crate::cpu::font::{glyph_address, FONT_SET, FONT_SIZE};
use crate::cpu::opcode::{fields_of, operation_of, Fields, Operation};
use vstd::prelude::*;

verus! {

/// Size of the address space in bytes.
pub const MEMORY_SIZE: usize = 4096;

/// Address at which programs are loaded and start to run.
pub const PROGRAM_START: u16 = 0x200;

/// Number of general purpose registers.
pub const REGISTER_COUNT: usize = 16;

/// Index of `VF`, the register that doubles as the flag.
pub const FLAG: usize = 15;

/// Number of return addresses that the call stack holds.
pub const STACK_DEPTH: usize = 16;

/// Largest program that fits between `PROGRAM_START` and the end of memory.
pub const MAX_ROM_SIZE: usize = 3584;

/// Why the machine refused to go on.
#[derive(Clone, Copy, Debug, PartialEq, Eq)]
pub enum Fault {
    /// The program counter leaves no room for a two-byte instruction in memory.
    ProgramCounterOutOfBounds,
    /// A call was made with all sixteen stack slots in use.
    StackOverflow,
    /// A return was made with no call outstanding.
    StackUnderflow,
    /// An instruction addressed memory through `I` beyond the last byte.
    MemoryOutOfBounds,
    /// A key instruction named a key above `0xF`.
    KeyOutOfRange,
    /// Adding to `I` went past what sixteen bits hold.
    IndexOverflow,
    /// A program does not fit between `PROGRAM_START` and the end of memory.
    RomTooLarge,
}

/// The whole state of the machine.
pub struct Machine {
    /// The 4096 bytes of memory.
    pub memory: Seq<u8>,
    /// The registers `V0` to `VF`.
    pub v: Seq<u8>,
    /// The address register `I`. It is not masked to 12 bits; an instruction
    /// that addresses memory through it checks the bounds.
    pub i: u16,
    /// The delay timer.
    pub dt: u16,
    /// The sound timer.
    pub st: u16,
    /// The program counter.
    pub pc: u16,
    /// The number of return addresses on the stack.
    pub sp: u8,
    /// The sixteen stack slots; those below `sp` are in use.
    pub stack: Seq<u16>,
    /// Which of the sixteen keys are down.
    pub keys: Seq<bool>,
    /// Which of the 2048 pixels are lit, row after row.
    pub screen: Seq<bool>,
}

/// The highest index below `bound` at which `keys` holds `true`, if there is one.
pub open spec fn highest_down(keys: Seq<bool>, bound: int) -> Option<int>
    decreases bound,
{
    if bound <= 0 {
        None
    } else if keys[bound - 1] {
        Some(bound - 1)
    } else {
        highest_down(keys, bound - 1)
    }
}

/// Memory with the font at its start and zero everywhere else.
pub open spec fn font_memory() -> Seq<u8> {
    Seq::new(
        MEMORY_SIZE as nat,
        |a: int|
            if a < FONT_SIZE {
                FONT_SET@[a]
            } else {
                0u8
            },
    )
}

/// `cells` with `bytes` copied in from position `start` on.
pub open spec fn overlay(cells: Seq<u8>, start: int, bytes: Seq<u8>) -> Seq<u8> {
    Seq::new(
        cells.len(),
        |a: int|
            if start <= a < start + bytes.len() {
                bytes[a - start]
            } else {
                cells[a]
            },
    )
}

impl Machine {
    /// The sizes are right, the stack pointer is at most 16, and the timers hold byte values.
    pub open spec fn wf(self) -> bool {
        &&& self.memory.len() == MEMORY_SIZE
        &&& self.v.len() == REGISTER_COUNT
        &&& self.stack.len() == STACK_DEPTH
        &&& self.keys.len() == 16
        &&& self.screen.len() == 2048
        &&& self.sp <= STACK_DEPTH
        &&& self.dt <= 255
        &&& self.st <= 255
    }

    /// The machine as it is built: everything zero, no key down, screen blank.
    pub open spec fn zeroed() -> Machine {
        Machine {
            memory: Seq::new(MEMORY_SIZE as nat, |a: int| 0u8),
            v: Seq::new(REGISTER_COUNT as nat, |j: int| 0u8),
            i: 0,
            dt: 0,
            st: 0,
            pc: 0,
            sp: 0,
            stack: Seq::new(STACK_DEPTH as nat, |j: int| 0u16),
            keys: Seq::new(16, |k: int| false),
            screen: blank(),
        }
    }

    /// The machine after a reset: as built, but with the font in memory and
    /// the program counter at `PROGRAM_START`.
    pub open spec fn initial() -> Machine {
        Machine { memory: font_memory(), pc: PROGRAM_START, ..Machine::zeroed() }
    }

    /// This machine with register `x` set to `value`.
    pub open spec fn with_register(self, x: int, value: u8) -> Machine {
        Machine { v: self.v.update(x, value), ..self }
    }

    /// This machine with the flag register set to 1 if `raised`, else to 0.
    pub open spec fn with_flag(self, raised: bool) -> Machine {
        self.with_register(
            FLAG as int,
            if raised {
                1u8
            } else {
                0u8
            },
        )
    }

    /// This machine with the program counter moved past one more instruction if `skip`.
    pub open spec fn skipping(self, skip: bool) -> Machine {
        if skip {
            Machine { pc: (self.pc + 2) as u16, ..self }
        } else {
            self
        }
    }

    /// This machine with both timers one lower, unless already at zero.
    pub open spec fn ticked(self) -> Machine {
        Machine {
            dt: if self.dt > 0 {
                (self.dt - 1) as u16
            } else {
                0
            },
            st: if self.st > 0 {
                (self.st - 1) as u16
            } else {
                0
            },
            ..self
        }
    }

    /// The instruction word at the program counter, most significant byte first.
    pub open spec fn fetch(self) -> Result<u16, Fault> {
        if self.pc + 1 < MEMORY_SIZE {
            Ok((self.memory[self.pc as int] * 256 + self.memory[self.pc + 1]) as u16)
        } else {
            Err(Fault::ProgramCounterOutOfBounds)
        }
    }

    /// What `operation` with operands `f` makes of this machine.
    ///
    /// The program counter first moves past the instruction; jumps, calls,
    /// returns and skips then move it again. An instruction that faults
    /// changes nothing.
    ///
    /// For the operations that write both the flag and `Vx`, the flag is
    /// written first and `Vx` second, so with `x == 15` the flag register ends
    /// up holding the result. Sums and differences are taken of the registers
    /// as they were before the instruction; a shift is applied to register `x`
    /// as it stands once the flag is written.
    pub open spec fn execute(self, operation: Operation, f: Fields, random: u8) -> Result<
        Machine,
        Fault,
    > {
        let vx = self.v[f.x as int];
        let vy = self.v[f.y as int];
        let next = (self.pc + 2) as u16;
        let advanced = Machine { pc: next, ..self };
        match operation {
            Operation::ClearScreen => Ok(Machine { screen: blank(), ..advanced }),
            Operation::Return => if self.sp == 0 {
                Err(Fault::StackUnderflow)
            } else {
                Ok(Machine { sp: (self.sp - 1) as u8, pc: self.stack[self.sp - 1], ..self })
            },
            Operation::Jump => Ok(Machine { pc: f.nnn, ..self }),
            Operation::Call => if self.sp >= STACK_DEPTH {
                Err(Fault::StackOverflow)
            } else {
                Ok(
                    Machine {
                        stack: self.stack.update(self.sp as int, next),
                        sp: (self.sp + 1) as u8,
                        pc: f.nnn,
                        ..self
                    },
                )
            },
            Operation::SkipIfEqual => Ok(advanced.skipping(vx == f.kk)),
            Operation::SkipIfNotEqual => Ok(advanced.skipping(vx != f.kk)),
            Operation::SkipIfRegistersEqual => Ok(advanced.skipping(vx == vy)),
            Operation::LoadByte => Ok(advanced.with_register(f.x as int, f.kk)),
            Operation::AddByte => Ok(advanced.with_register(f.x as int, ((vx + f.kk) % 256) as u8)),
            Operation::Move => Ok(advanced.with_register(f.x as int, vy)),
            Operation::Or => Ok(advanced.with_register(f.x as int, vx | vy)),
            Operation::And => Ok(advanced.with_register(f.x as int, vx & vy)),
            Operation::Xor => Ok(advanced.with_register(f.x as int, vx ^ vy)),
            Operation::Add => Ok(
                advanced.with_flag(vx + vy > 255).with_register(
                    f.x as int,
                    ((vx + vy) % 256) as u8,
                ),
            ),
            Operation::Subtract => Ok(
                advanced.with_flag(vx >= vy).with_register(f.x as int, ((vx - vy) % 256) as u8),
            ),
            Operation::ShiftRight => {
                let flagged = advanced.with_flag(vx % 2 == 1);
                Ok(flagged.with_register(f.x as int, flagged.v[f.x as int] / 2))
            },
            Operation::SubtractFrom => Ok(
                advanced.with_flag(vy >= vx).with_register(f.x as int, ((vy - vx) % 256) as u8),
            ),
            Operation::ShiftLeft => {
                let flagged = advanced.with_flag(vx >= 128);
                Ok(flagged.with_register(f.x as int, ((flagged.v[f.x as int] * 2) % 256) as u8))
            },
            Operation::SkipIfRegistersNotEqual => Ok(advanced.skipping(vx != vy)),
            Operation::LoadIndex => Ok(Machine { i: f.nnn, ..advanced }),
            Operation::JumpOffset => Ok(Machine { pc: (self.v[0] + f.nnn) as u16, ..self }),
            Operation::Random => Ok(advanced.with_register(f.x as int, random & f.kk)),
            Operation::Draw => if self.i + f.n > MEMORY_SIZE {
                Err(Fault::MemoryOutOfBounds)
            } else {
                let sprite = self.memory.subrange(self.i as int, self.i + f.n);
                Ok(
                    Machine {
                        screen: drawn(self.screen, sprite, vx as int, vy as int),
                        ..advanced
                    }.with_flag(erases(self.screen, sprite, vx as int, vy as int)),
                )
            },
            Operation::SkipIfKeyDown => if vx >= 16 {
                Err(Fault::KeyOutOfRange)
            } else {
                Ok(advanced.skipping(self.keys[vx as int]))
            },
            Operation::SkipIfKeyUp => if vx >= 16 {
                Err(Fault::KeyOutOfRange)
            } else {
                Ok(advanced.skipping(!self.keys[vx as int]))
            },
            Operation::ReadDelay => Ok(advanced.with_register(f.x as int, self.dt as u8)),
            Operation::WaitForKey => match highest_down(self.keys, 16) {
                Some(key) => Ok(advanced.with_register(f.x as int, key as u8)),
                None => Ok(self),
            },
            Operation::SetDelay => Ok(Machine { dt: vx as u16, ..advanced }),
            Operation::SetSound => Ok(Machine { st: vx as u16, ..advanced }),
            Operation::AddToIndex => if self.i + vx > u16::MAX {
                Err(Fault::IndexOverflow)
            } else {
                Ok(Machine { i: (self.i + vx) as u16, ..advanced })
            },
            Operation::LoadGlyph => Ok(Machine { i: glyph_address(vx) as u16, ..advanced }),
            Operation::StoreDecimal => if self.i + 2 >= MEMORY_SIZE {
                Err(Fault::MemoryOutOfBounds)
            } else {
                Ok(
                    Machine {
                        memory: overlay(
                            self.memory,
                            self.i as int,
                            seq![vx / 100, (vx / 10) % 10, vx % 10],
                        ),
                        ..advanced
                    },
                )
            },
            Operation::StoreRegisters => if self.i + f.x >= MEMORY_SIZE {
                Err(Fault::MemoryOutOfBounds)
            } else {
                Ok(
                    Machine {
                        memory: overlay(self.memory, self.i as int, self.v.subrange(0, f.x + 1)),
                        ..advanced
                    },
                )
            },
            Operation::LoadRegisters => if self.i + f.x >= MEMORY_SIZE {
                Err(Fault::MemoryOutOfBounds)
            } else {
                Ok(
                    Machine {
                        v: overlay(self.v, 0, self.memory.subrange(self.i as int, self.i + f.x + 1)),
                        ..advanced
                    },
                )
            },
            Operation::Ignored => Ok(advanced),
        }
    }

    /// What the instruction word `opcode` makes of this machine.
    ///
    /// `random` is the byte that a `Random` operation draws; the others ignore it.
    pub open spec fn step(self, opcode: u16, random: u8) -> Result<Machine, Fault> {
        if self.pc + 1 < MEMORY_SIZE {
            self.execute(operation_of(opcode), fields_of(opcode), random)
        } else {
            Err(Fault::ProgramCounterOutOfBounds)
        }
    }

    /// Whether the instruction at the program counter is a `Random` operation.
    pub open spec fn draws_random(self) -> bool {
        match self.fetch() {
            Ok(opcode) => operation_of(opcode) == Operation::Random,
            Err(_) => false,
        }
    }

    /// What one cycle makes of this machine: fetch at the program counter, then `step`.
    pub open spec fn cycle(self, random: u8) -> Result<Machine, Fault> {
        match self.fetch() {
            Ok(opcode) => self.step(opcode, random),
            Err(fault) => Err(fault),
        }
    }
}

} // verus!
