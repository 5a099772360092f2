//! Instruction words: their operand fields and the operation they select.

use vstd::arithmetic::div_mod::lemma_fundamental_div_mod_converse;
use vstd::prelude::*;

verus! {

/// The operand fields that every instruction word carries, whether or not
/// its operation reads them.
#[derive(Clone, Copy, Debug, PartialEq, Eq)]
pub struct Fields {
    /// `nnn`: the lowest 12 bits, an address.
    pub nnn: u16,
    /// `n`: the lowest 4 bits.
    pub n: u8,
    /// `x`: the low nibble of the high byte, a register selector.
    pub x: usize,
    /// `y`: the high nibble of the low byte, a register selector.
    pub y: usize,
    /// `kk`: the low byte, an immediate value.
    pub kk: u8,
}

/// What an instruction word asks the machine to do.
#[derive(Clone, Copy, Debug, PartialEq, Eq)]
pub enum Operation {
    /// `00E0`: clear the screen.
    ClearScreen,
    /// `00EE`: return from a subroutine.
    Return,
    /// `1nnn`: jump to `nnn`.
    Jump,
    /// `2nnn`: call the subroutine at `nnn`.
    Call,
    /// `3xkk`: skip the next instruction if `Vx == kk`.
    SkipIfEqual,
    /// `4xkk`: skip the next instruction if `Vx != kk`.
    SkipIfNotEqual,
    /// `5xy_`: skip the next instruction if `Vx == Vy`.
    SkipIfRegistersEqual,
    /// `6xkk`: `Vx = kk`.
    LoadByte,
    /// `7xkk`: `Vx = Vx + kk`, wrapping, without touching the flag.
    AddByte,
    /// `8xy0`: `Vx = Vy`.
    Move,
    /// `8xy1`: `Vx = Vx | Vy`.
    Or,
    /// `8xy2`: `Vx = Vx & Vy`.
    And,
    /// `8xy3`: `Vx = Vx ^ Vy`.
    Xor,
    /// `8xy4`: `Vx = Vx + Vy`, flag = carry.
    Add,
    /// `8xy5`: `Vx = Vx - Vy`, flag = no borrow.
    Subtract,
    /// `8xy6`: `Vx = Vx >> 1`, flag = the bit shifted out.
    ShiftRight,
    /// `8xy7`: `Vx = Vy - Vx`, flag = no borrow.
    SubtractFrom,
    /// `8xyE`: `Vx = Vx << 1`, flag = the bit shifted out.
    ShiftLeft,
    /// `9xy_`: skip the next instruction if `Vx != Vy`.
    SkipIfRegistersNotEqual,
    /// `Annn`: `I = nnn`.
    LoadIndex,
    /// `Bnnn`: jump to `nnn + V0`.
    JumpOffset,
    /// `Cxkk`: `Vx = random byte & kk`.
    Random,
    /// `Dxyn`: draw the `n`-row sprite at `I` to (`Vx`, `Vy`), flag = collision.
    Draw,
    /// `Ex9E`: skip the next instruction if key `Vx` is down.
    SkipIfKeyDown,
    /// `ExA1`: skip the next instruction if key `Vx` is up.
    SkipIfKeyUp,
    /// `Fx07`: `Vx = DT`.
    ReadDelay,
    /// `Fx0A`: wait until a key is down, then `Vx` = that key.
    WaitForKey,
    /// `Fx15`: `DT = Vx`.
    SetDelay,
    /// `Fx18`: `ST = Vx`.
    SetSound,
    /// `Fx1E`: `I = I + Vx`.
    AddToIndex,
    /// `Fx29`: `I` = address of the glyph for `Vx`.
    LoadGlyph,
    /// `Fx33`: store the decimal digits of `Vx` at `I`, `I + 1`, `I + 2`.
    StoreDecimal,
    /// `Fx55`: store `V0..=Vx` in memory from `I` on.
    StoreRegisters,
    /// `Fx65`: load `V0..=Vx` from memory from `I` on.
    LoadRegisters,
    /// Any word that no other operation claims: it only advances the program counter.
    Ignored,
}

impl Fields {
    /// Every field lies in the range that its width in the word allows.
    pub open spec fn in_range(self) -> bool {
        &&& self.nnn < 4096
        &&& self.n < 16
        &&& self.x < 16
        &&& self.y < 16
    }
}

/// The operand fields of `opcode`.
pub open spec fn fields_of(opcode: u16) -> Fields {
    Fields {
        nnn: opcode % 4096,
        n: (opcode % 16) as u8,
        x: (opcode / 256 % 16) as usize,
        y: (opcode / 16 % 16) as usize,
        kk: (opcode % 256) as u8,
    }
}

/// The operation that `opcode` selects.
///
/// The high nibble picks the family. Families `0`, `E` and `F` then go by the
/// low byte (family `0` by the whole word), family `8` by the low nibble;
/// a word that its family does not assign is `Ignored`.
pub open spec fn operation_of(opcode: u16) -> Operation {
    let family = opcode / 4096;
    let low_byte = opcode % 256;
    let low_nibble = opcode % 16;
    if family == 0x0 {
        if opcode == 0x00E0 {
            Operation::ClearScreen
        } else if opcode == 0x00EE {
            Operation::Return
        } else {
            Operation::Ignored
        }
    } else if family == 0x1 {
        Operation::Jump
    } else if family == 0x2 {
        Operation::Call
    } else if family == 0x3 {
        Operation::SkipIfEqual
    } else if family == 0x4 {
        Operation::SkipIfNotEqual
    } else if family == 0x5 {
        Operation::SkipIfRegistersEqual
    } else if family == 0x6 {
        Operation::LoadByte
    } else if family == 0x7 {
        Operation::AddByte
    } else if family == 0x8 {
        if low_nibble == 0x0 {
            Operation::Move
        } else if low_nibble == 0x1 {
            Operation::Or
        } else if low_nibble == 0x2 {
            Operation::And
        } else if low_nibble == 0x3 {
            Operation::Xor
        } else if low_nibble == 0x4 {
            Operation::Add
        } else if low_nibble == 0x5 {
            Operation::Subtract
        } else if low_nibble == 0x6 {
            Operation::ShiftRight
        } else if low_nibble == 0x7 {
            Operation::SubtractFrom
        } else if low_nibble == 0xE {
            Operation::ShiftLeft
        } else {
            Operation::Ignored
        }
    } else if family == 0x9 {
        Operation::SkipIfRegistersNotEqual
    } else if family == 0xA {
        Operation::LoadIndex
    } else if family == 0xB {
        Operation::JumpOffset
    } else if family == 0xC {
        Operation::Random
    } else if family == 0xD {
        Operation::Draw
    } else if family == 0xE {
        if low_byte == 0x9E {
            Operation::SkipIfKeyDown
        } else if low_byte == 0xA1 {
            Operation::SkipIfKeyUp
        } else {
            Operation::Ignored
        }
    } else {
        if low_byte == 0x07 {
            Operation::ReadDelay
        } else if low_byte == 0x0A {
            Operation::WaitForKey
        } else if low_byte == 0x15 {
            Operation::SetDelay
        } else if low_byte == 0x18 {
            Operation::SetSound
        } else if low_byte == 0x1E {
            Operation::AddToIndex
        } else if low_byte == 0x29 {
            Operation::LoadGlyph
        } else if low_byte == 0x33 {
            Operation::StoreDecimal
        } else if low_byte == 0x55 {
            Operation::StoreRegisters
        } else if low_byte == 0x65 {
            Operation::LoadRegisters
        } else {
            Operation::Ignored
        }
    }
}

/// The instruction word of family `family` with register selectors `x` and
/// `y` and low nibble `n`.
pub open spec fn word_xyn(family: int, x: int, y: int, n: int) -> u16 {
    (family * 4096 + x * 256 + y * 16 + n) as u16
}

/// The instruction word of family `family` with register selector `x` and
/// low byte `kk`.
pub open spec fn word_xkk(family: int, x: int, kk: int) -> u16 {
    (family * 4096 + x * 256 + kk) as u16
}

/// The instruction word of family `family` with address `nnn`.
pub open spec fn word_nnn(family: int, nnn: int) -> u16 {
    (family * 4096 + nnn) as u16
}

/// Splitting a word gives back the fields it was put together from.
pub proof fn lemma_fields_of_word(family: int, x: int, y: int, n: int)
    requires
        0 <= family < 16,
        0 <= x < 16,
        0 <= y < 16,
        0 <= n < 16,
    ensures
        fields_of(word_xyn(family, x, y, n)) == (Fields {
            nnn: (x * 256 + y * 16 + n) as u16,
            n: n as u8,
            x: x as usize,
            y: y as usize,
            kk: (y * 16 + n) as u8,
        }),
        word_xyn(family, x, y, n) / 4096 == family,
        word_xyn(family, x, y, n) == word_xkk(family, x, y * 16 + n),
        word_xyn(family, x, y, n) == word_nnn(family, x * 256 + y * 16 + n),
{
    let w = family * 4096 + x * 256 + y * 16 + n;
    lemma_fundamental_div_mod_converse(w, 4096, family, x * 256 + y * 16 + n);
    lemma_fundamental_div_mod_converse(w, 256, family * 16 + x, y * 16 + n);
    lemma_fundamental_div_mod_converse(w, 16, family * 256 + x * 16 + y, n);
    lemma_fundamental_div_mod_converse(family * 16 + x, 16, family, x);
    lemma_fundamental_div_mod_converse(family * 256 + x * 16 + y, 16, family * 16 + x, y);
}

/// Splits `opcode` into its operand fields.
pub fn fields(opcode: u16) -> (f: Fields)
    ensures
        f == fields_of(opcode),
        f.in_range(),
{
    proof {
        assert(opcode & 0x0FFF == opcode % 4096) by (bit_vector);
        assert(opcode & 0x000F == opcode % 16) by (bit_vector);
        assert((opcode & 0x0F00) >> 8 == opcode / 256 % 16) by (bit_vector);
        assert((opcode & 0x00F0) >> 4 == opcode / 16 % 16) by (bit_vector);
        assert(opcode & 0x00FF == opcode % 256) by (bit_vector);
    }
    Fields {
        nnn: opcode & 0x0FFF,
        n: (opcode & 0x000F) as u8,
        x: ((opcode & 0x0F00) >> 8) as usize,
        y: ((opcode & 0x00F0) >> 4) as usize,
        kk: (opcode & 0x00FF) as u8,
    }
}

/// Finds the operation that `opcode` selects.
pub fn operation(opcode: u16) -> (op: Operation)
    ensures
        op == operation_of(opcode),
{
    proof {
        assert((opcode & 0xF000) >> 12 == opcode / 4096) by (bit_vector);
        assert(opcode & 0x000F == opcode % 16) by (bit_vector);
        assert(opcode & 0x00FF == opcode % 256) by (bit_vector);
    }
    let family = (opcode & 0xF000) >> 12;
    let low_nibble = opcode & 0x000F;
    let low_byte = opcode & 0x00FF;
    match family {
        0x0 => match opcode {
            0x00E0 => Operation::ClearScreen,
            0x00EE => Operation::Return,
            _ => Operation::Ignored,
        },
        0x1 => Operation::Jump,
        0x2 => Operation::Call,
        0x3 => Operation::SkipIfEqual,
        0x4 => Operation::SkipIfNotEqual,
        0x5 => Operation::SkipIfRegistersEqual,
        0x6 => Operation::LoadByte,
        0x7 => Operation::AddByte,
        0x8 => match low_nibble {
            0x0 => Operation::Move,
            0x1 => Operation::Or,
            0x2 => Operation::And,
            0x3 => Operation::Xor,
            0x4 => Operation::Add,
            0x5 => Operation::Subtract,
            0x6 => Operation::ShiftRight,
            0x7 => Operation::SubtractFrom,
            0xE => Operation::ShiftLeft,
            _ => Operation::Ignored,
        },
        0x9 => Operation::SkipIfRegistersNotEqual,
        0xA => Operation::LoadIndex,
        0xB => Operation::JumpOffset,
        0xC => Operation::Random,
        0xD => Operation::Draw,
        0xE => match low_byte {
            0x9E => Operation::SkipIfKeyDown,
            0xA1 => Operation::SkipIfKeyUp,
            _ => Operation::Ignored,
        },
        _ => match low_byte {
            0x07 => Operation::ReadDelay,
            0x0A => Operation::WaitForKey,
            0x15 => Operation::SetDelay,
            0x18 => Operation::SetSound,
            0x1E => Operation::AddToIndex,
            0x29 => Operation::LoadGlyph,
            0x33 => Operation::StoreDecimal,
            0x55 => Operation::StoreRegisters,
            0x65 => Operation::LoadRegisters,
            _ => Operation::Ignored,
        },
    }
}

} // verus!
