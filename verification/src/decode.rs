//! Decoding of 16-bit instruction words into a closed instruction set.
//!
//! An instruction word is matched against fixed bit-masked patterns, most
//! significant nibble first; the `0x8xxx` family is keyed by the low nibble
//! and the `0xFxxx` family by the low byte.  The decoder returns a tagged
//! value so that execution can dispatch over a closed variant set.

use vstd::prelude::*;

verus! {

/// A decoded instruction.  `x` and `y` are register indices (always below
/// 16), `kk` an immediate byte, `addr` a 12-bit address, `n` a sprite height
/// nibble (below 16).
#[derive(Clone, Copy, Debug, PartialEq, Eq, Structural)]
pub enum Instr {
    /// `00E0`: clear the frame buffer.
    Cls,
    /// `00EE`: return from a subroutine.
    Ret,
    /// `1nnn`: jump to `addr`.
    Jp { addr: u16 },
    /// `2nnn`: call the subroutine at `addr`.
    Call { addr: u16 },
    /// `3xkk`: skip the next instruction if `V[x] == kk`.
    SeByte { x: usize, kk: u8 },
    /// `4xkk`: skip the next instruction if `V[x] != kk`.
    SneByte { x: usize, kk: u8 },
    /// `5xy0`: skip the next instruction if `V[x] == V[y]`.
    SeReg { x: usize, y: usize },
    /// `6xkk`: load `kk` into `V[x]`.
    LdByte { x: usize, kk: u8 },
    /// `7xkk`: add `kk` to `V[x]`, wrapping, flag untouched.
    AddByte { x: usize, kk: u8 },
    /// `8xy0`: copy `V[y]` into `V[x]`.
    LdReg { x: usize, y: usize },
    /// `8xy1`: bitwise or of `V[y]` into `V[x]`.
    Or { x: usize, y: usize },
    /// `8xy2`: bitwise and of `V[y]` into `V[x]`.
    And { x: usize, y: usize },
    /// `8xy3`: bitwise xor of `V[y]` into `V[x]`.
    Xor { x: usize, y: usize },
    /// `8xy4`: add `V[y]` to `V[x]`, wrapping; `V[0xF]` becomes the carry.
    AddReg { x: usize, y: usize },
    /// `8xy5`: subtract `V[y]` from `V[x]`, wrapping; `V[0xF]` becomes
    /// 1 exactly when `V[x] >= V[y]` held before the subtraction.
    Sub { x: usize, y: usize },
    /// `8xy6`: shift `V[y]` right by one into `V[x]`; `V[0xF]` becomes the
    /// shifted-out low bit.
    Shr { x: usize, y: usize },
    /// `8xy7`: set `V[x]` to `V[y] - V[x]`, wrapping; `V[0xF]` becomes
    /// 1 exactly when `V[y] >= V[x]` held before.
    Subn { x: usize, y: usize },
    /// `8xyE`: shift `V[y]` left by one into `V[x]`; `V[0xF]` becomes the
    /// shifted-out high bit.
    Shl { x: usize, y: usize },
    /// `9xy0`: skip the next instruction if `V[x] != V[y]`.
    SneReg { x: usize, y: usize },
    /// `Annn`: load `addr` into the index register.
    LdI { addr: u16 },
    /// `Dxyn`: draw an `n`-row sprite from memory at the index register,
    /// xor-ed into the frame buffer at `(V[x], V[y])`, both coordinates
    /// wrapping around the screen edges.  Known incompleteness, kept on
    /// purpose: the collision flag that original hardware writes to
    /// `V[0xF]` is not set.
    Drw { x: usize, y: usize, n: usize },
    /// `Fx1E`: add `V[x]` to the index register, wrapping, no flag.
    AddI { x: usize },
    /// `Fx33`: store the decimal digits of `V[x]` at the index register.
    Bcd { x: usize },
    /// `Fx55`: copy `V[0..=x]` into memory at the index register.
    StoreRegs { x: usize },
    /// `Fx65`: copy memory at the index register into `V[0..=x]`.
    LoadRegs { x: usize },
}

/// The `x` register index of an instruction word: its second nibble.
pub open spec fn nib_x(inst: u16) -> usize {
    (((inst >> 8) & 0xF) as usize)
}

/// The `y` register index of an instruction word: its third nibble.
pub open spec fn nib_y(inst: u16) -> usize {
    (((inst >> 4) & 0xF) as usize)
}

/// The low nibble of an instruction word.
pub open spec fn nib_n(inst: u16) -> usize {
    ((inst & 0xF) as usize)
}

/// The low byte of an instruction word.
pub open spec fn low_byte(inst: u16) -> u8 {
    ((inst & 0xFF) as u8)
}

/// The low 12 bits of an instruction word, used as an address.
pub open spec fn addr_of(inst: u16) -> u16 {
    inst & 0x0FFF
}

/// Bounds that decoding guarantees for every field of an instruction.
pub open spec fn instr_wf(ins: Instr) -> bool {
    match ins {
        Instr::Cls => true,
        Instr::Ret => true,
        Instr::Jp { addr } => addr < 0x1000,
        Instr::Call { addr } => addr < 0x1000,
        Instr::SeByte { x, kk } => x < 16,
        Instr::SneByte { x, kk } => x < 16,
        Instr::SeReg { x, y } => x < 16 && y < 16,
        Instr::LdByte { x, kk } => x < 16,
        Instr::AddByte { x, kk } => x < 16,
        Instr::LdReg { x, y } => x < 16 && y < 16,
        Instr::Or { x, y } => x < 16 && y < 16,
        Instr::And { x, y } => x < 16 && y < 16,
        Instr::Xor { x, y } => x < 16 && y < 16,
        Instr::AddReg { x, y } => x < 16 && y < 16,
        Instr::Sub { x, y } => x < 16 && y < 16,
        Instr::Shr { x, y } => x < 16 && y < 16,
        Instr::Subn { x, y } => x < 16 && y < 16,
        Instr::Shl { x, y } => x < 16 && y < 16,
        Instr::SneReg { x, y } => x < 16 && y < 16,
        Instr::LdI { addr } => addr < 0x1000,
        Instr::Drw { x, y, n } => x < 16 && y < 16 && n < 16,
        Instr::AddI { x } => x < 16,
        Instr::Bcd { x } => x < 16,
        Instr::StoreRegs { x } => x < 16,
        Instr::LoadRegs { x } => x < 16,
    }
}

/// The nibble fields of an instruction word are below 16 and its address
/// field below `0x1000`.
pub proof fn lemma_field_bounds(inst: u16)
    ensures
        nib_x(inst) < 16,
        nib_y(inst) < 16,
        nib_n(inst) < 16,
        addr_of(inst) < 0x1000,
{
    assert(((inst >> 8) & 0xF) < 16) by (bit_vector);
    assert(((inst >> 4) & 0xF) < 16) by (bit_vector);
    assert((inst & 0xF) < 16) by (bit_vector);
    assert((inst & 0x0FFF) < 0x1000) by (bit_vector);
}

/// What an instruction word decodes to, if anything.  The patterns with a
/// full 16-bit match come first; the rest are keyed by the top nibble, then
/// by the low nibble or low byte where a family shares its top nibble.
pub open spec fn spec_decode(inst: u16) -> Option<Instr> {
    if inst == 0x00E0 {
        Some(Instr::Cls)
    } else if inst == 0x00EE {
        Some(Instr::Ret)
    } else if inst & 0xF000 == 0x1000 {
        Some(Instr::Jp { addr: addr_of(inst) })
    } else if inst & 0xF000 == 0x2000 {
        Some(Instr::Call { addr: addr_of(inst) })
    } else if inst & 0xF000 == 0x3000 {
        Some(Instr::SeByte { x: nib_x(inst), kk: low_byte(inst) })
    } else if inst & 0xF000 == 0x4000 {
        Some(Instr::SneByte { x: nib_x(inst), kk: low_byte(inst) })
    } else if inst & 0xF000 == 0x5000 {
        Some(Instr::SeReg { x: nib_x(inst), y: nib_y(inst) })
    } else if inst & 0xF000 == 0x6000 {
        Some(Instr::LdByte { x: nib_x(inst), kk: low_byte(inst) })
    } else if inst & 0xF000 == 0x7000 {
        Some(Instr::AddByte { x: nib_x(inst), kk: low_byte(inst) })
    } else if inst & 0xF000 == 0x8000 {
        let x = nib_x(inst);
        let y = nib_y(inst);
        if inst & 0xF == 0x0 {
            Some(Instr::LdReg { x, y })
        } else if inst & 0xF == 0x1 {
            Some(Instr::Or { x, y })
        } else if inst & 0xF == 0x2 {
            Some(Instr::And { x, y })
        } else if inst & 0xF == 0x3 {
            Some(Instr::Xor { x, y })
        } else if inst & 0xF == 0x4 {
            Some(Instr::AddReg { x, y })
        } else if inst & 0xF == 0x5 {
            Some(Instr::Sub { x, y })
        } else if inst & 0xF == 0x6 {
            Some(Instr::Shr { x, y })
        } else if inst & 0xF == 0x7 {
            Some(Instr::Subn { x, y })
        } else if inst & 0xF == 0xE {
            Some(Instr::Shl { x, y })
        } else {
            None
        }
    } else if inst & 0xF000 == 0x9000 {
        Some(Instr::SneReg { x: nib_x(inst), y: nib_y(inst) })
    } else if inst & 0xF000 == 0xA000 {
        Some(Instr::LdI { addr: addr_of(inst) })
    } else if inst & 0xF000 == 0xD000 {
        Some(Instr::Drw { x: nib_x(inst), y: nib_y(inst), n: nib_n(inst) })
    } else if inst & 0xF0FF == 0xF01E {
        Some(Instr::AddI { x: nib_x(inst) })
    } else if inst & 0xF0FF == 0xF033 {
        Some(Instr::Bcd { x: nib_x(inst) })
    } else if inst & 0xF0FF == 0xF055 {
        Some(Instr::StoreRegs { x: nib_x(inst) })
    } else if inst & 0xF0FF == 0xF065 {
        Some(Instr::LoadRegs { x: nib_x(inst) })
    } else {
        None
    }
}

/// Decode one instruction word, or report that no pattern matches.
pub fn decode(inst: u16) -> (r: Option<Instr>)
    ensures
        r == spec_decode(inst),
        r matches Some(ins) ==> instr_wf(ins),
{
    proof {
        lemma_field_bounds(inst);
    }
    let x = ((inst >> 8) & 0xF) as usize;
    let y = ((inst >> 4) & 0xF) as usize;
    let n = (inst & 0xF) as usize;
    let kk = (inst & 0xFF) as u8;
    let addr = inst & 0x0FFF;
    if inst == 0x00E0 {
        Some(Instr::Cls)
    } else if inst == 0x00EE {
        Some(Instr::Ret)
    } else if inst & 0xF000 == 0x1000 {
        Some(Instr::Jp { addr })
    } else if inst & 0xF000 == 0x2000 {
        Some(Instr::Call { addr })
    } else if inst & 0xF000 == 0x3000 {
        Some(Instr::SeByte { x, kk })
    } else if inst & 0xF000 == 0x4000 {
        Some(Instr::SneByte { x, kk })
    } else if inst & 0xF000 == 0x5000 {
        Some(Instr::SeReg { x, y })
    } else if inst & 0xF000 == 0x6000 {
        Some(Instr::LdByte { x, kk })
    } else if inst & 0xF000 == 0x7000 {
        Some(Instr::AddByte { x, kk })
    } else if inst & 0xF000 == 0x8000 {
        match inst & 0xF {
            0x0 => Some(Instr::LdReg { x, y }),
            0x1 => Some(Instr::Or { x, y }),
            0x2 => Some(Instr::And { x, y }),
            0x3 => Some(Instr::Xor { x, y }),
            0x4 => Some(Instr::AddReg { x, y }),
            0x5 => Some(Instr::Sub { x, y }),
            0x6 => Some(Instr::Shr { x, y }),
            0x7 => Some(Instr::Subn { x, y }),
            0xE => Some(Instr::Shl { x, y }),
            _ => None,
        }
    } else if inst & 0xF000 == 0x9000 {
        Some(Instr::SneReg { x, y })
    } else if inst & 0xF000 == 0xA000 {
        Some(Instr::LdI { addr })
    } else if inst & 0xF000 == 0xD000 {
        Some(Instr::Drw { x, y, n })
    } else if inst & 0xF0FF == 0xF01E {
        Some(Instr::AddI { x })
    } else if inst & 0xF0FF == 0xF033 {
        Some(Instr::Bcd { x })
    } else if inst & 0xF0FF == 0xF055 {
        Some(Instr::StoreRegs { x })
    } else if inst & 0xF0FF == 0xF065 {
        Some(Instr::LoadRegs { x })
    } else {
        None
    }
}

} // verus!
