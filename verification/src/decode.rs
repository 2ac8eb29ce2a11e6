//! Decoding of 16-bit instruction words into the architecture's opcodes.
//!
//! Every fetched word carries the same sub-fields regardless of family:
//! `x` (second nibble), `y` (third nibble), `n` (fourth nibble),
//! `nnn` (lowest 12 bits, an address) and `kk` (lowest byte, an immediate).

use vstd::prelude::*;

verus! {

/// A fully decoded instruction.
#[derive(Clone, Copy, PartialEq, Eq, Structural, Debug)]
pub enum Instr {
    /// 0x0000: terminates the run loop (a deliberate extension of the
    /// architecture; the reference hardware defines no halt word).
    Halt,
    /// 0x00E0: clear every framebuffer pixel.
    Cls,
    /// 0x00EE: pop one frame and return to the saved address.
    Ret,
    /// 0x1nnn: jump to `nnn`.
    Jp { nnn: u16 },
    /// 0x2nnn: push the return address and jump to `nnn`.
    Call { nnn: u16 },
    /// 0x3xkk: skip the next word if register `x` equals `kk`.
    SeImm { x: u8, kk: u8 },
    /// 0x4xkk: skip the next word if register `x` differs from `kk`.
    SneImm { x: u8, kk: u8 },
    /// 0x5xy0: skip the next word if registers `x` and `y` are equal.
    SeReg { x: u8, y: u8 },
    /// 0x6xkk: load `kk` into register `x`.
    LdImm { x: u8, kk: u8 },
    /// 0x7xkk: add `kk` to register `x`, truncated to 8 bits, no carry flag.
    AddImm { x: u8, kk: u8 },
    /// 0x8xy0: copy register `y` into register `x`.
    LdReg { x: u8, y: u8 },
    /// 0x8xy1: bitwise OR of registers `x` and `y` into `x`.
    OrReg { x: u8, y: u8 },
    /// 0x8xy2: bitwise AND of registers `x` and `y` into `x`.
    AndReg { x: u8, y: u8 },
    /// 0x8xy3: bitwise XOR of registers `x` and `y` into `x`.
    XorReg { x: u8, y: u8 },
    /// 0x8xy4: wrapped sum into `x`; register 0xF records the carry.
    AddReg { x: u8, y: u8 },
    /// 0x8xy5: register 0xF = 1 iff Vx > Vy, then wrapped Vx - Vy into `x`.
    SubReg { x: u8, y: u8 },
    /// 0x8xy6: register 0xF = least-significant bit of Vx, then Vx >>= 1.
    Shr { x: u8 },
    /// 0x8xy7: register 0xF = 1 iff Vy > Vx, then wrapped Vy - Vx into `x`.
    SubnReg { x: u8, y: u8 },
    /// 0x8xyE: register 0xF = most-significant bit of Vx, then Vx <<= 1.
    Shl { x: u8 },
    /// 0x9xy0: skip the next word if registers `x` and `y` differ.
    SneReg { x: u8, y: u8 },
    /// 0xAnnn: load `nnn` into the address register.
    LdI { nnn: u16 },
    /// 0xBnnn: jump to `nnn` plus register 0.
    JpV0 { nnn: u16 },
    /// 0xCxkk: load a uniformly random byte ANDed with `kk` into register `x`.
    Rnd { x: u8, kk: u8 },
    /// 0xDxyn: XOR-draw an 8-wide, `n`-high sprite at (Vx, Vy).
    Drw { x: u8, y: u8, n: u8 },
    /// 0xEx9E: skip the next word if the key named by register `x` is down.
    Skp { x: u8 },
    /// 0xExA1: skip the next word if the key named by register `x` is up.
    Sknp { x: u8 },
    /// 0xFx07: load the delay timer into register `x`.
    LdDt { x: u8 },
    /// 0xFx0A: block until a key press, then store the key in register `x`.
    LdKey { x: u8 },
    /// 0xFx15: load register `x` into the delay timer.
    SetDt { x: u8 },
    /// 0xFx18: load register `x` into the sound timer.
    SetSt { x: u8 },
    /// 0xFx1E: add register `x` to the address register, 16-bit wrapped.
    AddI { x: u8 },
    /// 0xFx29: point the address register at the font glyph for register `x`.
    LdFont { x: u8 },
    /// 0xFx33: store the three decimal digits of register `x` at I, I+1, I+2.
    Bcd { x: u8 },
    /// 0xFx55: copy registers 0..=x into memory starting at I.
    StoreRegs { x: u8 },
    /// 0xFx65: copy memory starting at I into registers 0..=x.
    LoadRegs { x: u8 },
    /// Any word matching no pattern above: fatal.
    Unknown,
}

/// Second nibble of an instruction word (bits 8-11).
pub open spec fn spec_field_x(op: u16) -> u8 {
    ((op / 0x100) % 16) as u8
}

/// Third nibble of an instruction word (bits 4-7).
pub open spec fn spec_field_y(op: u16) -> u8 {
    ((op / 16) % 16) as u8
}

/// Fourth nibble of an instruction word (bits 0-3).
pub open spec fn spec_field_n(op: u16) -> u8 {
    (op % 16) as u8
}

/// Lowest 12 bits of an instruction word: a memory address.
pub open spec fn spec_field_nnn(op: u16) -> u16 {
    op % 0x1000
}

/// Lowest byte of an instruction word: an immediate.
pub open spec fn spec_field_kk(op: u16) -> u8 {
    (op % 0x100) as u8
}

/// What a 16-bit word decodes to, as the architecture's semantics table
/// defines it.
pub open spec fn spec_decode(op: u16) -> Instr {
    let x = spec_field_x(op);
    let y = spec_field_y(op);
    let n = spec_field_n(op);
    let nnn = spec_field_nnn(op);
    let kk = spec_field_kk(op);
    let family = op / 0x1000;
    if family == 0x0 {
        if op == 0x0000 {
            Instr::Halt
        } else if op == 0x00E0 {
            Instr::Cls
        } else if op == 0x00EE {
            Instr::Ret
        } else {
            Instr::Unknown
        }
    } else if family == 0x1 {
        Instr::Jp { nnn }
    } else if family == 0x2 {
        Instr::Call { nnn }
    } else if family == 0x3 {
        Instr::SeImm { x, kk }
    } else if family == 0x4 {
        Instr::SneImm { x, kk }
    } else if family == 0x5 {
        if n == 0 {
            Instr::SeReg { x, y }
        } else {
            Instr::Unknown
        }
    } else if family == 0x6 {
        Instr::LdImm { x, kk }
    } else if family == 0x7 {
        Instr::AddImm { x, kk }
    } else if family == 0x8 {
        if n == 0x0 {
            Instr::LdReg { x, y }
        } else if n == 0x1 {
            Instr::OrReg { x, y }
        } else if n == 0x2 {
            Instr::AndReg { x, y }
        } else if n == 0x3 {
            Instr::XorReg { x, y }
        } else if n == 0x4 {
            Instr::AddReg { x, y }
        } else if n == 0x5 {
            Instr::SubReg { x, y }
        } else if n == 0x6 {
            Instr::Shr { x }
        } else if n == 0x7 {
            Instr::SubnReg { x, y }
        } else if n == 0xE {
            Instr::Shl { x }
        } else {
            Instr::Unknown
        }
    } else if family == 0x9 {
        if n == 0 {
            Instr::SneReg { x, y }
        } else {
            Instr::Unknown
        }
    } else if family == 0xA {
        Instr::LdI { nnn }
    } else if family == 0xB {
        Instr::JpV0 { nnn }
    } else if family == 0xC {
        Instr::Rnd { x, kk }
    } else if family == 0xD {
        Instr::Drw { x, y, n }
    } else if family == 0xE {
        if kk == 0x9E {
            Instr::Skp { x }
        } else if kk == 0xA1 {
            Instr::Sknp { x }
        } else {
            Instr::Unknown
        }
    } else {
        if kk == 0x07 {
            Instr::LdDt { x }
        } else if kk == 0x0A {
            Instr::LdKey { x }
        } else if kk == 0x15 {
            Instr::SetDt { x }
        } else if kk == 0x18 {
            Instr::SetSt { x }
        } else if kk == 0x1E {
            Instr::AddI { x }
        } else if kk == 0x29 {
            Instr::LdFont { x }
        } else if kk == 0x33 {
            Instr::Bcd { x }
        } else if kk == 0x55 {
            Instr::StoreRegs { x }
        } else if kk == 0x65 {
            Instr::LoadRegs { x }
        } else {
            Instr::Unknown
        }
    }
}

/// Every field of a decoded instruction stays in its sub-field's range:
/// register indices below 16, nibbles below 16, addresses below 0x1000.
pub open spec fn instr_wf(i: Instr) -> bool {
    match i {
        Instr::Jp { nnn } => nnn < 0x1000,
        Instr::Call { nnn } => nnn < 0x1000,
        Instr::SeImm { x, kk } => x < 16,
        Instr::SneImm { x, kk } => x < 16,
        Instr::SeReg { x, y } => x < 16 && y < 16,
        Instr::LdImm { x, kk } => x < 16,
        Instr::AddImm { x, kk } => x < 16,
        Instr::LdReg { x, y } => x < 16 && y < 16,
        Instr::OrReg { x, y } => x < 16 && y < 16,
        Instr::AndReg { x, y } => x < 16 && y < 16,
        Instr::XorReg { x, y } => x < 16 && y < 16,
        Instr::AddReg { x, y } => x < 16 && y < 16,
        Instr::SubReg { x, y } => x < 16 && y < 16,
        Instr::Shr { x } => x < 16,
        Instr::SubnReg { x, y } => x < 16 && y < 16,
        Instr::Shl { x } => x < 16,
        Instr::SneReg { x, y } => x < 16 && y < 16,
        Instr::LdI { nnn } => nnn < 0x1000,
        Instr::JpV0 { nnn } => nnn < 0x1000,
        Instr::Rnd { x, kk } => x < 16,
        Instr::Drw { x, y, n } => x < 16 && y < 16 && n < 16,
        Instr::Skp { x } => x < 16,
        Instr::Sknp { x } => x < 16,
        Instr::LdDt { x } => x < 16,
        Instr::LdKey { x } => x < 16,
        Instr::SetDt { x } => x < 16,
        Instr::SetSt { x } => x < 16,
        Instr::AddI { x } => x < 16,
        Instr::LdFont { x } => x < 16,
        Instr::Bcd { x } => x < 16,
        Instr::StoreRegs { x } => x < 16,
        Instr::LoadRegs { x } => x < 16,
        _ => true,
    }
}

/// Decode a 16-bit instruction word.
pub fn decode(op: u16) -> (r: Instr)
    ensures
        r == spec_decode(op),
        instr_wf(r),
{
    let x: u8 = ((op / 0x100) % 16) as u8;
    let y: u8 = ((op / 16) % 16) as u8;
    let n: u8 = (op % 16) as u8;
    let nnn: u16 = op % 0x1000;
    let kk: u8 = (op % 0x100) as u8;
    let family: u16 = op / 0x1000;
    match family {
        0x0 => {
            if op == 0x0000 {
                Instr::Halt
            } else if op == 0x00E0 {
                Instr::Cls
            } else if op == 0x00EE {
                Instr::Ret
            } else {
                Instr::Unknown
            }
        },
        0x1 => Instr::Jp { nnn },
        0x2 => Instr::Call { nnn },
        0x3 => Instr::SeImm { x, kk },
        0x4 => Instr::SneImm { x, kk },
        0x5 => {
            if n == 0 {
                Instr::SeReg { x, y }
            } else {
                Instr::Unknown
            }
        },
        0x6 => Instr::LdImm { x, kk },
        0x7 => Instr::AddImm { x, kk },
        0x8 => {
            match n {
                0x0 => Instr::LdReg { x, y },
                0x1 => Instr::OrReg { x, y },
                0x2 => Instr::AndReg { x, y },
                0x3 => Instr::XorReg { x, y },
                0x4 => Instr::AddReg { x, y },
                0x5 => Instr::SubReg { x, y },
                0x6 => Instr::Shr { x },
                0x7 => Instr::SubnReg { x, y },
                0xE => Instr::Shl { x },
                _ => Instr::Unknown,
            }
        },
        0x9 => {
            if n == 0 {
                Instr::SneReg { x, y }
            } else {
                Instr::Unknown
            }
        },
        0xA => Instr::LdI { nnn },
        0xB => Instr::JpV0 { nnn },
        0xC => Instr::Rnd { x, kk },
        0xD => Instr::Drw { x, y, n },
        0xE => {
            if kk == 0x9E {
                Instr::Skp { x }
            } else if kk == 0xA1 {
                Instr::Sknp { x }
            } else {
                Instr::Unknown
            }
        },
        _ => {
            if kk == 0x07 {
                Instr::LdDt { x }
            } else if kk == 0x0A {
                Instr::LdKey { x }
            } else if kk == 0x15 {
                Instr::SetDt { x }
            } else if kk == 0x1E {
                Instr::AddI { x }
            } else if kk == 0x18 {
                Instr::SetSt { x }
            } else if kk == 0x29 {
                Instr::LdFont { x }
            } else if kk == 0x33 {
                Instr::Bcd { x }
            } else if kk == 0x55 {
                Instr::StoreRegs { x }
            } else if kk == 0x65 {
                Instr::LoadRegs { x }
            } else {
                Instr::Unknown
            }
        },
    }
}

} // verus!
