use vstd::prelude::*;

use crate::chip8::Chip8;
use crate::error::Chip8Error;
use crate::instruction::{instr_wf, Chip8Instruction};
use crate::u12::{lemma_u12_from, lemma_u12_view_injective, u12_from, U12};

verus! {

/// The decode table.  The top nibble selects the opcode family; the
/// families 0x0 and 0x8 dispatch a second time, on the low byte or the
/// low nibble.  Operand fields are extracted from fixed bit positions
/// regardless of family: `x` from bits 8..=11, `y` from bits 4..=7,
/// `n` from bits 0..=3, `nn` from bits 0..=7, `nnn` from bits 0..=11.
/// A word outside the table decodes to `None`.
pub open spec fn spec_decode(code: u16) -> Option<Chip8Instruction> {
    let x = ((code >> 8u16) & 0xF) as u8;
    let y = ((code >> 4u16) & 0xF) as u8;
    let n = (code & 0xF) as u8;
    let nn = (code & 0xFF) as u8;
    let nnn = (code & 0xFFF) as nat;
    let top = code >> 12u16;
    if code == 0x00E0 {
        Some(Chip8Instruction::ClearScreen())
    } else if code == 0x00EE {
        Some(Chip8Instruction::Return())
    } else if top == 0x1 {
        Some(Chip8Instruction::Jump(u12_from(nnn)))
    } else if top == 0x2 {
        Some(Chip8Instruction::Call(u12_from(nnn)))
    } else if top == 0x3 {
        Some(Chip8Instruction::SkipIfEqual(x, nn))
    } else if top == 0x4 {
        Some(Chip8Instruction::SkipIfNotEqual(x, nn))
    } else if top == 0x5 {
        Some(Chip8Instruction::SkipIfEqualXY(x, y))
    } else if top == 0x6 {
        Some(Chip8Instruction::SetVX(x, nn))
    } else if top == 0x7 {
        Some(Chip8Instruction::AddVX(x, nn))
    } else if top == 0x8 {
        if n == 0x0 {
            Some(Chip8Instruction::SetVXToVY(x, y))
        } else if n == 0x1 {
            Some(Chip8Instruction::OrVXVY(x, y))
        } else if n == 0x2 {
            Some(Chip8Instruction::AndVXVY(x, y))
        } else if n == 0x3 {
            Some(Chip8Instruction::XorVXVY(x, y))
        } else if n == 0x4 {
            Some(Chip8Instruction::AddVYRegisterToVX(x, y))
        } else if n == 0x5 {
            Some(Chip8Instruction::SubVYFromVX(x, y))
        } else if n == 0x6 {
            Some(Chip8Instruction::ShiftVXRight(x, y))
        } else if n == 0x7 {
            Some(Chip8Instruction::SubVXFromVY(x, y))
        } else if n == 0xE {
            Some(Chip8Instruction::ShiftVXLeft(x, y))
        } else {
            None
        }
    } else if top == 0x9 {
        Some(Chip8Instruction::SkipIfNotEqualXY(x, y))
    } else if top == 0xA {
        Some(Chip8Instruction::SetIRegister((code & 0xFFF) as u16))
    } else if top == 0xD {
        Some(Chip8Instruction::Draw(x, y, n))
    } else {
        None
    }
}

/// Map a 16-bit opcode word to its instruction, exactly as the decode
/// table states; `None` when no pattern matches.  Every instruction
/// returned has well-formed operand fields.
pub fn decode_word(code: u16) -> (r: Option<Chip8Instruction>)
    ensures
        r == spec_decode(code),
        r matches Some(i) ==> instr_wf(i),
{
    proof {
        assert((code >> 8u16) & 0xF < 16 && (code >> 4u16) & 0xF < 16 && (code & 0xF) < 16 && (
        code & 0xFFF) <= 0xFFF) by (bit_vector);
        lemma_u12_from(((code & 0xFFF) as nat));
    }
    let x = ((code >> 8u16) & 0xF) as u8;
    let y = ((code >> 4u16) & 0xF) as u8;
    let n = (code & 0xF) as u8;
    let nn = (code & 0xFF) as u8;
    let nnn = code & 0xFFF;
    let top = code >> 12u16;
    if code == 0x00E0 {
        Some(Chip8Instruction::ClearScreen())
    } else if code == 0x00EE {
        Some(Chip8Instruction::Return())
    } else if top == 0x1 {
        let addr = U12::from_usize(nnn as usize);
        proof {
            lemma_u12_view_injective(addr, u12_from(nnn as nat));
        }
        Some(Chip8Instruction::Jump(addr))
    } else if top == 0x2 {
        let addr = U12::from_usize(nnn as usize);
        proof {
            lemma_u12_view_injective(addr, u12_from(nnn as nat));
        }
        Some(Chip8Instruction::Call(addr))
    } else if top == 0x3 {
        Some(Chip8Instruction::SkipIfEqual(x, nn))
    } else if top == 0x4 {
        Some(Chip8Instruction::SkipIfNotEqual(x, nn))
    } else if top == 0x5 {
        Some(Chip8Instruction::SkipIfEqualXY(x, y))
    } else if top == 0x6 {
        Some(Chip8Instruction::SetVX(x, nn))
    } else if top == 0x7 {
        Some(Chip8Instruction::AddVX(x, nn))
    } else if top == 0x8 {
        if n == 0x0 {
            Some(Chip8Instruction::SetVXToVY(x, y))
        } else if n == 0x1 {
            Some(Chip8Instruction::OrVXVY(x, y))
        } else if n == 0x2 {
            Some(Chip8Instruction::AndVXVY(x, y))
        } else if n == 0x3 {
            Some(Chip8Instruction::XorVXVY(x, y))
        } else if n == 0x4 {
            Some(Chip8Instruction::AddVYRegisterToVX(x, y))
        } else if n == 0x5 {
            Some(Chip8Instruction::SubVYFromVX(x, y))
        } else if n == 0x6 {
            Some(Chip8Instruction::ShiftVXRight(x, y))
        } else if n == 0x7 {
            Some(Chip8Instruction::SubVXFromVY(x, y))
        } else if n == 0xE {
            Some(Chip8Instruction::ShiftVXLeft(x, y))
        } else {
            None
        }
    } else if top == 0x9 {
        Some(Chip8Instruction::SkipIfNotEqualXY(x, y))
    } else if top == 0xA {
        Some(Chip8Instruction::SetIRegister(nnn))
    } else if top == 0xD {
        Some(Chip8Instruction::Draw(x, y, n))
    } else {
        None
    }
}

impl Chip8 {
    /// Decode a fetched opcode word.  On failure the error carries the
    /// word and its origin address: the program counter before the two
    /// byte fetches, that is `pc - 2` wrapped within 12 bits.
    pub fn decode(&self, code: u16) -> (r: Result<Chip8Instruction, Chip8Error>)
        requires
            self.wf(),
        ensures
            match r {
                Ok(i) => spec_decode(code) == Some(i) && instr_wf(i),
                Err(e) => spec_decode(code) is None && (e matches Chip8Error::DecodeError {
                    address,
                    opcode,
                } && address@ == (self.abs().pc + 0x1000 - 2) % 0x1000 && opcode == code),
            },
    {
        match decode_word(code) {
            Some(instruction) => Ok(instruction),
            None => Err(self.bad_instruction(code)),
        }
    }

    /// The failure value for an unrecognized word, carrying the
    /// instruction's origin address for diagnostics.
    fn bad_instruction(&self, code: u16) -> (e: Chip8Error)
        requires
            self.wf(),
        ensures
            e matches Chip8Error::DecodeError { address, opcode } && address@ == (self.abs().pc
                + 0x1000 - 2) % 0x1000 && opcode == code,
    {
        Chip8Error::DecodeError { address: self.pc.wrapping_sub(U12::from_usize(2)), opcode: code }
    }
}

} // verus!
