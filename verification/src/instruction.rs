use vstd::prelude::*;

use crate::u12::U12;

verus! {

/// A decoded instruction: one variant per recognized opcode family,
/// carrying the extracted operand fields, never raw bytes.
///
/// Operand conventions for a 16-bit opcode word: `x` is bits 8..=11,
/// `y` bits 4..=7, `n` bits 0..=3, `nn` bits 0..=7 and `nnn` bits
/// 0..=11.
#[derive(Clone, Copy, Debug, PartialEq, Eq, Structural)]
pub enum Chip8Instruction {
    /// 0x00E0: reset the framebuffer to all-false.
    ClearScreen(),
    /// 0x1NNN: `pc := nnn`.
    Jump(U12),
    /// 0x00EE: pop the call stack into `pc`.
    Return(),
    /// 0x2NNN: push `pc`, then `pc := nnn`.
    Call(U12),
    /// 0x3XNN: skip the next instruction when `v[x] == nn`.
    SkipIfEqual(u8, u8),
    /// 0x4XNN: skip the next instruction when `v[x] != nn`.
    SkipIfNotEqual(u8, u8),
    /// 0x5XY0: skip the next instruction when `v[x] == v[y]`.
    SkipIfEqualXY(u8, u8),
    /// 0x9XY0: skip the next instruction when `v[x] != v[y]`.
    SkipIfNotEqualXY(u8, u8),
    /// 0x6XNN: `v[x] := nn`.
    SetVX(u8, u8),
    /// 0x7XNN: `v[x] := v[x] + nn`, 8-bit wraparound, no flag change.
    AddVX(u8, u8),
    /// 0x8XY0: `v[x] := v[y]`.
    SetVXToVY(u8, u8),
    /// 0x8XY1: `v[x] |= v[y]`.
    OrVXVY(u8, u8),
    /// 0x8XY2: `v[x] &= v[y]`.
    AndVXVY(u8, u8),
    /// 0x8XY3: `v[x] ^= v[y]`.
    XorVXVY(u8, u8),
    /// 0x8XY4: `v[x] := v[x] + v[y]` with wraparound; `v[0xF]` is set to
    /// 1 on carry, else 0.
    AddVYRegisterToVX(u8, u8),
    /// 0x8XY5: `v[x] := v[x] - v[y]` with wraparound; `v[0xF]` is set to
    /// 1 when no borrow occurred, else 0.
    SubVYFromVX(u8, u8),
    /// 0x8XY6: shift right by one; the shifted register is selected by
    /// the compatibility mode, and `v[0xF]` receives the bit shifted out.
    ShiftVXRight(u8, u8),
    /// 0x8XY7: `v[x] := v[y] - v[x]` with wraparound; `v[0xF]` is set to
    /// 1 when no borrow occurred, else 0.
    SubVXFromVY(u8, u8),
    /// 0x8XYE: shift left by one; the shifted register is selected by
    /// the compatibility mode, and `v[0xF]` receives the bit shifted out.
    ShiftVXLeft(u8, u8),
    /// 0xANNN: `i := nnn`.
    SetIRegister(u16),
    /// 0xDXYN: draw `n` sprite rows read from memory at `i` to the
    /// position given by `v[x]` and `v[y]`.
    Draw(u8, u8, u8),
}

/// The operand fields lie in the ranges their bit positions allow:
/// register indices and 4-bit immediates fit in a nibble, address
/// immediates in 12 bits.  `decode` returns only such instructions.
pub open spec fn instr_wf(instr: Chip8Instruction) -> bool {
    match instr {
        Chip8Instruction::ClearScreen() => true,
        Chip8Instruction::Jump(nnn) => nnn@ <= 0xFFF,
        Chip8Instruction::Return() => true,
        Chip8Instruction::Call(nnn) => nnn@ <= 0xFFF,
        Chip8Instruction::SkipIfEqual(x, _nn) => x < 16,
        Chip8Instruction::SkipIfNotEqual(x, _nn) => x < 16,
        Chip8Instruction::SkipIfEqualXY(x, y) => x < 16 && y < 16,
        Chip8Instruction::SkipIfNotEqualXY(x, y) => x < 16 && y < 16,
        Chip8Instruction::SetVX(x, _nn) => x < 16,
        Chip8Instruction::AddVX(x, _nn) => x < 16,
        Chip8Instruction::SetVXToVY(x, y) => x < 16 && y < 16,
        Chip8Instruction::OrVXVY(x, y) => x < 16 && y < 16,
        Chip8Instruction::AndVXVY(x, y) => x < 16 && y < 16,
        Chip8Instruction::XorVXVY(x, y) => x < 16 && y < 16,
        Chip8Instruction::AddVYRegisterToVX(x, y) => x < 16 && y < 16,
        Chip8Instruction::SubVYFromVX(x, y) => x < 16 && y < 16,
        Chip8Instruction::ShiftVXRight(x, y) => x < 16 && y < 16,
        Chip8Instruction::SubVXFromVY(x, y) => x < 16 && y < 16,
        Chip8Instruction::ShiftVXLeft(x, y) => x < 16 && y < 16,
        Chip8Instruction::SetIRegister(nnn) => nnn <= 0xFFF,
        Chip8Instruction::Draw(x, y, n) => x < 16 && y < 16 && n < 16,
    }
}

} // verus!
