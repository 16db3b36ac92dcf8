use vstd::prelude::*;

use crate::compat::Compatibility;
use crate::framebuffer::FbAbs;
use crate::instruction::Chip8Instruction;

verus! {

/// Mathematical view of the CPU: program counter, the sixteen general
/// registers, the index register, the call stack (top of stack last)
/// and the 4096 memory bytes, together with the compatibility mode.
#[verifier::ext_equal]
pub ghost struct CpuAbs {
    pub pc: nat,
    pub v: Seq<u8>,
    pub i: u16,
    pub stack: Seq<nat>,
    pub mem: Seq<u8>,
    pub compat: Compatibility,
}

/// The program counter and every stacked return address fit in 12 bits,
/// there are sixteen registers, and memory holds one byte per address.
pub open spec fn cpu_wf(s: CpuAbs) -> bool {
    &&& s.pc <= 0xFFF
    &&& s.v.len() == 16
    &&& s.mem.len() == 0x1000
    &&& forall|k: int| 0 <= k < s.stack.len() ==> s.stack[k] <= 0xFFF
}

/// Outcome of executing one instruction: the post-cycle CPU and
/// framebuffer, and whether a `Return` found the stack empty (in which
/// case both are left unchanged).
#[verifier::ext_equal]
pub ghost struct StepOut {
    pub cpu: CpuAbs,
    pub fb: FbAbs,
    pub underflow: bool,
}

/// The program counter after one extra two-unit skip, wrapping within
/// the 12-bit range.
pub open spec fn skip2(s: CpuAbs) -> CpuAbs {
    CpuAbs { pc: ((s.pc + 2) % 0x1000) as nat, ..s }
}

/// 8-bit subtraction with wraparound.
pub open spec fn wrap_sub8(a: u8, b: u8) -> u8 {
    if a >= b {
        (a - b) as u8
    } else {
        (a + 0x100 - b) as u8
    }
}

/// Bit `j` of a sprite row byte, counting the most significant bit as
/// bit 0, the leftmost drawn pixel.
pub open spec fn sprite_bit(byte: u8, j: int) -> bool {
    (byte >> ((7 - j) as u8)) & 1u8 == 1u8
}

/// The column one past the last pixel a sprite row starting at column
/// `x0` reaches: eight columns wide, clipped at the right edge.
pub open spec fn end_col(x0: int, w: int) -> int {
    if x0 + 8 <= w {
        x0 + 8
    } else {
        w
    }
}

/// The grid after XOR-compositing one sprite row byte at row `y`,
/// starting column `x0 < w`.  Columns past the right edge are clipped:
/// cells outside `[y*w + x0, y*w + end_col)` are untouched, so nothing
/// wraps to column 0.
pub open spec fn draw_row_grid(grid: Seq<bool>, w: nat, x0: int, y: int, byte: u8) -> Seq<bool> {
    Seq::new(
        grid.len(),
        |idx: int|
            if y * w + x0 <= idx < y * w + end_col(x0, w as int) {
                grid[idx] != sprite_bit(byte, idx - (y * w + x0))
            } else {
                grid[idx]
            },
    )
}

/// Whether compositing this row turns some lit pixel off.
pub open spec fn row_collision(grid: Seq<bool>, w: nat, x0: int, y: int, byte: u8) -> bool {
    exists|j: int|
        0 <= j < end_col(x0, w as int) - x0 && grid[y * w + x0 + j] && #[trigger] sprite_bit(
            byte,
            j,
        )
}

/// Sprite rows composited top to bottom, mirroring the executor: the
/// starting column is recomputed from `v[vx]` at the start of every
/// row, the flag register `v[0xF]` is raised as soon as any row
/// collides, and drawing stops after `rows` rows or at the bottom edge.
/// Returns the new grid and the new register file.
pub open spec fn draw_rec(
    grid: Seq<bool>,
    v: Seq<u8>,
    w: nat,
    h: nat,
    vx: int,
    y: int,
    mem: Seq<u8>,
    base: int,
    rows: int,
) -> (Seq<bool>, Seq<u8>)
    decreases rows,
{
    if rows <= 0 || y >= h {
        (grid, v)
    } else {
        let x0 = (v[vx] as int) % (w as int);
        let byte = mem[base];
        let g2 = draw_row_grid(grid, w, x0, y, byte);
        let v2 = if row_collision(grid, w, x0, y, byte) {
            v.update(0xF, 1u8)
        } else {
            v
        };
        draw_rec(g2, v2, w, h, vx, y + 1, mem, base + 1, rows - 1)
    }
}

/// How many sprite rows a draw of `n` rows starting at row `y0` in a
/// grid of height `h` actually composites (and how many sprite bytes it
/// reads from memory): vertical clipping stops it at the bottom edge.
pub open spec fn draw_rows(n: int, h: int, y0: int) -> int {
    if n <= h - y0 {
        n
    } else {
        h - y0
    }
}

/// The sprite reads of a `Draw` stay inside the address space: the
/// index register plus the number of rows actually composited does not
/// pass the last address.
pub open spec fn draw_reads_ok(s: CpuAbs, fb: FbAbs, vy: u8, n: u8) -> bool {
    s.i + draw_rows(n as int, fb.height as int, (s.v[vy as int] as int) % (fb.height as int))
        <= 0x1000
}

/// One step of the executor: the post-cycle CPU and framebuffer for a
/// decoded instruction.  This is the single reference the executable
/// `execute` is proved against, arm for arm.
pub open spec fn spec_execute(s: CpuAbs, fb: FbAbs, instr: Chip8Instruction) -> StepOut {
    match instr {
        Chip8Instruction::ClearScreen() => StepOut {
            cpu: s,
            fb: (FbAbs { grid: Seq::new(fb.grid.len(), |k: int| false), ..fb }),
            underflow: false,
        },
        Chip8Instruction::Jump(nnn) => StepOut {
            cpu: (CpuAbs { pc: nnn@, ..s }),
            fb,
            underflow: false,
        },
        Chip8Instruction::Return() => if s.stack.len() == 0 {
            StepOut { cpu: s, fb, underflow: true }
        } else {
            StepOut {
                cpu: (CpuAbs { pc: s.stack.last(), stack: s.stack.drop_last(), ..s }),
                fb,
                underflow: false,
            }
        },
        Chip8Instruction::Call(nnn) => StepOut {
            cpu: (CpuAbs { pc: nnn@, stack: s.stack.push(s.pc), ..s }),
            fb,
            underflow: false,
        },
        Chip8Instruction::SkipIfEqual(x, nn) => StepOut {
            cpu: if s.v[x as int] == nn {
                skip2(s)
            } else {
                s
            },
            fb,
            underflow: false,
        },
        Chip8Instruction::SkipIfNotEqual(x, nn) => StepOut {
            cpu: if s.v[x as int] != nn {
                skip2(s)
            } else {
                s
            },
            fb,
            underflow: false,
        },
        Chip8Instruction::SkipIfEqualXY(x, y) => StepOut {
            cpu: if s.v[x as int] == s.v[y as int] {
                skip2(s)
            } else {
                s
            },
            fb,
            underflow: false,
        },
        Chip8Instruction::SkipIfNotEqualXY(x, y) => StepOut {
            cpu: if s.v[x as int] != s.v[y as int] {
                skip2(s)
            } else {
                s
            },
            fb,
            underflow: false,
        },
        Chip8Instruction::SetVX(x, nn) => StepOut {
            cpu: (CpuAbs { v: s.v.update(x as int, nn), ..s }),
            fb,
            underflow: false,
        },
        Chip8Instruction::AddVX(x, nn) => StepOut {
            cpu: (CpuAbs {
                v: s.v.update(x as int, ((s.v[x as int] + nn) % 0x100) as u8),
                ..s
            }),
            fb,
            underflow: false,
        },
        Chip8Instruction::SetVXToVY(x, y) => StepOut {
            cpu: (CpuAbs { v: s.v.update(x as int, s.v[y as int]), ..s }),
            fb,
            underflow: false,
        },
        Chip8Instruction::OrVXVY(x, y) => StepOut {
            cpu: (CpuAbs { v: s.v.update(x as int, s.v[x as int] | s.v[y as int]), ..s }),
            fb,
            underflow: false,
        },
        Chip8Instruction::AndVXVY(x, y) => StepOut {
            cpu: (CpuAbs { v: s.v.update(x as int, s.v[x as int] & s.v[y as int]), ..s }),
            fb,
            underflow: false,
        },
        Chip8Instruction::XorVXVY(x, y) => StepOut {
            cpu: (CpuAbs { v: s.v.update(x as int, s.v[x as int] ^ s.v[y as int]), ..s }),
            fb,
            underflow: false,
        },
        Chip8Instruction::AddVYRegisterToVX(x, y) => {
            let sum = s.v[x as int] + s.v[y as int];
            let flag: u8 = if sum > 0xFF {
                1
            } else {
                0
            };
            StepOut {
                cpu: (CpuAbs {
                    v: s.v.update(x as int, (sum % 0x100) as u8).update(0xF, flag),
                    ..s
                }),
                fb,
                underflow: false,
            }
        },
        Chip8Instruction::SubVYFromVX(x, y) => {
            // Operands are the registers' values before the operation;
            // the flag is written after the result, so for `x == 0xF`
            // the flag value prevails.
            let a = s.v[x as int];
            let b = s.v[y as int];
            let flag: u8 = if a >= b {
                1
            } else {
                0
            };
            StepOut {
                cpu: (CpuAbs { v: s.v.update(x as int, wrap_sub8(a, b)).update(0xF, flag), ..s }),
                fb,
                underflow: false,
            }
        },
        Chip8Instruction::SubVXFromVY(x, y) => {
            let a = s.v[y as int];
            let b = s.v[x as int];
            let flag: u8 = if a >= b {
                1
            } else {
                0
            };
            StepOut {
                cpu: (CpuAbs { v: s.v.update(x as int, wrap_sub8(a, b)).update(0xF, flag), ..s }),
                fb,
                underflow: false,
            }
        },
        Chip8Instruction::ShiftVXRight(x, y) => {
            let src = if s.compat is Cosmac {
                s.v[y as int]
            } else {
                s.v[x as int]
            };
            StepOut {
                cpu: (CpuAbs {
                    v: s.v.update(x as int, src >> 1u8).update(0xF, src & 1u8),
                    ..s
                }),
                fb,
                underflow: false,
            }
        },
        Chip8Instruction::ShiftVXLeft(x, y) => {
            let src = if s.compat is Cosmac {
                s.v[y as int]
            } else {
                s.v[x as int]
            };
            StepOut {
                cpu: (CpuAbs {
                    v: s.v.update(x as int, src << 1u8).update(0xF, src >> 7u8),
                    ..s
                }),
                fb,
                underflow: false,
            }
        },
        Chip8Instruction::SetIRegister(nnn) => StepOut {
            cpu: (CpuAbs { i: nnn, ..s }),
            fb,
            underflow: false,
        },
        Chip8Instruction::Draw(vx, vy, n) => {
            let y0 = (s.v[vy as int] as int) % (fb.height as int);
            let v1 = s.v.update(0xF, 0u8);
            let out = draw_rec(
                fb.grid,
                v1,
                fb.width,
                fb.height,
                vx as int,
                y0,
                s.mem,
                s.i as int,
                n as int,
            );
            StepOut {
                cpu: (CpuAbs { v: out.1, ..s }),
                fb: (FbAbs { grid: out.0, ..fb }),
                underflow: false,
            }
        },
    }
}

} // verus!
