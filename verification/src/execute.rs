use vstd::prelude::*;

use crate::chip8::Chip8;
use crate::compat::Compatibility;
use crate::error::Chip8Error;
use crate::framebuffer::{FbAbs, FrameBuffer};
use crate::instruction::{instr_wf, Chip8Instruction};
use crate::semantics::{
    draw_rec, draw_reads_ok, draw_row_grid, draw_rows, end_col, row_collision, spec_execute,
    sprite_bit, CpuAbs,
};
use crate::u12::U12;

verus! {

impl Chip8 {
    /// Apply one decoded instruction to the machine and the
    /// framebuffer, producing the post-cycle state that `spec_execute`
    /// describes.  The only failure is `StackUnderflow`, returned if
    /// and only if a `Return` finds the call stack empty; the state is
    /// then left unchanged.
    ///
    /// For a `Draw`, the sprite reads must stay inside the address
    /// space (`draw_reads_ok`); the caller checks this before calling.
    pub fn execute(&mut self, instruction: Chip8Instruction, fb: &mut FrameBuffer) -> (r: Result<
        (),
        Chip8Error,
    >)
        requires
            old(self).wf(),
            old(fb).wf(),
            instr_wf(instruction),
            instruction matches Chip8Instruction::Draw(_vx, vy, n) ==> draw_reads_ok(
                old(self).abs(),
                old(fb)@,
                vy,
                n,
            ),
        ensures
            final(self).wf(),
            final(fb).wf(),
            ({
                let out = spec_execute(old(self).abs(), old(fb)@, instruction);
                &&& final(self).abs() == out.cpu
                &&& final(fb)@ == out.fb
                &&& (r is Err <==> out.underflow)
                &&& (r matches Err(e) ==> e == Chip8Error::StackUnderflow)
            }),
    {
        let result: Result<(), Chip8Error> = match instruction {
            Chip8Instruction::ClearScreen() => {
                fb.clear();
                proof {
                    assert(fb@.grid =~= Seq::new(old(fb)@.grid.len(), |k: int| false));
                }
                Ok(())
            },
            Chip8Instruction::Jump(nnn) => {
                self.pc = nnn;
                Ok(())
            },
            Chip8Instruction::Return() => {
                match self.stack.pop() {
                    Some(addr) => {
                        proof {
                            assert(old(self).abs().stack.len() > 0);
                            assert(addr@ == old(self).abs().stack.last());
                            assert(self.stack@.map_values(|a: U12| a@) =~= old(
                                self,
                            ).abs().stack.drop_last());
                        }
                        self.pc = addr;
                        Ok(())
                    },
                    None => Err(Chip8Error::StackUnderflow),
                }
            },
            Chip8Instruction::Call(nnn) => {
                self.stack.push(self.pc);
                self.pc = nnn;
                proof {
                    assert(self.stack@.map_values(|a: U12| a@) =~= old(self).abs().stack.push(
                        old(self).abs().pc,
                    ));
                }
                Ok(())
            },
            Chip8Instruction::SkipIfEqual(x, nn) => {
                if self.v_reg[x as usize] == nn {
                    self.inc_pc(2);
                }
                Ok(())
            },
            Chip8Instruction::SkipIfNotEqual(x, nn) => {
                if self.v_reg[x as usize] != nn {
                    self.inc_pc(2);
                }
                Ok(())
            },
            Chip8Instruction::SkipIfEqualXY(x, y) => {
                if self.v_reg[x as usize] == self.v_reg[y as usize] {
                    self.inc_pc(2);
                }
                Ok(())
            },
            Chip8Instruction::SkipIfNotEqualXY(x, y) => {
                if self.v_reg[x as usize] != self.v_reg[y as usize] {
                    self.inc_pc(2);
                }
                Ok(())
            },
            Chip8Instruction::SetVX(x, nn) => {
                self.v_reg[x as usize] = nn;
                Ok(())
            },
            Chip8Instruction::AddVX(x, nn) => {
                let sum = self.v_reg[x as usize] as u16 + nn as u16;
                self.v_reg[x as usize] = (sum % 0x100) as u8;
                Ok(())
            },
            Chip8Instruction::SetVXToVY(x, y) => {
                self.v_reg[x as usize] = self.v_reg[y as usize];
                Ok(())
            },
            Chip8Instruction::OrVXVY(x, y) => {
                self.v_reg[x as usize] = self.v_reg[x as usize] | self.v_reg[y as usize];
                Ok(())
            },
            Chip8Instruction::AndVXVY(x, y) => {
                self.v_reg[x as usize] = self.v_reg[x as usize] & self.v_reg[y as usize];
                Ok(())
            },
            Chip8Instruction::XorVXVY(x, y) => {
                self.v_reg[x as usize] = self.v_reg[x as usize] ^ self.v_reg[y as usize];
                Ok(())
            },
            Chip8Instruction::AddVYRegisterToVX(x, y) => {
                let sum = self.v_reg[x as usize] as u16 + self.v_reg[y as usize] as u16;
                self.v_reg[x as usize] = (sum % 0x100) as u8;
                self.v_reg[0xF] = if sum > 0xFF {
                    1
                } else {
                    0
                };
                Ok(())
            },
            Chip8Instruction::SubVYFromVX(x, y) => {
                let a = self.v_reg[x as usize];
                let b = self.v_reg[y as usize];
                self.v_reg[x as usize] = if a >= b {
                    a - b
                } else {
                    ((a as u16 + 0x100) - b as u16) as u8
                };
                self.v_reg[0xF] = if a >= b {
                    1
                } else {
                    0
                };
                Ok(())
            },
            Chip8Instruction::SubVXFromVY(x, y) => {
                let a = self.v_reg[y as usize];
                let b = self.v_reg[x as usize];
                self.v_reg[x as usize] = if a >= b {
                    a - b
                } else {
                    ((a as u16 + 0x100) - b as u16) as u8
                };
                self.v_reg[0xF] = if a >= b {
                    1
                } else {
                    0
                };
                Ok(())
            },
            Chip8Instruction::ShiftVXRight(x, y) => {
                let src = match self.compat {
                    Compatibility::Cosmac => self.v_reg[y as usize],
                    Compatibility::Chip48 => self.v_reg[x as usize],
                };
                self.v_reg[x as usize] = src >> 1u8;
                self.v_reg[0xF] = src & 1u8;
                Ok(())
            },
            Chip8Instruction::ShiftVXLeft(x, y) => {
                let src = match self.compat {
                    Compatibility::Cosmac => self.v_reg[y as usize],
                    Compatibility::Chip48 => self.v_reg[x as usize],
                };
                self.v_reg[x as usize] = src << 1u8;
                self.v_reg[0xF] = src >> 7u8;
                Ok(())
            },
            Chip8Instruction::SetIRegister(nnn) => {
                self.i_reg = nnn;
                Ok(())
            },
            Chip8Instruction::Draw(vx, vy, n) => {
                self.op_draw(fb, vx, vy, n);
                Ok(())
            },
        };
        result
    }

    /// Composite `n` sprite rows, read from memory starting at the
    /// index register, at the position given by `v[vx]` and `v[vy]`,
    /// exactly as `draw_rec` describes: `v[0xF]` is cleared first and
    /// raised when any lit pixel is turned off; rows clip at the bottom
    /// edge and columns at the right edge.
    #[verifier::loop_isolation(false)]
    fn op_draw(&mut self, fb: &mut FrameBuffer, vx: u8, vy: u8, n: u8)
        requires
            old(self).wf(),
            old(fb).wf(),
            vx < 16,
            vy < 16,
            n < 16,
            draw_reads_ok(old(self).abs(), old(fb)@, vy, n),
        ensures
            final(self).wf(),
            final(fb).wf(),
            ({
                let s0 = old(self).abs();
                let fb0 = old(fb)@;
                let y0 = (s0.v[vy as int] as int) % (fb0.height as int);
                let out = draw_rec(
                    fb0.grid,
                    s0.v.update(0xF, 0u8),
                    fb0.width,
                    fb0.height,
                    vx as int,
                    y0,
                    s0.mem,
                    s0.i as int,
                    n as int,
                );
                &&& final(self).abs() == (CpuAbs { v: out.1, ..s0 })
                &&& final(fb)@ == (FbAbs { grid: out.0, ..fb0 })
            }),
    {
        let ghost s0 = old(self).abs();
        let ghost fb0 = old(fb)@;
        let w = fb.width();
        let h = fb.height();
        let y0: usize = (self.v_reg[vy as usize] as usize) % h;
        self.v_reg[0xF] = 0;
        let ghost target = draw_rec(
            fb0.grid,
            self.v_reg@,
            fb0.width,
            fb0.height,
            vx as int,
            y0 as int,
            s0.mem,
            s0.i as int,
            n as int,
        );
        let mut row: usize = 0;
        while row < n as usize && y0 + row < h
            invariant
                old(self).wf(),
                vx < 16,
                vy < 16,
                n < 16,
                w == fb0.width,
                h == fb0.height,
                1 <= w,
                1 <= h,
                y0 < h,
                row <= n as usize,
                y0 + row <= h,
                s0.i + draw_rows(n as int, h as int, y0 as int) <= 0x1000,
                s0.mem == old(self).abs().mem,
                fb@.width == fb0.width,
                fb@.height == fb0.height,
                fb@.grid.len() == fb0.grid.len(),
                fb0.grid.len() == fb0.width * fb0.height,
                self.pc == old(self).pc,
                self.i_reg == old(self).i_reg,
                self.stack@ == old(self).stack@,
                self.compat == old(self).compat,
                self.memory@ == old(self).memory@,
                self.v_reg@.len() == 16,
                target == draw_rec(
                    fb@.grid,
                    self.v_reg@,
                    fb0.width,
                    fb0.height,
                    vx as int,
                    y0 + row,
                    s0.mem,
                    s0.i + row,
                    n - row,
                ),
            decreases n as int - row,
        {
            let ghost cur_grid = fb@.grid;
            let ghost cur_v = self.v_reg@;
            let x0: usize = (self.v_reg[vx as usize] as usize) % w;
            let y = y0 + row;
            proof {
                assert(row < draw_rows(n as int, h as int, y0 as int));
            }
            let addr = self.i_reg as usize + row;
            let byte = self.memory.read(U12::from_usize(addr));
            let ghost rowbase = (y as int) * (w as int);
            proof {
                assert(rowbase + w <= (fb0.width * fb0.height)) by (nonlinear_arith)
                    requires
                        rowbase == (y as int) * (w as int),
                        y < h,
                        0 <= y,
                        1 <= w,
                        fb0.width == w,
                        fb0.height == h,
                ;
            }
            let mut j: usize = 0;
            while j < 8 && x0 + j < w
                invariant
                    j <= 8,
                    x0 < w,
                    x0 + j <= w,
                    y < h,
                    1 <= w,
                    rowbase == (y as int) * (w as int),
                    rowbase + w <= fb0.grid.len(),
                    fb@.width == fb0.width,
                    fb@.height == fb0.height,
                    fb@.grid.len() == fb0.grid.len(),
                    self.pc == old(self).pc,
                    self.i_reg == old(self).i_reg,
                    self.stack@ == old(self).stack@,
                    self.compat == old(self).compat,
                    self.memory@ == old(self).memory@,
                    self.v_reg@.len() == 16,
                    cur_v.len() == 16,
                    cur_grid.len() == fb0.grid.len(),
                    forall|idx: int|
                        0 <= idx < fb@.grid.len() ==> fb@.grid[idx] == (if rowbase + x0 <= idx
                            < rowbase + x0 + j {
                            cur_grid[idx] != sprite_bit(byte, idx - (rowbase + x0))
                        } else {
                            cur_grid[idx]
                        }),
                    self.v_reg@ == (if (exists|jj: int|
                        0 <= jj < j && cur_grid[rowbase + x0 + jj] && #[trigger] sprite_bit(
                            byte,
                            jj,
                        )) {
                        cur_v.update(0xF, 1u8)
                    } else {
                        cur_v
                    }),
                decreases 8 - j,
            {
                let index = y * w + (x0 + j);
                proof {
                    assert((y as int) * (w as int) + (x0 + j) < fb0.grid.len());
                }
                let bit = (byte >> ((7 - j) as u8)) & 1u8 == 1u8;
                proof {
                    assert(bit == sprite_bit(byte, j as int));
                }
                let collision = fb.set_display_pixel(index, bit);
                if collision {
                    self.v_reg[0xF] = 1;
                    proof {
                        assert(cur_grid[rowbase + x0 + (j as int)] && sprite_bit(byte, j as int));
                        assert(exists|jj: int|
                            0 <= jj < j + 1 && cur_grid[rowbase + x0 + jj]
                                && #[trigger] sprite_bit(byte, jj));
                        if !(exists|jj: int|
                            0 <= jj < j && cur_grid[rowbase + x0 + jj] && #[trigger] sprite_bit(
                                byte,
                                jj,
                            )) {
                            assert(self.v_reg@ == cur_v.update(0xF, 1u8));
                        } else {
                            assert(self.v_reg@ =~= cur_v.update(0xF, 1u8));
                        }
                    }
                } else {
                    proof {
                        assert(!(cur_grid[rowbase + x0 + (j as int)] && sprite_bit(
                            byte,
                            j as int,
                        )));
                        assert forall|jj: int|
                            0 <= jj < j + 1 && cur_grid[rowbase + x0 + jj] && #[trigger] sprite_bit(
                                byte,
                                jj,
                            ) implies 0 <= jj < j by {
                            if jj == j {
                                assert(false);
                            }
                        }
                    }
                }
                j += 1;
            }
            proof {
                let x0i = x0 as int;
                let wi = fb0.width as int;
                assert(j == end_col(x0i, wi) - x0i);
                assert(fb@.grid =~= draw_row_grid(cur_grid, fb0.width, x0i, y as int, byte));
                assert(row_collision(cur_grid, fb0.width, x0i, y as int, byte) == (exists|jj: int|
                    0 <= jj < j && cur_grid[rowbase + x0 + jj] && #[trigger] sprite_bit(byte, jj)));
                assert(self.v_reg@ == (if row_collision(cur_grid, fb0.width, x0i, y as int, byte) {
                    cur_v.update(0xF, 1u8)
                } else {
                    cur_v
                }));
                assert(draw_rec(
                    cur_grid,
                    cur_v,
                    fb0.width,
                    fb0.height,
                    vx as int,
                    y0 + row,
                    s0.mem,
                    s0.i + row,
                    n - row,
                ) == draw_rec(
                    fb@.grid,
                    self.v_reg@,
                    fb0.width,
                    fb0.height,
                    vx as int,
                    y0 + row + 1,
                    s0.mem,
                    s0.i + row + 1,
                    n - row - 1,
                ));
            }
            row += 1;
        }
        proof {
            assert(draw_rec(
                fb@.grid,
                self.v_reg@,
                fb0.width,
                fb0.height,
                vx as int,
                y0 + row,
                s0.mem,
                s0.i + row,
                n - row,
            ) == (fb@.grid, self.v_reg@));
            assert(self.abs().stack =~= old(self).abs().stack);
        }
    }
}

} // verus!
