use vstd::prelude::*;

use crate::framebuffer::{fb_wf, FbAbs};
use crate::instruction::Chip8Instruction;
use crate::semantics::{
    cpu_wf, draw_rec, draw_row_grid, end_col, row_collision, spec_execute, sprite_bit, CpuAbs,
};
use crate::u12::U12;

verus! {

/// Law: a `Call` followed by a `Return` restores the program counter
/// to the address that was current before the call (post-fetch, the
/// address of the instruction following the call) and leaves every
/// other part of the machine and the framebuffer as it was; the
/// `Return` cannot underflow.
pub proof fn lemma_call_return_round_trip(s: CpuAbs, fb: FbAbs, target: U12)
    ensures
        ({
            let after_call = spec_execute(s, fb, Chip8Instruction::Call(target));
            let after_ret = spec_execute(after_call.cpu, after_call.fb, Chip8Instruction::Return());
            &&& !after_call.underflow
            &&& !after_ret.underflow
            &&& after_ret.cpu == s
            &&& after_ret.fb == fb
        }),
{
    let after_call = spec_execute(s, fb, Chip8Instruction::Call(target));
    assert(after_call.cpu.stack.len() == s.stack.len() + 1);
    assert(after_call.cpu.stack.last() == s.pc);
    assert(after_call.cpu.stack.drop_last() =~= s.stack);
    let after_ret = spec_execute(after_call.cpu, after_call.fb, Chip8Instruction::Return());
    assert(after_ret.cpu =~= s);
}

/// Law: a `Return` on an empty call stack reports `StackUnderflow` and
/// changes neither the machine nor the framebuffer.
pub proof fn lemma_return_underflow(s: CpuAbs, fb: FbAbs)
    requires
        s.stack.len() == 0,
    ensures
        ({
            let out = spec_execute(s, fb, Chip8Instruction::Return());
            &&& out.underflow
            &&& out.cpu == s
            &&& out.fb == fb
        }),
{
}

/// Cell index of column `c` in row `r` of a `w`-wide row-major grid.
pub open spec fn cell_index(r: int, w: int, c: int) -> int {
    r * w + c
}

/// Whether a draw whose rows start at row `y` with starting column
/// `x0` reaches flat index `idx`: some composited row `k` and some
/// unclipped bit position `j` land there.
pub open spec fn draw_touches(idx: int, w: int, h: int, x0: int, y: int, rows: int) -> bool {
    exists|k: int, j: int|
        0 <= k < rows && y + k < h && 0 <= j < end_col(x0, w) - x0 && idx == #[trigger] cell_index(
            y + k,
            w,
            x0 + j,
        )
}

/// Frame property of the row recursion: cells the clipped sprite
/// windows do not reach keep their value.  Stated for a coordinate
/// register other than the flag register, whose mid-draw updates would
/// move the starting column of later rows.
pub proof fn lemma_draw_rec_frame(
    grid: Seq<bool>,
    v: Seq<u8>,
    w: nat,
    h: nat,
    vx: int,
    y: int,
    mem: Seq<u8>,
    base: int,
    rows: int,
)
    requires
        0 <= vx < 16,
        vx != 0xF,
        v.len() == 16,
        1 <= w,
        0 <= rows,
    ensures
        ({
            let out = draw_rec(grid, v, w, h, vx, y, mem, base, rows);
            &&& out.0.len() == grid.len()
            &&& out.1.len() == 16
            &&& out.1[vx] == v[vx]
            &&& forall|idx: int|
                0 <= idx < grid.len() && !draw_touches(
                    idx,
                    w as int,
                    h as int,
                    (v[vx] as int) % (w as int),
                    y,
                    rows,
                ) ==> out.0[idx] == grid[idx]
        }),
    decreases rows,
{
    let x0 = (v[vx] as int) % (w as int);
    let out = draw_rec(grid, v, w, h, vx, y, mem, base, rows);
    if rows <= 0 || y >= h {
    } else {
        let byte = mem[base];
        let g2 = draw_row_grid(grid, w, x0, y, byte);
        let v2 = if row_collision(grid, w, x0, y, byte) {
            v.update(0xF, 1u8)
        } else {
            v
        };
        assert(v2[vx] == v[vx]);
        lemma_draw_rec_frame(g2, v2, w, h, vx, y + 1, mem, base + 1, rows - 1);
        assert forall|idx: int|
            0 <= idx < grid.len() && !draw_touches(
                idx,
                w as int,
                h as int,
                x0,
                y,
                rows,
            ) implies out.0[idx] == grid[idx] by {
            // The window of row y is inside the touched cells.
            assert(g2[idx] == grid[idx]) by {
                if y * w + x0 <= idx < y * w + end_col(x0, w as int) {
                    let j = idx - (y * w + x0);
                    assert(idx == cell_index(y + 0, w as int, x0 + j));
                    assert(draw_touches(idx, w as int, h as int, x0, y, rows));
                }
            }
            // A cell the deeper rows touch is touched here as well.
            assert(!draw_touches(idx, w as int, h as int, x0, y + 1, rows - 1)) by {
                if draw_touches(idx, w as int, h as int, x0, y + 1, rows - 1) {
                    let (k, j) = choose|k: int, j: int|
                        0 <= k < rows - 1 && y + 1 + k < h && 0 <= j < end_col(x0, w as int) - x0
                            && idx == #[trigger] cell_index(y + 1 + k, w as int, x0 + j);
                    assert(idx == cell_index(y + (k + 1), w as int, x0 + j));
                    assert(draw_touches(idx, w as int, h as int, x0, y, rows));
                }
            }
        }
    }
}

/// The row recursion touches the register file at the flag register
/// alone: the registers come out unchanged, or unchanged but for
/// `v[0xF]` set to 1.
pub proof fn lemma_draw_rec_v_shape(
    grid: Seq<bool>,
    v: Seq<u8>,
    w: nat,
    h: nat,
    vx: int,
    y: int,
    mem: Seq<u8>,
    base: int,
    rows: int,
)
    requires
        v.len() == 16,
        0 <= rows,
    ensures
        ({
            let out = draw_rec(grid, v, w, h, vx, y, mem, base, rows);
            out.1 == v || out.1 == v.update(0xF, 1u8)
        }),
    decreases rows,
{
    if rows <= 0 || y >= h {
    } else {
        let x0 = (v[vx] as int) % (w as int);
        let byte = mem[base];
        let g2 = draw_row_grid(grid, w, x0, y, byte);
        let v2 = if row_collision(grid, w, x0, y, byte) {
            v.update(0xF, 1u8)
        } else {
            v
        };
        lemma_draw_rec_v_shape(g2, v2, w, h, vx, y + 1, mem, base + 1, rows - 1);
        assert(v.update(0xF, 1u8).update(0xF, 1u8) =~= v.update(0xF, 1u8));
    }
}

/// Two runs of the row recursion over grids that agree from row `y` on
/// collide identically and keep agreeing from row `y` on; cells below
/// row `y` are left exactly as they were in either run.
pub proof fn lemma_draw_rec_congruence(
    g1: Seq<bool>,
    g2: Seq<bool>,
    v: Seq<u8>,
    w: nat,
    h: nat,
    vx: int,
    y: int,
    mem: Seq<u8>,
    base: int,
    rows: int,
)
    requires
        0 <= vx < 16,
        v.len() == 16,
        1 <= w,
        0 <= y,
        0 <= rows,
        g1.len() == w * h,
        g2.len() == w * h,
        forall|idx: int| y * w <= idx < g1.len() ==> g1[idx] == g2[idx],
    ensures
        ({
            let out1 = draw_rec(g1, v, w, h, vx, y, mem, base, rows);
            let out2 = draw_rec(g2, v, w, h, vx, y, mem, base, rows);
            &&& out1.1 == out2.1
            &&& out1.0.len() == g1.len()
            &&& out2.0.len() == g2.len()
            &&& forall|idx: int|
                0 <= idx < y * w ==> out1.0[idx] == g1[idx] && out2.0[idx] == g2[idx]
            &&& forall|idx: int| y * w <= idx < g1.len() ==> out1.0[idx] == out2.0[idx]
        }),
    decreases rows,
{
    if rows <= 0 || y >= h {
    } else {
        let x0 = (v[vx] as int) % (w as int);
        let byte = mem[base];
        assert(0 <= x0 < w);
        assert((y + 1) * w <= w * h && y * w + w == (y + 1) * w && 0 <= y * w) by (nonlinear_arith)
            requires
                0 <= y < h,
                1 <= w,
        ;
        assert(row_collision(g1, w, x0, y, byte) == row_collision(g2, w, x0, y, byte)) by {
            assert forall|j: int|
                0 <= j < end_col(x0, w as int) - x0 && g1[y * w + x0 + j] && #[trigger] sprite_bit(
                    byte,
                    j,
                ) implies g2[y * w + x0 + j] && sprite_bit(byte, j) by {}
            assert forall|j: int|
                0 <= j < end_col(x0, w as int) - x0 && g2[y * w + x0 + j] && #[trigger] sprite_bit(
                    byte,
                    j,
                ) implies g1[y * w + x0 + j] && sprite_bit(byte, j) by {}
        }
        let g1r = draw_row_grid(g1, w, x0, y, byte);
        let g2r = draw_row_grid(g2, w, x0, y, byte);
        let v2 = if row_collision(g1, w, x0, y, byte) {
            v.update(0xF, 1u8)
        } else {
            v
        };
        assert forall|idx: int| y * w <= idx < g1.len() implies g1r[idx] == g2r[idx] by {
            assert(g1[idx] == g2[idx]);
        }
        lemma_draw_rec_congruence(g1r, g2r, v2, w, h, vx, y + 1, mem, base + 1, rows - 1);
        let out1 = draw_rec(g1, v, w, h, vx, y, mem, base, rows);
        let out2 = draw_rec(g2, v, w, h, vx, y, mem, base, rows);
        assert forall|idx: int| 0 <= idx < y * w implies out1.0[idx] == g1[idx] && out2.0[idx]
            == g2[idx] by {
            assert(out1.0[idx] == g1r[idx] && out2.0[idx] == g2r[idx]);
        }
        assert forall|idx: int| y * w <= idx < g1.len() implies out1.0[idx] == out2.0[idx] by {
            if idx < (y + 1) * w {
                assert(out1.0[idx] == g1r[idx] && out2.0[idx] == g2r[idx]);
            }
        }
    }
}

/// Law (XOR involution): drawing the same sprite at the same position
/// twice restores the grid, because XOR-compositing is its own
/// inverse, cell by cell.  Stated for coordinate registers other than
/// the flag register `0xF`, which the first draw itself may overwrite.
pub proof fn lemma_draw_rec_involutive(
    g: Seq<bool>,
    va: Seq<u8>,
    vb: Seq<u8>,
    w: nat,
    h: nat,
    vx: int,
    y: int,
    mem: Seq<u8>,
    base: int,
    rows: int,
)
    requires
        0 <= vx < 16,
        vx != 0xF,
        va.len() == 16,
        vb.len() == 16,
        va[vx] == vb[vx],
        1 <= w,
        0 <= y,
        0 <= rows,
        g.len() == w * h,
    ensures
        ({
            let first = draw_rec(g, va, w, h, vx, y, mem, base, rows);
            let second = draw_rec(first.0, vb, w, h, vx, y, mem, base, rows);
            second.0 == g
        }),
    decreases rows,
{
    let first = draw_rec(g, va, w, h, vx, y, mem, base, rows);
    let second = draw_rec(first.0, vb, w, h, vx, y, mem, base, rows);
    if rows <= 0 || y >= h {
        assert(second.0 =~= g);
    } else {
        let x0 = (va[vx] as int) % (w as int);
        let byte = mem[base];
        assert(0 <= x0 < w);
        assert((y + 1) * w <= w * h && y * w + w == (y + 1) * w && 0 <= y * w) by (nonlinear_arith)
            requires
                0 <= y < h,
                1 <= w,
        ;
        let a = draw_row_grid(g, w, x0, y, byte);
        let va2 = if row_collision(g, w, x0, y, byte) {
            va.update(0xF, 1u8)
        } else {
            va
        };
        let r1 = draw_rec(a, va2, w, h, vx, y + 1, mem, base + 1, rows - 1);
        assert(first.0 == r1.0 && first.1 == r1.1);
        // Cells below row y+1 are left alone by the deeper rows.
        lemma_draw_rec_congruence(a, a, va2, w, h, vx, y + 1, mem, base + 1, rows - 1);
        assert(forall|idx: int| 0 <= idx < (y + 1) * w ==> r1.0[idx] == a[idx]);
        // The second pass over row y undoes the first, cell by cell.
        let b = draw_row_grid(r1.0, w, x0, y, byte);
        let vb2 = if row_collision(r1.0, w, x0, y, byte) {
            vb.update(0xF, 1u8)
        } else {
            vb
        };
        assert(second.0 == draw_rec(b, vb2, w, h, vx, y + 1, mem, base + 1, rows - 1).0);
        assert forall|idx: int| 0 <= idx < (y + 1) * w implies b[idx] == g[idx] by {
            assert(r1.0[idx] == a[idx]);
            if y * w + x0 <= idx < y * w + end_col(x0, w as int) {
                assert(a[idx] == (g[idx] != sprite_bit(byte, idx - (y * w + x0))));
                assert(b[idx] == (r1.0[idx] != sprite_bit(byte, idx - (y * w + x0))));
            }
        }
        // Deeper rows of the second pass undo the deeper rows of the
        // first: the induction hypothesis, carried over to `b`, which
        // agrees with `r1.0` from row y+1 on.
        assert(va2[vx] == vb2[vx]);
        lemma_draw_rec_involutive(a, va2, vb2, w, h, vx, y + 1, mem, base + 1, rows - 1);
        assert(draw_rec(r1.0, vb2, w, h, vx, y + 1, mem, base + 1, rows - 1).0 == a);
        assert(forall|idx: int| (y + 1) * w <= idx < g.len() ==> b[idx] == r1.0[idx]);
        lemma_draw_rec_congruence(b, r1.0, vb2, w, h, vx, y + 1, mem, base + 1, rows - 1);
        assert forall|idx: int| 0 <= idx < g.len() implies second.0[idx] == g[idx] by {
            if idx < (y + 1) * w {
                assert(second.0[idx] == b[idx]);
            } else {
                assert(second.0[idx] == draw_rec(
                    r1.0,
                    vb2,
                    w,
                    h,
                    vx,
                    y + 1,
                    mem,
                    base + 1,
                    rows - 1,
                ).0[idx]);
                assert(a[idx] == g[idx]);
            }
        }
        assert(second.0 =~= g);
    }
}

/// Law: drawing the same sprite at the same position twice in a row
/// restores every cell of the framebuffer, whatever was on it before:
/// XOR-compositing is its own inverse.  Stated for a `Draw` whose
/// coordinate registers are not the flag register `0xF`, which the
/// first draw may overwrite between the two.
pub proof fn lemma_draw_twice_restores(s: CpuAbs, fb: FbAbs, vx: u8, vy: u8, n: u8)
    requires
        cpu_wf(s),
        fb_wf(fb),
        vx < 16,
        vy < 16,
        vx != 0xF,
        vy != 0xF,
    ensures
        ({
            let once = spec_execute(s, fb, Chip8Instruction::Draw(vx, vy, n));
            let twice = spec_execute(once.cpu, once.fb, Chip8Instruction::Draw(vx, vy, n));
            twice.fb.grid == fb.grid
        }),
{
    let y0 = (s.v[vy as int] as int) % (fb.height as int);
    let va = s.v.update(0xF, 0u8);
    lemma_draw_rec_v_shape(
        fb.grid,
        va,
        fb.width,
        fb.height,
        vx as int,
        y0,
        s.mem,
        s.i as int,
        n as int,
    );
    let once = spec_execute(s, fb, Chip8Instruction::Draw(vx, vy, n));
    assert(once.cpu.v[vy as int] == s.v[vy as int]);
    assert(once.cpu.v[vx as int] == s.v[vx as int]);
    let vb = once.cpu.v.update(0xF, 0u8);
    assert(vb[vx as int] == va[vx as int]);
    lemma_draw_rec_involutive(
        fb.grid,
        va,
        vb,
        fb.width,
        fb.height,
        vx as int,
        y0,
        s.mem,
        s.i as int,
        n as int,
    );
}

/// The row recursion never raises the flag when every cell from row
/// `y` down is off: there is nothing lit to collide with, and earlier
/// rows never touch the rows still to come.
pub proof fn lemma_draw_rec_keeps_flag(
    grid: Seq<bool>,
    v: Seq<u8>,
    w: nat,
    h: nat,
    vx: int,
    y: int,
    mem: Seq<u8>,
    base: int,
    rows: int,
)
    requires
        0 <= vx < 16,
        v.len() == 16,
        1 <= w,
        0 <= y,
        0 <= rows,
        grid.len() == w * h,
        forall|idx: int| y * w <= idx < grid.len() ==> !grid[idx],
    ensures
        draw_rec(grid, v, w, h, vx, y, mem, base, rows).1 == v,
    decreases rows,
{
    if rows <= 0 || y >= h {
    } else {
        let x0 = (v[vx] as int) % (w as int);
        let byte = mem[base];
        assert(0 <= x0 < w);
        assert((y + 1) * w <= w * h && y * w + w == (y + 1) * w && 0 <= y * w) by (nonlinear_arith)
            requires
                0 <= y < h,
                1 <= w,
        ;
        assert(!row_collision(grid, w, x0, y, byte)) by {
            if row_collision(grid, w, x0, y, byte) {
                let j = choose|j: int|
                    0 <= j < end_col(x0, w as int) - x0 && grid[y * w + x0 + j]
                        && #[trigger] sprite_bit(byte, j);
                assert(y * w <= y * w + x0 + j < grid.len());
                assert(false);
            }
        }
        let g2 = draw_row_grid(grid, w, x0, y, byte);
        assert(forall|idx: int| (y + 1) * w <= idx < g2.len() ==> !g2[idx]);
        lemma_draw_rec_keeps_flag(g2, v, w, h, vx, y + 1, mem, base + 1, rows - 1);
    }
}

/// Law: drawing on an all-false grid detects no collision: the flag
/// register ends the draw at 0.
pub proof fn lemma_draw_blank_no_collision(s: CpuAbs, fb: FbAbs, vx: u8, vy: u8, n: u8)
    requires
        cpu_wf(s),
        fb_wf(fb),
        vx < 16,
        vy < 16,
        forall|k: int| 0 <= k < fb.grid.len() ==> !fb.grid[k],
    ensures
        spec_execute(s, fb, Chip8Instruction::Draw(vx, vy, n)).cpu.v[0xF] == 0u8,
{
    let y0 = (s.v[vy as int] as int) % (fb.height as int);
    let va = s.v.update(0xF, 0u8);
    lemma_draw_rec_keeps_flag(
        fb.grid,
        va,
        fb.width,
        fb.height,
        vx as int,
        y0,
        s.mem,
        s.i as int,
        n as int,
    );
}

/// Whether a sprite has any visible bit: some composited row has a set
/// bit at a column inside the right edge.
pub open spec fn sprite_visible(
    w: int,
    h: int,
    x0: int,
    y: int,
    mem: Seq<u8>,
    base: int,
    rows: int,
) -> bool {
    exists|k: int, j: int|
        0 <= k < rows && y + k < h && 0 <= j < end_col(x0, w) - x0 && #[trigger] sprite_bit(
            mem[base + k],
            j,
        )
}

/// On a grid that is blank from row `y` down, drawing a sprite and
/// then drawing it again raises the flag exactly when the sprite has a
/// visible bit: the first pass lights exactly the sprite's bits, and
/// the second pass turns each of them off again.
pub proof fn lemma_draw_rec_blank_redraw(
    g: Seq<bool>,
    va: Seq<u8>,
    vb: Seq<u8>,
    w: nat,
    h: nat,
    vx: int,
    y: int,
    mem: Seq<u8>,
    base: int,
    rows: int,
)
    requires
        0 <= vx < 16,
        vx != 0xF,
        va.len() == 16,
        vb.len() == 16,
        va[vx] == vb[vx],
        1 <= w,
        0 <= y,
        0 <= rows,
        g.len() == w * h,
        forall|idx: int| y * w <= idx < g.len() ==> !g[idx],
    ensures
        ({
            let first = draw_rec(g, va, w, h, vx, y, mem, base, rows);
            let second = draw_rec(first.0, vb, w, h, vx, y, mem, base, rows);
            second.1 == (if sprite_visible(
                w as int,
                h as int,
                (va[vx] as int) % (w as int),
                y,
                mem,
                base,
                rows,
            ) {
                vb.update(0xF, 1u8)
            } else {
                vb
            })
        }),
    decreases rows,
{
    let x0 = (va[vx] as int) % (w as int);
    let first = draw_rec(g, va, w, h, vx, y, mem, base, rows);
    let second = draw_rec(first.0, vb, w, h, vx, y, mem, base, rows);
    if rows <= 0 || y >= h {
        assert(!sprite_visible(w as int, h as int, x0, y, mem, base, rows));
    } else {
        let byte = mem[base];
        assert(0 <= x0 < w);
        assert((y + 1) * w <= w * h && y * w + w == (y + 1) * w && 0 <= y * w) by (nonlinear_arith)
            requires
                0 <= y < h,
                1 <= w,
        ;
        // The first pass finds the row blank, so it collides with
        // nothing and lights exactly the sprite's bits.
        assert(!row_collision(g, w, x0, y, byte)) by {
            if row_collision(g, w, x0, y, byte) {
                let j = choose|j: int|
                    0 <= j < end_col(x0, w as int) - x0 && g[y * w + x0 + j]
                        && #[trigger] sprite_bit(byte, j);
                assert(y * w <= y * w + x0 + j < g.len());
                assert(false);
            }
        }
        let a = draw_row_grid(g, w, x0, y, byte);
        assert(first.0 == draw_rec(a, va, w, h, vx, y + 1, mem, base + 1, rows - 1).0);
        let r1 = draw_rec(a, va, w, h, vx, y + 1, mem, base + 1, rows - 1);
        lemma_draw_rec_congruence(a, a, va, w, h, vx, y + 1, mem, base + 1, rows - 1);
        assert(forall|idx: int| 0 <= idx < (y + 1) * w ==> r1.0[idx] == a[idx]);
        // The second pass sees the sprite's own bits on the row, so it
        // collides exactly when the row has a visible bit.
        let rowvis = exists|j: int|
            0 <= j < end_col(x0, w as int) - x0 && #[trigger] sprite_bit(byte, j);
        assert(row_collision(r1.0, w, x0, y, byte) == rowvis) by {
            if row_collision(r1.0, w, x0, y, byte) {
                let j = choose|j: int|
                    0 <= j < end_col(x0, w as int) - x0 && r1.0[y * w + x0 + j]
                        && #[trigger] sprite_bit(byte, j);
                assert(sprite_bit(byte, j));
            }
            if rowvis {
                let j = choose|j: int|
                    0 <= j < end_col(x0, w as int) - x0 && #[trigger] sprite_bit(byte, j);
                assert(0 <= y * w + x0 + j < (y + 1) * w);
                assert(a[y * w + x0 + j] == (g[y * w + x0 + j] != sprite_bit(byte, j)));
                assert(r1.0[y * w + x0 + j] && sprite_bit(byte, j));
            }
        }
        let vb2 = if rowvis {
            vb.update(0xF, 1u8)
        } else {
            vb
        };
        let b = draw_row_grid(r1.0, w, x0, y, byte);
        assert(second.1 == draw_rec(b, vb2, w, h, vx, y + 1, mem, base + 1, rows - 1).1);
        assert(forall|idx: int| (y + 1) * w <= idx < g.len() ==> b[idx] == r1.0[idx]);
        lemma_draw_rec_congruence(b, r1.0, vb2, w, h, vx, y + 1, mem, base + 1, rows - 1);
        assert(second.1 == draw_rec(r1.0, vb2, w, h, vx, y + 1, mem, base + 1, rows - 1).1);
        // The rows below behave as the induction hypothesis says: `a`
        // is still blank from row y+1 down.
        assert(forall|idx: int| (y + 1) * w <= idx < a.len() ==> !a[idx]);
        assert(vb2[vx] == va[vx]);
        lemma_draw_rec_blank_redraw(a, va, vb2, w, h, vx, y + 1, mem, base + 1, rows - 1);
        let deeper = sprite_visible(w as int, h as int, x0, y + 1, mem, base + 1, rows - 1);
        assert(second.1 == (if deeper {
            vb2.update(0xF, 1u8)
        } else {
            vb2
        }));
        // A visible bit is one on this row or one on a deeper row.
        assert(sprite_visible(w as int, h as int, x0, y, mem, base, rows) == (rowvis
            || deeper)) by {
            if sprite_visible(w as int, h as int, x0, y, mem, base, rows) {
                let (k, j) = choose|k: int, j: int|
                    0 <= k < rows && y + k < h && 0 <= j < end_col(x0, w as int) - x0
                        && #[trigger] sprite_bit(mem[base + k], j);
                if k == 0 {
                    assert(sprite_bit(byte, j));
                } else {
                    assert(sprite_bit(mem[(base + 1) + (k - 1)], j));
                    assert(deeper);
                }
            }
            if rowvis {
                let j = choose|j: int|
                    0 <= j < end_col(x0, w as int) - x0 && #[trigger] sprite_bit(byte, j);
                assert(sprite_bit(mem[base + 0], j));
                assert(sprite_visible(w as int, h as int, x0, y, mem, base, rows));
            }
            if deeper {
                let (k, j) = choose|k: int, j: int|
                    0 <= k < rows - 1 && y + 1 + k < h && 0 <= j < end_col(x0, w as int) - x0
                        && #[trigger] sprite_bit(mem[base + 1 + k], j);
                assert(sprite_bit(mem[base + (k + 1)], j));
                assert(sprite_visible(w as int, h as int, x0, y, mem, base, rows));
            }
        }
        if rowvis {
            assert(vb.update(0xF, 1u8).update(0xF, 1u8) =~= vb.update(0xF, 1u8));
        }
    }
}

/// Law: after drawing a sprite on a blank framebuffer, drawing the
/// same sprite at the same position again sets the collision flag
/// `v[0xF]` to 1 exactly when the sprite has a visible bit, since each
/// pixel the first draw lit is turned off again.  Stated for a `Draw`
/// whose coordinate registers are not the flag register `0xF`.
pub proof fn lemma_draw_twice_collides(s: CpuAbs, fb: FbAbs, vx: u8, vy: u8, n: u8)
    requires
        cpu_wf(s),
        fb_wf(fb),
        vx < 16,
        vy < 16,
        vx != 0xF,
        vy != 0xF,
        forall|k: int| 0 <= k < fb.grid.len() ==> !fb.grid[k],
    ensures
        ({
            let once = spec_execute(s, fb, Chip8Instruction::Draw(vx, vy, n));
            let twice = spec_execute(once.cpu, once.fb, Chip8Instruction::Draw(vx, vy, n));
            let x0 = (s.v[vx as int] as int) % (fb.width as int);
            let y0 = (s.v[vy as int] as int) % (fb.height as int);
            twice.cpu.v[0xF] == (if sprite_visible(
                fb.width as int,
                fb.height as int,
                x0,
                y0,
                s.mem,
                s.i as int,
                n as int,
            ) {
                1u8
            } else {
                0u8
            })
        }),
{
    let y0 = (s.v[vy as int] as int) % (fb.height as int);
    let va = s.v.update(0xF, 0u8);
    lemma_draw_rec_v_shape(
        fb.grid,
        va,
        fb.width,
        fb.height,
        vx as int,
        y0,
        s.mem,
        s.i as int,
        n as int,
    );
    let once = spec_execute(s, fb, Chip8Instruction::Draw(vx, vy, n));
    assert(once.cpu.v[vy as int] == s.v[vy as int]);
    assert(once.cpu.v[vx as int] == s.v[vx as int]);
    let vb = once.cpu.v.update(0xF, 0u8);
    assert(vb[vx as int] == va[vx as int]);
    lemma_draw_rec_blank_redraw(
        fb.grid,
        va,
        vb,
        fb.width,
        fb.height,
        vx as int,
        y0,
        s.mem,
        s.i as int,
        n as int,
    );
}

/// Law (clipping, no wrap): a `Draw` changes no cell outside the
/// clipped sprite windows.  A sprite row whose eight columns would
/// pass the right edge stops emitting pixels at the edge rather than
/// wrapping to column 0, and rows past the bottom edge are dropped.
/// Stated for a `Draw` whose x-coordinate register is not the flag
/// register `0xF`, which the draw itself overwrites.
pub proof fn lemma_draw_clips(s: CpuAbs, fb: FbAbs, vx: u8, vy: u8, n: u8)
    requires
        cpu_wf(s),
        fb_wf(fb),
        vx < 16,
        vy < 16,
        vx != 0xF,
    ensures
        ({
            let out = spec_execute(s, fb, Chip8Instruction::Draw(vx, vy, n));
            let x0 = (s.v[vx as int] as int) % (fb.width as int);
            let y0 = (s.v[vy as int] as int) % (fb.height as int);
            &&& out.fb.grid.len() == fb.grid.len()
            &&& forall|idx: int|
                0 <= idx < fb.grid.len() && !draw_touches(
                    idx,
                    fb.width as int,
                    fb.height as int,
                    x0,
                    y0,
                    n as int,
                ) ==> out.fb.grid[idx] == fb.grid[idx]
        }),
{
    let y0 = (s.v[vy as int] as int) % (fb.height as int);
    let v1 = s.v.update(0xF, 0u8);
    assert(v1[vx as int] == s.v[vx as int]);
    lemma_draw_rec_frame(
        fb.grid,
        v1,
        fb.width,
        fb.height,
        vx as int,
        y0,
        s.mem,
        s.i as int,
        n as int,
    );
}

} // verus!
