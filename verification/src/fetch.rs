use vstd::prelude::*;

use crate::chip8::Chip8;
use crate::semantics::CpuAbs;
use crate::u12::U12;

verus! {

impl Chip8 {
    /// Advance the program counter by `x` address units, wrapping
    /// within the 12-bit range.
    pub(crate) fn inc_pc(&mut self, x: u16)
        requires
            old(self).wf(),
            x <= 0xFFF,
        ensures
            final(self).wf(),
            final(self).abs() == (CpuAbs {
                pc: ((old(self).abs().pc + x) % 0x1000) as nat,
                ..old(self).abs()
            }),
    {
        self.pc = self.pc.wrapping_add(U12::from_usize(x as usize));
    }

    /// Read the two bytes at `pc` and `pc + 1` and combine them
    /// big-endian into an opcode word; `pc` advances by one address
    /// unit after each of the two byte reads, wrapping within the
    /// 12-bit range (a deliberate, documented extension of the
    /// contract for a fetch at the very last address).
    pub fn fetch(&mut self) -> (code: u16)
        requires
            old(self).wf(),
        ensures
            final(self).wf(),
            final(self).abs() == (CpuAbs {
                pc: ((old(self).abs().pc + 2) % 0x1000) as nat,
                ..old(self).abs()
            }),
            code == old(self).abs().mem[old(self).abs().pc as int] * 0x100 + old(
                self,
            ).abs().mem[((old(self).abs().pc + 1) % 0x1000) as int],
    {
        let hi = self.memory.read(self.pc) as u16;
        self.inc_pc(1);
        let lo = self.memory.read(self.pc) as u16;
        self.inc_pc(1);
        proof {
            let p = old(self).abs().pc;
            assert((p + 1) % 0x1000 + 1 == (p + 2) % 0x1000 || (p + 1) % 0x1000 + 1 == 0x1000);
            assert(((p + 1) % 0x1000 + 1) % 0x1000 == (p + 2) % 0x1000);
        }
        let code = (hi << 8u16) | lo;
        proof {
            assert((hi << 8u16) | lo == hi * 0x100 + lo) by (bit_vector)
                requires
                    hi < 0x100,
                    lo < 0x100,
            ;
        }
        code
    }
}

} // verus!
