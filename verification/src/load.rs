use vstd::prelude::*;

use crate::chip8::Chip8;
use crate::u12::U12;

verus! {

/// Fixed memory address where loaded programs begin execution; bytes
/// below it are reserved.
pub const PROGRAM_START_ADDR: usize = 0x200;

impl Chip8 {
    /// Copy a program image into memory starting at the program base
    /// offset and point `pc` there.  Memory outside the image is left
    /// untouched; registers and stack are not changed.  The image must
    /// fit in the address space above the base offset.
    pub fn load_program(&mut self, program: &Vec<u8>)
        requires
            old(self).wf(),
            program@.len() <= 0x1000 - PROGRAM_START_ADDR,
        ensures
            final(self).wf(),
            final(self).abs().pc == PROGRAM_START_ADDR,
            final(self).abs().v == old(self).abs().v,
            final(self).abs().i == old(self).abs().i,
            final(self).abs().stack == old(self).abs().stack,
            final(self).abs().compat == old(self).abs().compat,
            forall|k: int|
                0 <= k < program@.len() ==> final(self).abs().mem[PROGRAM_START_ADDR + k]
                    == program@[k],
            forall|k: int|
                0 <= k < 0x1000 && !(PROGRAM_START_ADDR <= k < PROGRAM_START_ADDR
                    + program@.len()) ==> final(self).abs().mem[k] == old(self).abs().mem[k],
    {
        let mut index: usize = 0;
        while index < program.len()
            invariant
                old(self).wf(),
                program@.len() <= 0x1000 - PROGRAM_START_ADDR,
                index <= program@.len(),
                self.wf(),
                self.pc == old(self).pc,
                self.v_reg@ == old(self).v_reg@,
                self.i_reg == old(self).i_reg,
                self.stack@ == old(self).stack@,
                self.compat == old(self).compat,
                forall|k: int|
                    0 <= k < index ==> self.abs().mem[PROGRAM_START_ADDR + k] == program@[k],
                forall|k: int|
                    0 <= k < 0x1000 && !(PROGRAM_START_ADDR <= k < PROGRAM_START_ADDR + index)
                        ==> self.abs().mem[k] == old(self).abs().mem[k],
            decreases program@.len() - index,
        {
            let addr = U12::from_usize(PROGRAM_START_ADDR + index);
            self.memory.write(addr, program[index]);
            index += 1;
            proof {
                assert(self.abs().stack =~= old(self).abs().stack);
            }
        }
        self.pc = U12::from_usize(PROGRAM_START_ADDR);
        proof {
            assert(self.abs().stack =~= old(self).abs().stack);
        }
    }
}

} // verus!
