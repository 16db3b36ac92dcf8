use vstd::prelude::*;

use crate::u12::U12;

verus! {

/// Number of addressable bytes: one for every 12-bit address.
pub const MEM_SIZE: usize = 0x1000;

/// A fixed 4096-byte store addressed by `U12`.
///
/// Every address is readable; bytes below the program base offset are
/// reserved but stay addressable without failing.
pub struct Memory {
    mem: Vec<u8>,
}

impl View for Memory {
    type V = Seq<u8>;

    closed spec fn view(&self) -> Seq<u8> {
        self.mem@
    }
}

impl Memory {
    /// A well-formed store holds exactly one byte per address.
    pub open spec fn wf(self) -> bool {
        self@.len() == MEM_SIZE
    }

    /// A zeroed store.
    pub fn new() -> (m: Self)
        ensures
            m.wf(),
            forall|k: int| 0 <= k < MEM_SIZE ==> m@[k] == 0u8,
    {
        let mut mem: Vec<u8> = Vec::new();
        while mem.len() < MEM_SIZE
            invariant
                mem@.len() <= MEM_SIZE,
                forall|k: int| 0 <= k < mem@.len() ==> mem@[k] == 0u8,
            decreases MEM_SIZE - mem@.len(),
        {
            mem.push(0u8);
        }
        Memory { mem }
    }

    pub fn read(&self, addr: U12) -> (b: u8)
        requires
            self.wf(),
            addr.wf(),
        ensures
            b == self@[addr@ as int],
    {
        self.mem[addr.to_usize()]
    }

    pub fn write(&mut self, addr: U12, val: u8)
        requires
            old(self).wf(),
            addr.wf(),
        ensures
            final(self).wf(),
            final(self)@ == old(self)@.update(addr@ as int, val),
    {
        let i = addr.to_usize();
        self.mem[i] = val;
    }
}

} // verus!
