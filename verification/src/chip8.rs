use vstd::prelude::*;

use crate::compat::Compatibility;
use crate::memory::Memory;
use crate::semantics::{cpu_wf, CpuAbs};
use crate::u12::U12;

verus! {

/// The CPU: program counter, sixteen 8-bit general registers (of which
/// `v[0xF]` doubles as the carry/borrow/collision flag), the 16-bit
/// index register, the call-return stack, and the owned memory.
///
/// The call stack is deliberately unbounded, a documented
/// simplification of the historical small fixed depth.
pub struct Chip8 {
    pub memory: Memory,
    pub pc: U12,
    pub v_reg: Vec<u8>,
    pub i_reg: u16,
    pub stack: Vec<U12>,
    pub compat: Compatibility,
}

impl Chip8 {
    /// Mathematical view of the whole machine.
    pub open spec fn abs(self) -> CpuAbs {
        CpuAbs {
            pc: self.pc@,
            v: self.v_reg@,
            i: self.i_reg,
            stack: self.stack@.map_values(|a: U12| a@),
            mem: self.memory@,
            compat: self.compat,
        }
    }

    pub open spec fn wf(self) -> bool {
        cpu_wf(self.abs())
    }

    /// A zeroed machine: `pc` at 0, all registers and memory 0, the
    /// stack empty.
    pub fn new(compat: Compatibility) -> (c: Chip8)
        ensures
            c.wf(),
            c.abs().pc == 0,
            c.abs().i == 0,
            c.abs().stack.len() == 0,
            forall|k: int| 0 <= k < 16 ==> c.abs().v[k] == 0u8,
            forall|k: int| 0 <= k < 0x1000 ==> c.abs().mem[k] == 0u8,
            c.abs().compat == compat,
    {
        let mut v_reg: Vec<u8> = Vec::new();
        while v_reg.len() < 16
            invariant
                v_reg@.len() <= 16,
                forall|k: int| 0 <= k < v_reg@.len() ==> v_reg@[k] == 0u8,
            decreases 16 - v_reg@.len(),
        {
            v_reg.push(0u8);
        }
        Chip8 {
            memory: Memory::new(),
            pc: U12::from_usize(0),
            v_reg,
            i_reg: 0,
            stack: Vec::new(),
            compat,
        }
    }
}

} // verus!
