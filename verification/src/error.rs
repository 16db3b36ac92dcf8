use vstd::prelude::*;

use crate::u12::U12;

verus! {

/// A fatal condition reported by the core.  The driving loop owns the
/// decision to halt; the core never retries or silently recovers.
#[derive(Clone, Copy, Debug, PartialEq, Eq, Structural)]
pub enum Chip8Error {
    /// The opcode word matches no recognized pattern.  Carries the
    /// address the word was fetched from (the address before the fetch)
    /// and the raw word, for diagnostics.
    DecodeError { address: U12, opcode: u16 },
    /// `Return` was executed with an empty call stack.
    StackUnderflow,
}

} // verus!
