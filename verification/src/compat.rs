use vstd::prelude::*;

verus! {

/// Selector between two historical CPU variants whose shift
/// instructions disagree: the Cosmac variant shifts the source register
/// `v[y]` into `v[x]`, while the Chip48 variant shifts the destination
/// register `v[x]` in place.
#[derive(Clone, Copy, Debug, PartialEq, Eq, Structural)]
pub enum Compatibility {
    Cosmac,
    Chip48,
}

} // verus!
