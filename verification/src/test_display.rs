use vstd::prelude::*;

use crate::display::Display;

verus! {

/// An in-memory display sink: a fixed 64 by 32 surface that accepts
/// every frame and never closes.
pub struct TestDisplay {}

impl Display for TestDisplay {
    fn new() -> Self {
        TestDisplay {  }
    }

    fn update(&mut self, _buffer: &mut Vec<bool>) {
    }

    fn get_size(&self) -> (usize, usize) {
        (64, 32)
    }

    fn is_open(&self) -> bool {
        true
    }
}

} // verus!
