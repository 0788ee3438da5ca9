//! Delivery of notifications to the standard output.

use vstd::prelude::*;

verus! {

/// Prints each notification on its own line.
pub struct StdoutPrinter {}

impl StdoutPrinter {
    pub fn new() -> (r: Self) {
        Self {  }
    }
}

impl Default for StdoutPrinter {
    fn default() -> (r: Self) {
        Self::new()
    }
}

} // verus!
