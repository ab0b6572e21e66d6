//! A row/column position in the source text, for human-facing messages.

use vstd::prelude::*;

verus! {

/// A row and column in the source text, both as a reader counts them.
#[derive(Debug, Copy, Clone, Ord, PartialOrd, Eq, PartialEq, Structural)]
pub struct Location {
    pub row: usize,
    pub column: usize,
}

impl Location {
    pub fn new(row: usize, column: usize) -> (r: Location)
        ensures
            r.row == row,
            r.column == column,
    {
        Location { row, column }
    }
}

} // verus!
