//! The answer to a settle request.
use crate::grid::Cell;
use vstd::prelude::*;

verus! {

/// A settled screen, or the error that ended the session before it settled.
pub struct Reply {
    pub lines: Vec<Vec<Cell>>,
    pub error: Option<String>,
}

impl Reply {
    /// A reply carrying a captured screen and no error.
    pub fn settled(lines: Vec<Vec<Cell>>) -> (r: Self)
        ensures
            r.lines == lines,
            r.error is None,
    {
        Reply { lines, error: None }
    }
}

} // verus!
