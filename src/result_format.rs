//! The formats in which query results are rendered.
use vstd::prelude::*;

verus! {

/// How query results are rendered.
#[derive(Clone, Copy, Debug, PartialEq, Eq, Structural)]
pub enum ResultFormat {
    /// A text table with a header row.
    Table,
    /// A JSON array with one object per row.
    Json,
}

} // verus!
