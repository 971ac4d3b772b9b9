use vstd::prelude::*;

verus! {

/// Returned when a descriptor mutation would let the data region leave its chunk.
#[derive(Debug, PartialEq, Eq, Structural)]
pub struct ExceedsChunkSize;

impl ExceedsChunkSize {
    /// Human-readable description, in place of a `Display` implementation.
    pub fn message(&self) -> String {
        "Length and offset combined exceed chunk size.".to_owned()
    }
}

} // verus!
