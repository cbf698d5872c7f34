//! The error taxonomy of the store core.

use vstd::prelude::*;

verus! {

/// Errors surfaced by the store core.
#[derive(Debug, PartialEq)]
pub enum StoreError {
    /// The backing engine failed an operation; holds its message.
    Query(String),
    /// A stored value has no JSON mapping; holds a description of its type.
    InvalidData(String),
    /// A write was attempted while writes are disabled; holds the reason.
    Permission(String),
}

} // verus!
