//! Values that the library carries through without reading them.

use vstd::prelude::*;

verus! {

/// Refers to a value that the library carries through without reading it: its place in a table
/// that the caller keeps.
#[derive(Clone, Copy, Debug, PartialEq, Eq)]
pub struct Payload {
    pub handle: u64,
}

} // verus!
