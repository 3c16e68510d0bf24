//! Values that the host and the guest exchange in tests.
use vstd::prelude::*;

verus! {

/// A custom value, passed across the boundary serialized.
#[derive(Debug, PartialEq)]
pub struct Custom {
    pub a: u64,
    pub str: String,
}

} // verus!
