//! The source of randomness for food placement.

use vstd::prelude::*;

verus! {

/// Calls `rand::random::<u32>()`, which draws from the thread-local
/// generator. Nothing is claimed of the value that comes back: it may be any
/// `u32`, and two calls may differ.
#[verifier::external_body]
pub(crate) fn random_sample() -> (sample: u32) {
    rand::random::<u32>()
}

} // verus!
