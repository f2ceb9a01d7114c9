//! The crate's single source of entropy.
//!
//! Every function that consumes randomness takes the drawn values as
//! arguments, so this wrapper is the only place where fresh entropy enters.

use vstd::prelude::*;

verus! {

/// Relies on `rand::random`: draws one 32-bit value from the thread-local
/// generator. Nothing is promised of the outcome; callers state what holds
/// for every value.
#[verifier::external_body]
pub(crate) fn random_u32() -> u32 {
    rand::random::<u32>()
}

} // verus!
