//! Fresh identifiers and keys, from the system's random source.

use vstd::prelude::*;

verus! {

/// `uuid::Uuid::new_v4` written with `to_string`: a random identifier in the
/// hyphenated form, which is 36 characters long.
#[verifier::external_body]
pub(crate) fn fresh_uuid() -> (r: String)
    ensures
        r@.len() == 36,
{
    uuid::Uuid::new_v4().to_string()
}

/// `rand::Rng::gen` on the thread's generator: one random byte.
#[verifier::external_body]
pub(crate) fn random_byte() -> u8 {
    rand::Rng::gen(&mut rand::thread_rng())
}

} // verus!
