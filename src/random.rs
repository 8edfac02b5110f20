use rand::Rng;
use vstd::prelude::*;

verus! {

/// Relies on `rand::thread_rng` and `Rng::gen_range` over `0..=255`: a byte
/// from the thread-local generator. The range is never empty, so the call
/// does not panic; nothing is known of the value.
#[verifier::external_body]
pub(crate) fn random_byte() -> (r: u8) {
    rand::thread_rng().gen_range(0..=255)
}

} // verus!
