use vstd::prelude::*;

verus! {

/// The thread-local generator of the `rand` crate, opaque to the verifier:
/// nothing is assumed about any draw beyond its stated range.
#[verifier::external_type_specification]
#[verifier::external_body]
pub struct ExThreadRng(rand::rngs::ThreadRng);

/// Relies on `rand::Rng::gen_range` over the half-open `i64` range
/// `lo..hi`: it returns a value in `[lo, hi)` and panics only when the
/// range is empty, which the precondition rules out.
#[verifier::external_body]
pub(crate) fn rand_in_range(rng: &mut rand::rngs::ThreadRng, lo: i64, hi: i64) -> (r: i64)
    requires
        lo < hi,
    ensures
        lo <= r < hi,
{
    rand::Rng::gen_range(rng, lo..hi)
}

/// Relies on `rand::Rng::gen::<bool>`: an independent coin flip; nothing is
/// assumed about the outcome.
#[verifier::external_body]
pub(crate) fn rand_coin(rng: &mut rand::rngs::ThreadRng) -> bool {
    rand::Rng::gen::<bool>(rng)
}

} // verus!
