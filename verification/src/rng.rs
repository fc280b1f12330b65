//! Randomness as an explicit capability
//!
//! Every probabilistic operation of the library takes a generator argument
//! instead of reaching for ambient randomness, so callers control the stream
//! and tests can seed it.

use vstd::prelude::*;

verus! {

/// rand's standard generator, declared so it can cross the library's
/// signatures. It is opaque to the contracts: nothing is assumed of the
/// values it yields beyond each draw's stated range.
#[verifier::external_type_specification]
#[verifier::external_body]
pub struct ExStdRng(rand::rngs::StdRng);

/// Relies on rand's `Rng::random_range` over `0..n`: the draw lies below
/// `n`, uniformly; the call panics only on an empty range, which `n >= 1`
/// rules out. Nothing more is assumed: the value depends on the generator's
/// state.
#[verifier::external_body]
pub(crate) fn draw_below(rng: &mut rand::rngs::StdRng, n: u32) -> (r: u32)
    requires
        1 <= n,
    ensures
        r < n,
{
    rand::Rng::random_range(rng, 0..n)
}

} // verus!
