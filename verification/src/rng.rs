//! The library's single source of randomness, taken on trust.

use rand::Rng;
use vstd::prelude::*;

verus! {

/// Relies on `rand::Rng::gen_range` over the range `0..n`: it returns a
/// uniformly distributed integer below `n`, and panics only on an empty
/// range, which the precondition rules out.  Nothing more is assumed of
/// the value: every caller must be correct for every integer below `n`.
#[verifier::external_body]
pub(crate) fn random_below(n: u32) -> (r: u32)
    requires
        n >= 1,
    ensures
        r < n,
{
    rand::thread_rng().gen_range(0..n)
}

} // verus!
