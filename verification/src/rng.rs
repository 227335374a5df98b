//! The library's only source of randomness, used when the initial body
//! population is spawned.

use vstd::prelude::*;

verus! {

/// Relies on rand::Rng::gen_range on rand::thread_rng: a sample from a
/// non-empty half-open range lies in that range. Nothing more is
/// assumed of the value: every caller is verified for every outcome.
#[verifier::external_body]
pub fn random_in_range(lo: i64, hi: i64) -> (r: i64)
    requires
        lo < hi,
    ensures
        lo <= r < hi,
{
    rand::Rng::gen_range(&mut rand::thread_rng(), lo..hi)
}

} // verus!
