//! Random draws for spawn placement, behind trusted wrappers.

use vstd::prelude::*;

verus! {

use rand::Rng;

/// Relies on `rand::Rng::gen_range` over `rand::thread_rng`: a draw from
/// `lo..hi` lies in that half-open range; the call panics only on an
/// empty range, which the precondition rules out.
#[verifier::external_body]
pub(crate) fn random_in_range(lo: i64, hi: i64) -> (r: i64)
    requires
        lo < hi,
    ensures
        lo <= r < hi,
{
    rand::thread_rng().gen_range(lo..hi)
}

/// Relies on `rand::Rng::gen::<bool>` over `rand::thread_rng`: a draw of
/// one of the two boolean values.  Nothing is promised of the outcome.
#[verifier::external_body]
pub(crate) fn random_bool() -> bool {
    rand::thread_rng().gen()
}

} // verus!
