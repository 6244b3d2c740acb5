//! The one source of randomness: a bounded draw from the thread-local
//! generator. Callers treat the draw as an arbitrary value below the bound;
//! every decision made from it happens in verified code.

use vstd::prelude::*;

verus! {

/// Relies on `rand`: `random_range(0..n)` on the generator returned by
/// `rand::rng()` yields a value uniformly distributed in `0..n`. The call
/// panics on an empty range, which the precondition rules out; `rand::rng()`
/// itself can also fail if the operating system's random source is
/// unavailable at first seeding, an environmental fault of the same class as
/// an allocation failure.
#[verifier::external_body]
pub(crate) fn rand_below(n: u64) -> (r: u64)
    requires
        1 <= n,
    ensures
        r < n,
{
    rand::RngExt::random_range(&mut rand::rng(), 0..n)
}

} // verus!
