//! Random draws. Nothing is known of a draw beyond its range, so the
//! callers' contracts hold for every value that may come back.
use rand::Rng;
use vstd::prelude::*;

verus! {

/// Relies on `rand::Rng::gen_range(low, high)` on the thread-local generator
/// (rand 0.7): it returns a value in `[low, high)` and panics when
/// `low >= high`.
#[verifier::external_body]
pub(crate) fn rand_below(n: u64) -> (r: u64)
    requires
        n > 0,
    ensures
        r < n,
{
    rand::thread_rng().gen_range(0u64, n)
}

/// Relies on `rand::random::<i64>()`: any 64-bit signed value.
#[verifier::external_body]
pub(crate) fn rand_i64() -> (r: i64) {
    rand::random::<i64>()
}

/// `true` with probability `permille / 1000`.
pub(crate) fn chance(permille: u64) -> (r: bool)
    ensures
        permille == 0 ==> !r,
        permille >= 1000 ==> r,
{
    rand_below(1000) < permille
}

/// `true` or `false`, with equal probability.
pub(crate) fn coin() -> bool {
    rand_below(2) == 0
}

/// A uniformly chosen index below `n`.
pub(crate) fn rand_index(n: usize) -> (r: usize)
    requires
        n > 0,
    ensures
        r < n,
{
    rand_below(n as u64) as usize
}

} // verus!
