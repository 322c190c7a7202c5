//! Random draws for the wire-format example generators.

use vstd::prelude::*;

verus! {

/// Relies on `fastrand::u64`: returns some `u64`; nothing is promised of
/// the value.
#[verifier::external_body]
pub(crate) fn rand_u64() -> u64 {
    fastrand::u64(..)
}

/// Relies on `fastrand::usize`: a draw from `..n` lies below `n`.
#[verifier::external_body]
pub(crate) fn rand_below(n: usize) -> (r: usize)
    requires
        n > 0,
    ensures
        r < n,
{
    fastrand::usize(..n)
}

} // verus!
