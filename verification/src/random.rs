//! The one source of chance.

use vstd::prelude::*;

verus! {

/// Draws a whole number from zero up to, and not including, `bound`.
///
/// The number comes from `fastrand::i64` on the range `0..bound`. That
/// function panics on an empty range, which `bound > 0` rules out, and for
/// any other range returns a number of the range. Nothing is claimed of how
/// the numbers are spread.
#[verifier::external_body]
pub(crate) fn draw_below(bound: i64) -> (r: i64)
    requires
        bound > 0,
    ensures
        0 <= r < bound,
{
    fastrand::i64(0..bound)
}

} // verus!
