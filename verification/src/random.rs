//! The engine's only source of chance: the serve.

use vstd::prelude::*;
use rand::Rng;

verus! {

/// Draws a number from the half-open range `lo..hi`.
///
/// Trusted: calls `rand::Rng::gen_range` on the generator that
/// `rand::thread_rng` returns. Which number comes back is not fixed; the
/// contract only says what `gen_range` documents of every draw from a
/// half-open range, namely that it lies in the range. `gen_range` panics on
/// an empty range, so the range must not be empty.
#[verifier::external_body]
pub(crate) fn random_in_range(lo: i64, hi: i64) -> (r: i64)
    requires
        lo < hi,
    ensures
        lo <= r < hi,
{
    rand::thread_rng().gen_range(lo..hi)
}

/// Draws a byte.
///
/// Trusted: calls `rand::random::<u8>`. Nothing is promised of the byte.
#[verifier::external_body]
pub(crate) fn random_byte() -> u8 {
    rand::random::<u8>()
}

} // verus!
