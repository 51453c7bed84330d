//! Source of randomness for weight initialization and mutation.
use vstd::prelude::*;

use rand::Rng;

verus! {

/// Relies on rand's `Rng::gen_range` (via `thread_rng`) on a half-open
/// `i64` range: it panics only on an empty range and returns a value of the
/// range. Nothing more is assumed of the draw.
#[verifier::external_body]
pub(crate) fn rand_in_range(lo: i64, hi: i64) -> (r: i64)
    requires
        lo < hi,
    ensures
        lo <= r < hi,
{
    rand::thread_rng().gen_range(lo..hi)
}

} // verus!
