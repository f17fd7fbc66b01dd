//! Drawing numbers at random.

use vstd::prelude::*;
use rand::Rng;

verus! {

/// `rand::rngs::StdRng`, the generator that every random choice of the game
/// is drawn from. Nothing is known of what is inside it.
#[verifier::external_type_specification]
#[verifier::external_body]
pub struct ExStdRng(rand::rngs::StdRng);

/// Calls `Rng::gen_range` of the `rand` crate on the range `low..high`.
///
/// Not proved: that the number drawn is in `[low, high)`. The call panics
/// on an empty range, which `requires` leaves out.
#[verifier::external_body]
pub(crate) fn random(low: i64, high: i64, rng: &mut rand::rngs::StdRng) -> (r: i64)
    requires
        low < high,
    ensures
        low <= r < high,
{
    rng.gen_range(low..high)
}

} // verus!
