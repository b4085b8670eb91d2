use vstd::prelude::*;
use rand::rngs::ThreadRng;
use rand::seq::IndexedRandom;
use rand::Rng;
use crate::block::Axis;

verus! {

/// The thread-local generator of the `rand` crate. Nothing is known of the
/// values it will hand out.
#[verifier::external_type_specification]
#[verifier::external_body]
pub struct ExThreadRng(ThreadRng);

/// Calls `rand::rng`, which hands out a handle to the thread-local
/// generator. Nothing is claimed of it.
#[verifier::external_body]
pub(crate) fn thread_rng() -> ThreadRng {
    rand::rng()
}

/// Calls `Rng::random_range` on the closed range from `low` to `high`. The
/// range must not be empty, or the call panics; the value drawn lies in it.
#[verifier::external_body]
pub(crate) fn random_range(rng: &mut ThreadRng, low: i32, high: i32) -> (r: i32)
    requires
        low <= high,
    ensures
        low <= r <= high,
{
    rng.random_range(low..=high)
}

/// Calls `Rng::random_ratio`, which returns `true` with a chance of
/// `numerator` in `denominator`. The call panics on a zero denominator or a
/// numerator above it; a chance of 0 gives `false` and a chance of 1 `true`.
#[verifier::external_body]
pub(crate) fn random_ratio(rng: &mut ThreadRng, numerator: u32, denominator: u32) -> (r: bool)
    requires
        0 < denominator,
        numerator <= denominator,
    ensures
        numerator == 0 ==> !r,
        numerator == denominator ==> r,
{
    rng.random_ratio(numerator, denominator)
}

/// Calls `IndexedRandom::choose` on a slice of axes: `None` for an empty
/// slice, else one of its elements.
#[verifier::external_body]
pub(crate) fn choose_axis(rng: &mut ThreadRng, axes: &[Axis]) -> (r: Option<Axis>)
    ensures
        axes@.len() == 0 ==> r is None,
        axes@.len() > 0 ==> r is Some && axes@.contains(r->0),
{
    axes.choose(rng).copied()
}

} // verus!
