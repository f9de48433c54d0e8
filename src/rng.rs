use vstd::prelude::*;

verus! {

/// Relies on `rand::Rng::gen_range` with `rand::thread_rng`: a draw from the
/// inclusive range `low..=high`, which lies in that range (it panics only on an
/// empty range, which `requires` leaves out).
#[verifier::external_body]
fn draw_inclusive(low: i32, high: i32) -> (r: i32)
    requires
        low <= high,
    ensures
        low <= r <= high,
{
    rand::Rng::gen_range(&mut rand::thread_rng(), low..=high)
}

/// A uniformly random integer in `[min, max]`.
pub fn random_int(min: i32, max: i32) -> (r: i32)
    requires
        min <= max,
    ensures
        min <= r <= max,
{
    draw_inclusive(min, max)
}

} // verus!
