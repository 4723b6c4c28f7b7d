use vstd::prelude::*;
use rand::Rng;
use crate::fixed::SCALE;
use crate::vec3::{Vec3, V3, v_mag2};

verus! {

/// A point inside the closed unit ball, in fixed-point.
pub open spec fn in_unit_ball(v: V3) -> bool {
    &&& v.bounded(SCALE as int)
    &&& v_mag2(v) <= SCALE
}

/// Relies on rand::Rng::gen_range over an inclusive integer range: it
/// returns a uniformly sampled value in `[lo, hi]` and panics only on
/// an empty range, which the requires excludes.
#[verifier::external_body]
fn sample_fx(lo: i64, hi: i64) -> (r: i64)
    requires
        lo <= hi,
    ensures
        lo <= r <= hi,
{
    rand::thread_rng().gen_range(lo..=hi)
}

/// A random vector with every component in `[-1, 1]`.
pub fn vec() -> (r: Vec3)
    ensures
        r@.bounded(SCALE as int),
{
    Vec3::new(
        sample_fx(-SCALE, SCALE),
        sample_fx(-SCALE, SCALE),
        sample_fx(-SCALE, SCALE),
    )
}

/// A random point inside the closed unit ball: rejection-samples the
/// surrounding cube. After a fixed number of misses (each miss has
/// probability below one half) it falls back to the ball's center, so
/// termination is unconditional.
pub fn unit_sphere() -> (r: Vec3)
    ensures
        in_unit_ball(r@),
{
    let mut i: usize = 0;
    while i < 64
        invariant
            i <= 64,
        decreases 64 - i,
    {
        let v = vec();
        let m2 = v.magnitude_squared();
        if m2 <= SCALE {
            return v;
        }
        i = i + 1;
    }
    Vec3::new(0, 0, 0)
}

} // verus!
