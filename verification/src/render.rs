use vstd::prelude::*;
use crate::scalar::CfdScalar;

verus! {

/// The hue a heatmap cell gets from its temperature: `240·(1 − t)`
/// degrees, so full heat maps to red (hue 0) and none to blue (hue 240).
/// The colour-bar legend samples the same ramp from zero to one.
pub open spec fn hue_spec<T: CfdScalar>(t: T) -> T {
    T::mul_spec(T::from_usize_spec(240), T::sub_spec(T::one_spec(), t))
}

/// Computes the heatmap hue of one temperature sample.
pub fn temperature_hue<T: CfdScalar>(t: T) -> (h: T)
    ensures
        h == hue_spec(t),
{
    T::mul(T::from_usize(240), T::sub(T::one(), t))
}

} // verus!
