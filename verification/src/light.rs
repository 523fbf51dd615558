//! Area lights: a ray against a square quad.
use vstd::prelude::*;

use crate::hit::{Interval, Record};
use crate::scalar::{in_unit, is_negligible, spec_in_unit, spec_is_negligible};

verus! {

/// What the geometry of a ray and a light's quad gave, each number as its
/// key. The quad has a corner `q` and the sides `u` and `v` from it.
/// `incidence` is the product of the quad's unit normal and the ray's
/// direction, `t` is the ray's parameter where it meets the quad's plane,
/// and `a` and `b` are the coordinates of the meeting point along `u` and
/// along `v`, in units of the side's length.
#[derive(Clone, Copy, Debug, PartialEq, Eq, Structural)]
pub struct QuadSample {
    pub incidence: u64,
    pub t: u64,
    pub a: u64,
    pub b: u64,
}

/// The distance at which the ray meets the quad, for the purpose of the
/// contract of `quad_ray_intersection`.
pub open spec fn quad_crossing(sample: QuadSample, interval: Interval) -> Option<u64> {
    if !spec_is_negligible(sample.incidence) && interval.spec_contains(sample.t) && spec_in_unit(
        sample.a,
    ) && spec_in_unit(sample.b) {
        Some(sample.t)
    } else {
        None
    }
}

/// Decides whether a ray meets a quad within `interval`, and at which
/// distance. It does not where the ray runs parallel to the quad's plane
/// or very nearly, where the meeting point's distance is outside the
/// interval, or where one of its two coordinates is outside the half-open
/// unit interval.
pub fn quad_ray_intersection(sample: QuadSample, interval: Interval) -> (r: Option<u64>)
    ensures
        r == quad_crossing(sample, interval),
{
    if is_negligible(sample.incidence) {
        return None;
    }
    if !interval.contains(sample.t) {
        return None;
    }
    if !in_unit(sample.a) || !in_unit(sample.b) {
        None
    } else {
        Some(sample.t)
    }
}

/// The hit that `hit` gives: the quad's crossing, as a record of the light.
pub open spec fn spec_hit(index: usize, sample: QuadSample, interval: Interval) -> Option<Record> {
    match quad_crossing(sample, interval) {
        Some(t) => Some(Record::Light { light: index, t }),
        None => None,
    }
}

/// The hit of a ray on the light at place `index` among the scene's
/// lights, if it meets the light's quad within `interval`.
pub fn hit(index: usize, sample: QuadSample, interval: Interval) -> (r: Option<Record>)
    ensures
        r == spec_hit(index, sample, interval),
{
    match quad_ray_intersection(sample, interval) {
        Some(t) => Some(Record::Light { light: index, t }),
        None => None,
    }
}

} // verus!
