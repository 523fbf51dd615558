//! What a light path does at the place it has arrived at.
use vstd::prelude::*;

use crate::hit::{admits, distances, is_closest, is_closest_hit, Interval, Record};
use crate::material::Material;
use crate::scalar::{in_unit, spec_in_unit, EPSILON, INFINITY};

verus! {

/// The next move of a path.
#[derive(Clone, Copy, Debug, PartialEq, Eq, Structural)]
pub enum Step {
    /// The ray left the scene: the path ends in the sky gradient for the
    /// ray's direction.
    Sky,
    /// The ray reached a light: the path ends in that light's colour. The
    /// light's power does not scale it.
    Emit { light: usize },
    /// The ray reached a matte face: the path goes on from the hit point in
    /// a scattered direction, with `budget` bounces left after this one,
    /// and what comes back is attenuated by the mesh's material.
    Scatter { mesh: usize, face: usize, t: u64, budget: usize },
    /// The path ends in black: the surface has no transport, or no bounce
    /// is left.
    Absorb,
}

/// The move that `shade` makes.
pub open spec fn step_for(hit: Option<Record>, budget: usize) -> Step {
    match hit {
        None => Step::Sky,
        Some(Record::Light { light, .. }) => Step::Emit { light },
        Some(Record::Object { mesh, face, material, t }) => if material == Material::Diffuse
            && budget > 0 {
            Step::Scatter { mesh, face, t, budget: (budget - 1) as usize }
        } else {
            Step::Absorb
        },
    }
}

/// Decides what a path does with the closest hit of its current ray, when
/// `budget` bounces are still allowed. A path scatters only while its
/// budget is positive, and each bounce takes one from it, so a path of
/// budget `n` ends after at most `n` bounces.
pub fn shade(hit: Option<Record>, budget: usize) -> (r: Step)
    ensures
        r == step_for(hit, budget),
        (r matches Step::Scatter { budget: left, .. } ==> left < budget),
{
    match hit {
        None => Step::Sky,
        Some(Record::Light { light, .. }) => Step::Emit { light },
        Some(Record::Object { mesh, face, material, t }) => match material {
            Material::Diffuse => if budget > 0 {
                Step::Scatter { mesh, face, t, budget: budget - 1 }
            } else {
                Step::Absorb
            },
            Material::Metal => Step::Absorb,
        },
    }
}

/// Whether a point drawn from the cube around the origin is kept as a
/// scattering direction, by the key of its squared length: it is kept
/// where it lies inside the unit sphere, and is drawn again where its
/// squared length is one or more.
pub fn in_unit_sphere(squared_length: u64) -> (r: bool)
    ensures
        r == spec_in_unit(squared_length),
{
    in_unit(squared_length)
}

/// The number of bounces of a path that starts with `budget` and meets, ray
/// after ray, the closest hits `hits`.
pub open spec fn bounces(hits: Seq<Option<Record>>, budget: usize) -> nat
    decreases hits.len(),
{
    if hits.len() == 0 {
        0
    } else {
        match step_for(hits[0], budget) {
            Step::Scatter { budget: left, .. } => 1 + bounces(hits.drop_first(), left),
            _ => 0,
        }
    }
}

/// A path never bounces more often than its budget allows, whatever it
/// meets: tracing ends.
pub proof fn path_ends_within_budget(hits: Seq<Option<Record>>, budget: usize)
    ensures
        bounces(hits, budget) <= budget,
    decreases hits.len(),
{
    if hits.len() > 0 {
        match step_for(hits[0], budget) {
            Step::Scatter { budget: left, .. } => {
                path_ends_within_budget(hits.drop_first(), left);
            },
            _ => {},
        }
    }
}

/// In a scene without lights and without meshes every path ends in the
/// sky at once, whatever its budget.
pub proof fn empty_scene_is_sky(
    lights: Seq<Option<Record>>,
    meshes: Seq<Option<Record>>,
    hit: Option<Record>,
    budget: usize,
)
    requires
        lights.len() == 0,
        meshes.len() == 0,
        is_closest_hit(lights + meshes, hit),
    ensures
        hit is None,
        step_for(hit, budget) == Step::Sky,
{
    if hit is Some {
        let whole = Interval { start: EPSILON, end: INFINITY };
        let hits = lights + meshes;
        let i = choose|i: int| #[trigger] is_closest(distances(hits), whole, i) && hits[i] == hit;
        assert(admits(distances(hits), whole, i));
    }
}

} // verus!
