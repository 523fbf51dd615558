//! Triangle meshes and the closest face that a ray crosses.
use vstd::prelude::*;

use crate::hit::{closest, closest_of, Interval, Record};
use crate::material::Material;
use crate::scalar::{is_negative, is_negligible, spec_is_negative, spec_is_negligible};

verus! {

/// A mesh of the scene: its faces over `vert_count` vertices, its material,
/// and the entries of the document's tables that it was resolved from.
#[derive(Clone, Debug)]
pub struct Mesh {
    pub vert_count: usize,
    pub faces: Vec<[usize; 3]>,
    pub material: Material,
    pub mesh_entry: usize,
    pub material_entry: usize,
}

/// What the geometry of a ray and one triangle gave, each number as its
/// key. With `n` the normal of the triangle's plane: `incidence` is the
/// product of `n` and the ray's direction, `t` is the ray's parameter where
/// it meets the plane, and `edges` holds, for each edge of the triangle in
/// turn, the product of `n` with the cross product of the edge and the line
/// from the edge's first vertex to the meeting point.
#[derive(Clone, Copy, Debug)]
pub struct FaceSample {
    pub incidence: u64,
    pub t: u64,
    pub edges: [u64; 3],
}

impl FaceSample {
    /// The ray runs parallel to the triangle's plane, or very nearly.
    pub open spec fn parallel(&self) -> bool {
        spec_is_negligible(self.incidence)
    }

    /// The meeting point lies on the inner side of all three edges: none of
    /// the three products is below zero. Their sum is the squared length of
    /// the normal, so they cannot all be below zero, and they agree in sign
    /// exactly where none of them is.
    pub open spec fn inside(&self) -> bool {
        !spec_is_negative(self.edges[0]) && !spec_is_negative(self.edges[1]) && !spec_is_negative(
            self.edges[2],
        )
    }

    pub open spec fn spec_crossing(&self) -> Option<u64> {
        if !self.parallel() && self.inside() {
            Some(self.t)
        } else {
            None
        }
    }

    /// The distance at which the ray crosses the triangle: `None` where it
    /// runs parallel to the plane, or meets the plane outside the triangle.
    /// A triangle without area has a zero normal and is never crossed.
    #[verifier::when_used_as_spec(spec_crossing)]
    pub fn crossing(&self) -> (r: Option<u64>)
        ensures
            r == self.spec_crossing(),
    {
        if is_negligible(self.incidence) {
            return None;
        }
        if is_negative(self.edges[0]) || is_negative(self.edges[1]) || is_negative(
            self.edges[2],
        ) {
            return None;
        }
        Some(self.t)
    }
}

/// The crossing of each face, in the faces' order.
pub open spec fn crossings(samples: Seq<FaceSample>) -> Seq<Option<u64>> {
    Seq::new(samples.len(), |k: int| samples[k].spec_crossing())
}

/// Every corner of every face is a vertex index below `vert_count`.
pub open spec fn faces_in_bounds(faces: Seq<[usize; 3]>, vert_count: usize) -> bool {
    forall|f: int, c: int|
        0 <= f < faces.len() && 0 <= c < 3 ==> (#[trigger] faces[f][c]) < vert_count
}

/// Copies the faces of a mesh, provided each of them names three vertices
/// that exist: `None` as soon as one corner is `vert_count` or more.
pub fn checked_faces(faces: &Vec<[usize; 3]>, vert_count: usize) -> (r: Option<Vec<[usize; 3]>>)
    ensures
        match r {
            Some(copy) => copy@ == faces@ && faces_in_bounds(faces@, vert_count),
            None => !faces_in_bounds(faces@, vert_count),
        },
{
    let mut copy: Vec<[usize; 3]> = Vec::new();
    let mut i: usize = 0;
    while i < faces.len()
        invariant
            i <= faces.len(),
            copy@ == faces@.take(i as int),
            faces_in_bounds(faces@.take(i as int), vert_count),
        decreases faces.len() - i,
    {
        let face: [usize; 3] = faces[i];
        if !(face[0] < vert_count && face[1] < vert_count && face[2] < vert_count) {
            proof {
                if faces_in_bounds(faces@, vert_count) {
                    assert(faces@[i as int][0] < vert_count);
                    assert(faces@[i as int][1] < vert_count);
                    assert(faces@[i as int][2] < vert_count);
                }
            }
            return None;
        }
        copy.push(face);
        proof {
            let next = faces@.take(i + 1);
            assert(copy@ =~= next);
            assert forall|f: int, c: int| 0 <= f < next.len() && 0 <= c < 3 implies (
            #[trigger] next[f][c]) < vert_count by {
                if f < i {
                    assert(faces@.take(i as int)[f][c] < vert_count);
                }
            }
        }
        i += 1;
    }
    proof {
        assert(faces@.take(i as int) =~= faces@);
    }
    Some(copy)
}

impl Mesh {
    /// The invariant of a mesh: its faces name vertices that it has.
    pub open spec fn wf(&self) -> bool {
        faces_in_bounds(self.faces@, self.vert_count)
    }

    /// The hit that `hit` gives: the closest crossing, as a record of this
    /// mesh.
    pub open spec fn spec_hit(
        &self,
        index: usize,
        samples: Seq<FaceSample>,
        interval: Interval,
    ) -> Option<Record> {
        match closest_of(crossings(samples), interval) {
            Some((face, t)) => Some(
                Record::Object { mesh: index, face, material: self.material, t },
            ),
            None => None,
        }
    }

    /// The closest face that a ray crosses. `samples` holds, face by face,
    /// what the ray's geometry gave, and `index` is the mesh's place in the
    /// scene. The hit is the first face with the smallest distance in
    /// `interval` among the faces that the ray crosses, with the mesh's
    /// material. A later face at the same distance does not replace it.
    pub fn hit(&self, index: usize, samples: &Vec<FaceSample>, interval: Interval) -> (r: Option<
        Record,
    >)
        ensures
            r == self.spec_hit(index, samples@, interval),
    {
        let mut ts: Vec<Option<u64>> = Vec::new();
        let mut k: usize = 0;
        while k < samples.len()
            invariant
                k <= samples.len(),
                ts@ == crossings(samples@).take(k as int),
            decreases samples.len() - k,
        {
            ts.push(samples[k].crossing());
            proof {
                assert(ts@ =~= crossings(samples@).take(k + 1));
            }
            k += 1;
        }
        proof {
            assert(ts@ =~= crossings(samples@));
        }
        match closest(&ts, interval) {
            Some((face, t)) => Some(
                Record::Object { mesh: index, face, material: self.material, t },
            ),
            None => None,
        }
    }
}

} // verus!
