//! Resolving a scene document into a scene.
//!
//! The objects of a document refer to meshes and materials by name. Loading
//! resolves every name once, into the index of the entry it stands for, and
//! refuses a document that cannot be rendered as written, so that tracing
//! never meets a missing entry, a material without behaviour, or a face
//! that points outside its mesh.
use vstd::prelude::*;

use crate::camera::{valid_projection, Camera};
use crate::hit::{closest_hit, is_closest_hit, Interval, Record};
use crate::light::QuadSample;
use crate::material::Material;
use crate::mesh::{checked_faces, faces_in_bounds, FaceSample, Mesh};
use crate::scalar::{EPSILON, INFINITY};
use crate::serialize;

verus! {

/// Why a scene document cannot be rendered.
#[derive(Clone, Copy, Debug, PartialEq, Eq, Structural)]
pub enum SceneError {
    /// The document is malformed: a face of a mesh in use names a vertex
    /// that the mesh does not have, or the camera's perspective is not
    /// usable.
    SceneParseError,
    /// An object names a mesh or a material that the document lacks.
    ReferenceNotFound,
    /// An object uses a material that has no transport behaviour.
    UnsupportedMaterial,
}

/// A scene ready to be traced: one mesh for each object of the document, in
/// the document's order, the number of its lights, and its camera.
#[derive(Clone, Debug)]
pub struct Scene {
    pub meshes: Vec<Mesh>,
    pub camera: Camera,
    pub light_count: usize,
}

/// The names of a table, entry by entry.
pub open spec fn names<T>(table: Seq<(String, T)>) -> Seq<Seq<char>> {
    Seq::new(table.len(), |k: int| table[k].0@)
}

/// Entry `k` is the one that `name` stands for: the first of that name.
pub open spec fn is_entry(names: Seq<Seq<char>>, name: Seq<char>, k: int) -> bool {
    &&& 0 <= k < names.len()
    &&& names[k] == name
    &&& forall|j: int| 0 <= j < k ==> names[j] != name
}

/// Some entry has the name.
pub open spec fn has_entry(names: Seq<Seq<char>>, name: Seq<char>) -> bool {
    exists|k: int| is_entry(names, name, k)
}

/// The entry that `name` stands for, where there is one.
pub open spec fn entry_of(names: Seq<Seq<char>>, name: Seq<char>) -> int {
    choose|k: int| is_entry(names, name, k)
}

/// A name stands for one entry only.
pub proof fn entry_is_unique(names: Seq<Seq<char>>, name: Seq<char>, k: int)
    requires
        is_entry(names, name, k),
    ensures
        has_entry(names, name),
        entry_of(names, name) == k,
{
    let chosen = entry_of(names, name);
    assert(is_entry(names, name, chosen));
    if chosen < k {
        assert(names[chosen] == name);
    } else if k < chosen {
        assert(names[k] == name);
    }
}

/// Looks a name up in a table: the index of the first entry of that name,
/// or `None` where no entry has it.
pub fn find_entry<T>(table: &Vec<(String, T)>, name: &String) -> (r: Option<usize>)
    ensures
        match r {
            Some(k) => is_entry(names(table@), name@, k as int),
            None => !has_entry(names(table@), name@),
        },
{
    let mut k: usize = 0;
    while k < table.len()
        invariant
            k <= table.len(),
            forall|j: int| 0 <= j < k ==> names(table@)[j] != name@,
        decreases table.len() - k,
    {
        if table[k].0 == *name {
            return Some(k);
        }
        k += 1;
    }
    proof {
        assert forall|j: int| !is_entry(names(table@), name@, j) by {
            if 0 <= j < table.len() {
                assert(names(table@)[j] != name@);
            }
        }
    }
    None
}

/// The mesh entry that object `i` refers to.
pub open spec fn mesh_entry(doc: &serialize::Scene, i: int) -> int {
    entry_of(names(doc.meshes@), doc.objects@[i].mesh@)
}

/// The material entry that object `i` refers to.
pub open spec fn material_entry(doc: &serialize::Scene, i: int) -> int {
    entry_of(names(doc.materials@), doc.objects@[i].material@)
}

/// Object `i` names a mesh or a material that the document lacks.
pub open spec fn dangling_at(doc: &serialize::Scene, i: int) -> bool {
    &&& 0 <= i < doc.objects.len()
    &&& !(has_entry(names(doc.meshes@), doc.objects@[i].mesh@) && has_entry(
        names(doc.materials@),
        doc.objects@[i].material@,
    ))
}

/// Object `i` refers to a material without a runtime behaviour.
pub open spec fn unsupported_at(doc: &serialize::Scene, i: int) -> bool {
    &&& 0 <= i < doc.objects.len()
    &&& !dangling_at(doc, i)
    &&& Material::resolve(doc.materials@[material_entry(doc, i)].1) is None
}

/// Object `i` refers to a mesh with a face outside its vertices.
pub open spec fn malformed_at(doc: &serialize::Scene, i: int) -> bool {
    &&& 0 <= i < doc.objects.len()
    &&& !dangling_at(doc, i)
    &&& !faces_in_bounds(
        doc.meshes@[mesh_entry(doc, i)].1.faces@,
        doc.meshes@[mesh_entry(doc, i)].1.vert_count,
    )
}

/// The error that loading the document gives, or `None` where it loads. A
/// missing reference anywhere comes before an unsupported material
/// anywhere, and that before a malformed mesh or camera.
pub open spec fn failure(doc: &serialize::Scene) -> Option<SceneError> {
    if exists|i: int| dangling_at(doc, i) {
        Some(SceneError::ReferenceNotFound)
    } else if exists|i: int| unsupported_at(doc, i) {
        Some(SceneError::UnsupportedMaterial)
    } else if (exists|i: int| malformed_at(doc, i)) || !valid_projection(doc.camera) {
        Some(SceneError::SceneParseError)
    } else {
        None
    }
}

/// The camera that the document's camera loads as.
pub open spec fn camera_of(camera: serialize::Camera) -> Result<Camera, SceneError> {
    if valid_projection(camera) {
        Ok(
            Camera {
                fov: camera.fov,
                znear: camera.znear,
                zfar: camera.zfar,
                aspect_ratio: camera.aspect_ratio,
            },
        )
    } else {
        Err(SceneError::SceneParseError)
    }
}

/// `mesh` is what object `i` of the document resolves to.
pub open spec fn resolves_to(doc: &serialize::Scene, i: int, mesh: Mesh) -> bool {
    &&& mesh.mesh_entry == mesh_entry(doc, i)
    &&& mesh.material_entry == material_entry(doc, i)
    &&& Material::resolve(doc.materials@[material_entry(doc, i)].1) == Some(mesh.material)
    &&& mesh.vert_count == doc.meshes@[mesh_entry(doc, i)].1.vert_count
    &&& mesh.faces@ == doc.meshes@[mesh_entry(doc, i)].1.faces@
}

/// What a ray hits on each light, from `EPSILON` up to, and without,
/// `INFINITY`, given what its geometry gave on each light's quad.
pub open spec fn light_hits(lights: Seq<QuadSample>) -> Seq<Option<Record>> {
    Seq::new(
        lights.len(),
        |i: int|
            crate::light::spec_hit(
                i as usize,
                lights[i],
                Interval { start: EPSILON, end: INFINITY },
            ),
    )
}

/// What a ray hits on each mesh, in the same range, given what its
/// geometry gave on the faces of each mesh. Meshes and lists of samples go
/// in pairs: what is left over of the longer of the two takes no part.
pub open spec fn mesh_hits(meshes: Seq<Mesh>, samples: Seq<Vec<FaceSample>>) -> Seq<
    Option<Record>,
> {
    Seq::new(
        if meshes.len() <= samples.len() {
            meshes.len()
        } else {
            samples.len()
        },
        |i: int|
            meshes[i].spec_hit(i as usize, samples[i]@, Interval { start: EPSILON, end: INFINITY }),
    )
}

impl Scene {
    /// The closest hit of a ray in the scene: of all that it hits on the
    /// lights and on the meshes, the first record with the smallest
    /// distance, lights before meshes. `lights` holds what the ray's
    /// geometry gave on each light's quad, and `meshes` what it gave on the
    /// faces of each mesh.
    pub fn closest_hit(&self, lights: &Vec<QuadSample>, meshes: &Vec<Vec<FaceSample>>) -> (r:
        Option<Record>)
        ensures
            is_closest_hit(light_hits(lights@) + mesh_hits(self.meshes@, meshes@), r),
    {
        let mut on_lights: Vec<Option<Record>> = Vec::new();
        let mut i: usize = 0;
        while i < lights.len()
            invariant
                i <= lights.len(),
                on_lights@ == light_hits(lights@).take(i as int),
            decreases lights.len() - i,
        {
            on_lights.push(crate::light::hit(i, lights[i], Interval::positive()));
            proof {
                assert(on_lights@ =~= light_hits(lights@).take(i + 1));
            }
            i += 1;
        }
        let count: usize = if self.meshes.len() <= meshes.len() {
            self.meshes.len()
        } else {
            meshes.len()
        };
        let mut on_meshes: Vec<Option<Record>> = Vec::new();
        let mut i: usize = 0;
        while i < count
            invariant
                i <= count,
                count == mesh_hits(self.meshes@, meshes@).len(),
                count <= self.meshes.len(),
                count <= meshes.len(),
                on_meshes@ == mesh_hits(self.meshes@, meshes@).take(i as int),
            decreases count - i,
        {
            on_meshes.push(self.meshes[i].hit(i, &meshes[i], Interval::positive()));
            proof {
                assert(on_meshes@ =~= mesh_hits(self.meshes@, meshes@).take(i + 1));
            }
            i += 1;
        }
        proof {
            assert(on_lights@ =~= light_hits(lights@));
            assert(on_meshes@ =~= mesh_hits(self.meshes@, meshes@));
        }
        closest_hit(&on_lights, &on_meshes)
    }

    /// The invariant of a scene: each mesh's faces name vertices it has,
    /// and the camera's perspective is usable.
    pub open spec fn wf(&self) -> bool {
        &&& self.camera.wf()
        &&& forall|i: int| 0 <= i < self.meshes.len() ==> (#[trigger] self.meshes@[i]).wf()
    }

    /// Loads a scene from its document. Every object becomes a mesh with
    /// the faces of the mesh entry and the material of the material entry
    /// that it names. The document is refused with `ReferenceNotFound`
    /// where an object names an entry that is missing, else with
    /// `UnsupportedMaterial` where an object's material is glass, else with
    /// `SceneParseError` where a face of an object's mesh names a vertex
    /// that the mesh does not have or the camera's perspective is not
    /// usable.
    pub fn from_deserialized(doc: &serialize::Scene) -> (r: Result<Scene, SceneError>)
        ensures
            match r {
                Ok(scene) => {
                    &&& failure(doc) is None
                    &&& scene.wf()
                    &&& scene.light_count == doc.light_count
                    &&& camera_of(doc.camera) matches Ok(camera) && camera == scene.camera
                    &&& scene.meshes.len() == doc.objects.len()
                    &&& forall|i: int|
                        0 <= i < doc.objects.len() ==> resolves_to(
                            doc,
                            i,
                            #[trigger] scene.meshes@[i],
                        )
                },
                Err(e) => failure(doc) == Some(e),
            },
    {
        let count: usize = doc.objects.len();
        let mut entries: Vec<(usize, usize)> = Vec::new();
        let mut i: usize = 0;
        while i < count
            invariant
                count == doc.objects.len(),
                i <= count,
                entries.len() == i,
                forall|j: int|
                    0 <= j < i ==> is_entry(
                        names(doc.meshes@),
                        doc.objects@[j].mesh@,
                        (#[trigger] entries@[j]).0 as int,
                    ) && is_entry(
                        names(doc.materials@),
                        doc.objects@[j].material@,
                        entries@[j].1 as int,
                    ),
            decreases count - i,
        {
            let object = &doc.objects[i];
            let mesh = find_entry(&doc.meshes, &object.mesh);
            let material = find_entry(&doc.materials, &object.material);
            match (mesh, material) {
                (Some(m), Some(t)) => {
                    entries.push((m, t));
                },
                _ => {
                    proof {
                        assert(dangling_at(doc, i as int));
                    }
                    return Err(SceneError::ReferenceNotFound);
                },
            }
            i += 1;
        }
        proof {
            assert forall|j: int| 0 <= j < count implies has_entry(
                names(doc.meshes@),
                doc.objects@[j].mesh@,
            ) && has_entry(names(doc.materials@), doc.objects@[j].material@) && (
            #[trigger] entries@[j]).0 == mesh_entry(doc, j) && entries@[j].1 == material_entry(
                doc,
                j,
            ) by {
                entry_is_unique(names(doc.meshes@), doc.objects@[j].mesh@, entries@[j].0 as int);
                entry_is_unique(
                    names(doc.materials@),
                    doc.objects@[j].material@,
                    entries@[j].1 as int,
                );
            }
            assert forall|j: int| !dangling_at(doc, j) by {
                if 0 <= j < count {
                    assert(entries@[j].0 == mesh_entry(doc, j));
                }
            }
        }
        let mut kinds: Vec<Material> = Vec::new();
        let mut i: usize = 0;
        while i < count
            invariant
                count == doc.objects.len(),
                i <= count,
                entries.len() == count,
                kinds.len() == i,
                forall|j: int| !dangling_at(doc, j),
                forall|j: int|
                    0 <= j < count ==> (#[trigger] entries@[j]).0
                        == mesh_entry(doc, j) && entries@[j].1 == material_entry(doc, j)
                        && entries@[j].0 < doc.meshes.len() && entries@[j].1 < doc.materials.len(),
                forall|j: int|
                    0 <= j < i ==> Material::resolve(doc.materials@[material_entry(doc, j)].1)
                        == Some(#[trigger] kinds@[j]),
            decreases count - i,
        {
            let entry = entries[i];
            match Material::from_deserialized(doc.materials[entry.1].1) {
                Ok(kind) => {
                    kinds.push(kind);
                },
                Err(e) => {
                    proof {
                        assert(unsupported_at(doc, i as int));
                    }
                    return Err(e);
                },
            }
            i += 1;
        }
        proof {
            assert forall|j: int| !unsupported_at(doc, j) by {
                if 0 <= j < count {
                    assert(Material::resolve(doc.materials@[material_entry(doc, j)].1) == Some(
                        kinds@[j],
                    ));
                }
            }
        }
        let mut meshes: Vec<Mesh> = Vec::new();
        let mut i: usize = 0;
        while i < count
            invariant
                count == doc.objects.len(),
                i <= count,
                entries.len() == count,
                kinds.len() == count,
                meshes.len() == i,
                forall|j: int| !unsupported_at(doc, j),
                forall|j: int| !dangling_at(doc, j),
                forall|j: int|
                    0 <= j < count ==> (#[trigger] entries@[j]).0
                        == mesh_entry(doc, j) && entries@[j].1 == material_entry(doc, j)
                        && entries@[j].0 < doc.meshes.len() && entries@[j].1 < doc.materials.len(),
                forall|j: int|
                    0 <= j < count ==> Material::resolve(doc.materials@[material_entry(doc, j)].1)
                        == Some(#[trigger] kinds@[j]),
                forall|j: int|
                    0 <= j < i ==> resolves_to(doc, j, #[trigger] meshes@[j]) && meshes@[j].wf(),
            decreases count - i,
        {
            let entry = entries[i];
            let source = &doc.meshes[entry.0].1;
            match checked_faces(&source.faces, source.vert_count) {
                Some(faces) => {
                    meshes.push(
                        Mesh {
                            vert_count: source.vert_count,
                            faces,
                            material: kinds[i],
                            mesh_entry: entry.0,
                            material_entry: entry.1,
                        },
                    );
                },
                None => {
                    proof {
                        assert(malformed_at(doc, i as int));
                    }
                    return Err(SceneError::SceneParseError);
                },
            }
            i += 1;
        }
        proof {
            assert forall|j: int| !malformed_at(doc, j) by {
                if 0 <= j < count {
                    assert(resolves_to(doc, j, meshes@[j]) && meshes@[j].wf());
                }
            }
        }
        match Camera::from_deserialized(&doc.camera) {
            Ok(camera) => Ok(Scene { meshes, camera, light_count: doc.light_count }),
            Err(e) => Err(e),
        }
    }
}

/// A reference to a mesh that the document lacks is always reported as
/// such, whatever else is wrong with the document.
pub proof fn absent_mesh_is_reported(doc: &serialize::Scene, i: int)
    requires
        0 <= i < doc.objects.len(),
        !has_entry(names(doc.meshes@), doc.objects@[i].mesh@),
    ensures
        failure(doc) == Some(SceneError::ReferenceNotFound),
{
    assert(dangling_at(doc, i));
}

/// A reference to a material that the document lacks is always reported as
/// such, whatever else is wrong with the document.
pub proof fn absent_material_is_reported(doc: &serialize::Scene, i: int)
    requires
        0 <= i < doc.objects.len(),
        !has_entry(names(doc.materials@), doc.objects@[i].material@),
    ensures
        failure(doc) == Some(SceneError::ReferenceNotFound),
{
    assert(dangling_at(doc, i));
}

} // verus!
