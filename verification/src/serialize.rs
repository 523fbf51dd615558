//! The scene document, as far as resolving it goes.
//!
//! A document names its meshes and materials, and its objects refer to them
//! by name. The numeric payload of the document (positions, transforms,
//! colours, the camera) is not read when names are resolved and stays with
//! the caller, who finds it again by the indices in the resolved scene.
use vstd::prelude::*;

verus! {

/// A material of the document, by its tag.
#[derive(Clone, Copy, Debug, PartialEq, Eq, Structural)]
pub enum Material {
    Diffuse,
    Metal,
    Glass,
}

/// The camera of the document: the four numbers of its perspective, each
/// as its key. Its placement in the world is not read here.
#[derive(Clone, Copy, Debug, PartialEq, Eq, Structural)]
pub struct Camera {
    pub fov: u64,
    pub zfar: u64,
    pub znear: u64,
    pub aspect_ratio: u64,
}

/// A triangle mesh of the document: how many vertices it has, and its
/// faces as triples of vertex indices.
#[derive(Clone, Debug)]
pub struct Mesh {
    pub vert_count: usize,
    pub faces: Vec<[usize; 3]>,
}

/// An object of the document: a mesh and a material, each by name.
#[derive(Clone, Debug)]
pub struct Object {
    pub mesh: String,
    pub material: String,
}

/// A scene document. Meshes and materials are tables of named entries; a
/// name is looked up from the front, so the first entry of a name is the
/// one that counts.
#[derive(Clone, Debug)]
pub struct Scene {
    pub camera: Camera,
    pub light_count: usize,
    pub meshes: Vec<(String, Mesh)>,
    pub materials: Vec<(String, Material)>,
    pub objects: Vec<Object>,
}

} // verus!
