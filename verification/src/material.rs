//! Surface materials as the integrator tells them apart.
use vstd::prelude::*;

verus! {

/// The transport model of a surface. The numeric parameters of a material
/// (its colour, the share of energy it keeps) stay with the caller, found
/// again through the mesh that a hit names.
#[derive(Clone, Copy, Debug, PartialEq, Eq, Structural)]
pub enum Material {
    /// A matte surface: a path that arrives here is scattered.
    Diffuse,
    /// A metallic surface. It has no transport of its own: a path that
    /// arrives here ends in black.
    Metal,
}

impl Material {
    /// The runtime material for a material of the scene document.
    pub open spec fn resolve(material: crate::serialize::Material) -> Option<Material> {
        match material {
            crate::serialize::Material::Diffuse => Some(Material::Diffuse),
            crate::serialize::Material::Metal => Some(Material::Metal),
            crate::serialize::Material::Glass => None,
        }
    }

    /// Turns a material of the scene document into a runtime material.
    /// Glass has no runtime behaviour and is refused.
    pub fn from_deserialized(material: crate::serialize::Material) -> (r: Result<
        Material,
        crate::scene::SceneError,
    >)
        ensures
            match r {
                Ok(m) => Material::resolve(material) == Some(m),
                Err(e) => Material::resolve(material) is None
                    && e == crate::scene::SceneError::UnsupportedMaterial,
            },
    {
        match material {
            crate::serialize::Material::Diffuse => Ok(Material::Diffuse),
            crate::serialize::Material::Metal => Ok(Material::Metal),
            crate::serialize::Material::Glass => Err(
                crate::scene::SceneError::UnsupportedMaterial,
            ),
        }
    }
}

} // verus!
