//! The camera's perspective and its validity.
use vstd::prelude::*;

use crate::scalar::{lt, spec_lt};
use crate::scene::SceneError;
use crate::serialize;

verus! {

/// A perspective that rays can be cast through: the field of view, the
/// near and the far plane and the aspect ratio, each as its key.
#[derive(Clone, Copy, Debug, PartialEq, Eq, Structural)]
pub struct Camera {
    pub fov: u64,
    pub znear: u64,
    pub zfar: u64,
    pub aspect_ratio: u64,
}

/// The perspective is usable: the field of view is above zero and the near
/// plane lies before the far plane.
pub open spec fn valid_projection(camera: serialize::Camera) -> bool {
    spec_lt(0, camera.fov) && spec_lt(camera.znear, camera.zfar)
}

impl Camera {
    /// The invariant of a camera: its perspective is usable.
    pub open spec fn wf(&self) -> bool {
        spec_lt(0, self.fov) && spec_lt(self.znear, self.zfar)
    }

    /// Takes the camera of a document, and refuses with `SceneParseError`
    /// a field of view that is not above zero and a far plane that is not
    /// beyond the near plane.
    pub fn from_deserialized(camera: &serialize::Camera) -> (r: Result<Camera, SceneError>)
        ensures
            match r {
                Ok(c) => valid_projection(*camera) && c.wf() && c == (Camera {
                    fov: camera.fov,
                    znear: camera.znear,
                    zfar: camera.zfar,
                    aspect_ratio: camera.aspect_ratio,
                }),
                Err(e) => !valid_projection(*camera) && e == SceneError::SceneParseError,
            },
    {
        if lt(0, camera.fov) && lt(camera.znear, camera.zfar) {
            Ok(
                Camera {
                    fov: camera.fov,
                    znear: camera.znear,
                    zfar: camera.zfar,
                    aspect_ratio: camera.aspect_ratio,
                },
            )
        } else {
            Err(SceneError::SceneParseError)
        }
    }
}

} // verus!
