use pathtracer::camera::Camera;
use pathtracer::material::Material;
use pathtracer::mesh::checked_faces;
use pathtracer::scene::{find_entry, Scene, SceneError};
use pathtracer::serialize;

fn object(mesh: &str, material: &str) -> serialize::Object {
    serialize::Object { mesh: mesh.to_string(), material: material.to_string() }
}

fn camera(fov: f64, znear: f64, zfar: f64) -> serialize::Camera {
    serialize::Camera {
        fov: fov.to_bits(),
        zfar: zfar.to_bits(),
        znear: znear.to_bits(),
        aspect_ratio: 1.5f64.to_bits(),
    }
}

fn document(objects: Vec<serialize::Object>) -> serialize::Scene {
    serialize::Scene {
        camera: camera(0.8, 0.1, 100.0),
        light_count: 2,
        meshes: vec![
            ("floor".to_string(), serialize::Mesh { vert_count: 4, faces: vec![[0, 1, 2], [0, 2, 3]] }),
            ("wedge".to_string(), serialize::Mesh { vert_count: 3, faces: vec![[2, 1, 0]] }),
            ("broken".to_string(), serialize::Mesh { vert_count: 3, faces: vec![[0, 1, 2], [1, 2, 3]] }),
        ],
        materials: vec![
            ("chalk".to_string(), serialize::Material::Diffuse),
            ("steel".to_string(), serialize::Material::Metal),
            ("pane".to_string(), serialize::Material::Glass),
        ],
        objects,
    }
}

#[test]
fn find_entry_gives_the_first_entry_of_a_name() {
    let table = vec![("a".to_string(), 1u8), ("b".to_string(), 2u8), ("a".to_string(), 3u8)];
    assert_eq!(find_entry(&table, &"a".to_string()), Some(0));
    assert_eq!(find_entry(&table, &"b".to_string()), Some(1));
    assert_eq!(find_entry(&table, &"c".to_string()), None);
    assert_eq!(find_entry(&Vec::<(String, u8)>::new(), &"a".to_string()), None);
}

#[test]
fn material_from_deserialized_keeps_diffuse_and_metal() {
    assert_eq!(Material::from_deserialized(serialize::Material::Diffuse), Ok(Material::Diffuse));
    assert_eq!(Material::from_deserialized(serialize::Material::Metal), Ok(Material::Metal));
}

#[test]
fn material_from_deserialized_refuses_glass() {
    assert_eq!(
        Material::from_deserialized(serialize::Material::Glass),
        Err(SceneError::UnsupportedMaterial)
    );
}

#[test]
fn checked_faces_copies_faces_in_bounds() {
    let faces = vec![[0, 1, 2], [2, 3, 0]];
    assert_eq!(checked_faces(&faces, 4), Some(faces.clone()));
    assert_eq!(checked_faces(&Vec::new(), 0), Some(Vec::new()));
}

#[test]
fn checked_faces_refuses_a_corner_out_of_bounds() {
    assert_eq!(checked_faces(&vec![[0, 1, 2], [2, 3, 0]], 3), None);
    assert_eq!(checked_faces(&vec![[4, 1, 2]], 4), None);
    assert_eq!(checked_faces(&vec![[0, 4, 2]], 4), None);
    assert_eq!(checked_faces(&vec![[0, 1, 4]], 4), None);
}

#[test]
fn scene_resolves_each_object_in_order() {
    let doc = document(vec![object("wedge", "steel"), object("floor", "chalk"), object("wedge", "chalk")]);
    let scene = Scene::from_deserialized(&doc).unwrap();
    assert_eq!(scene.light_count, 2);
    assert_eq!(
        scene.camera,
        Camera {
            fov: 0.8f64.to_bits(),
            znear: 0.1f64.to_bits(),
            zfar: 100.0f64.to_bits(),
            aspect_ratio: 1.5f64.to_bits(),
        }
    );
    assert_eq!(scene.meshes.len(), 3);
    assert_eq!(scene.meshes[0].mesh_entry, 1);
    assert_eq!(scene.meshes[0].material_entry, 1);
    assert_eq!(scene.meshes[0].material, Material::Metal);
    assert_eq!(scene.meshes[0].vert_count, 3);
    assert_eq!(scene.meshes[0].faces, vec![[2, 1, 0]]);
    assert_eq!(scene.meshes[1].mesh_entry, 0);
    assert_eq!(scene.meshes[1].material_entry, 0);
    assert_eq!(scene.meshes[1].material, Material::Diffuse);
    assert_eq!(scene.meshes[1].vert_count, 4);
    assert_eq!(scene.meshes[1].faces, vec![[0, 1, 2], [0, 2, 3]]);
    assert_eq!(scene.meshes[2].mesh_entry, 1);
    assert_eq!(scene.meshes[2].material_entry, 0);
}

#[test]
fn scene_without_objects_loads_empty() {
    let scene = Scene::from_deserialized(&document(Vec::new())).unwrap();
    assert!(scene.meshes.is_empty());
    assert_eq!(scene.light_count, 2);
}

#[test]
fn absent_mesh_is_reference_not_found() {
    let doc = document(vec![object("floor", "chalk"), object("ceiling", "chalk")]);
    assert_eq!(Scene::from_deserialized(&doc).err(), Some(SceneError::ReferenceNotFound));
}

#[test]
fn absent_material_is_reference_not_found() {
    let doc = document(vec![object("floor", "velvet")]);
    assert_eq!(Scene::from_deserialized(&doc).err(), Some(SceneError::ReferenceNotFound));
}

#[test]
fn glass_is_unsupported_material() {
    let doc = document(vec![object("floor", "chalk"), object("wedge", "pane")]);
    assert_eq!(Scene::from_deserialized(&doc).err(), Some(SceneError::UnsupportedMaterial));
}

#[test]
fn face_out_of_bounds_is_a_parse_error() {
    let doc = document(vec![object("broken", "chalk")]);
    assert_eq!(Scene::from_deserialized(&doc).err(), Some(SceneError::SceneParseError));
}

#[test]
fn unused_entries_are_not_examined() {
    let doc = document(vec![object("floor", "steel")]);
    assert!(Scene::from_deserialized(&doc).is_ok());
}

#[test]
fn missing_reference_comes_before_other_errors() {
    let doc = document(vec![object("broken", "pane"), object("floor", "pane"), object("nowhere", "chalk")]);
    assert_eq!(Scene::from_deserialized(&doc).err(), Some(SceneError::ReferenceNotFound));
}

#[test]
fn unsupported_material_comes_before_malformed_mesh() {
    let doc = document(vec![object("broken", "chalk"), object("floor", "pane")]);
    assert_eq!(Scene::from_deserialized(&doc).err(), Some(SceneError::UnsupportedMaterial));
}

#[test]
fn camera_with_a_usable_perspective_loads() {
    let loaded = Camera::from_deserialized(&camera(1.0, 0.5, 2.0)).unwrap();
    assert_eq!(loaded.fov, 1.0f64.to_bits());
    assert_eq!(loaded.znear, 0.5f64.to_bits());
    assert_eq!(loaded.zfar, 2.0f64.to_bits());
    assert_eq!(loaded.aspect_ratio, 1.5f64.to_bits());
    assert!(Camera::from_deserialized(&camera(f64::MIN_POSITIVE, -3.0, -2.0)).is_ok());
}

#[test]
fn camera_with_far_plane_not_beyond_near_plane_is_refused() {
    for (znear, zfar) in [(1.0, 1.0), (2.0, 1.0), (0.0, -0.0), (-0.0, 0.0), (1.0, f64::NAN), (f64::NAN, 1.0)] {
        assert_eq!(
            Camera::from_deserialized(&camera(1.0, znear, zfar)),
            Err(SceneError::SceneParseError)
        );
    }
}

#[test]
fn camera_with_field_of_view_not_above_zero_is_refused() {
    for fov in [0.0, -0.0, -1.0, f64::NEG_INFINITY, f64::NAN] {
        assert_eq!(
            Camera::from_deserialized(&camera(fov, 0.1, 100.0)),
            Err(SceneError::SceneParseError)
        );
    }
}

#[test]
fn scene_with_a_malformed_camera_is_a_parse_error() {
    let mut doc = document(vec![object("floor", "chalk")]);
    doc.camera = camera(0.8, 5.0, 5.0);
    assert_eq!(Scene::from_deserialized(&doc).err(), Some(SceneError::SceneParseError));
}

#[test]
fn missing_reference_comes_before_a_malformed_camera() {
    let mut doc = document(vec![object("floor", "nothing")]);
    doc.camera = camera(-1.0, 0.1, 100.0);
    assert_eq!(Scene::from_deserialized(&doc).err(), Some(SceneError::ReferenceNotFound));
    let mut doc = document(vec![object("floor", "pane")]);
    doc.camera = camera(-1.0, 0.1, 100.0);
    assert_eq!(Scene::from_deserialized(&doc).err(), Some(SceneError::UnsupportedMaterial));
}
