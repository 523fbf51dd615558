use pathtracer::hit::{closest, closest_hit, Interval, Record};
use pathtracer::integrator::{shade, Step};
use pathtracer::material::Material;
use pathtracer::scalar::{EPSILON, INFINITY};

fn key(x: f64) -> u64 {
    x.to_bits()
}

#[test]
fn closest_takes_the_smallest_distance() {
    let ts = vec![Some(key(4.0)), None, Some(key(2.5)), Some(key(3.0))];
    assert_eq!(closest(&ts, Interval::positive()), Some((2, key(2.5))));
}

#[test]
fn closest_keeps_the_first_of_equal_distances() {
    let ts = vec![Some(key(7.0)), Some(key(1.5)), Some(key(1.5)), Some(key(9.0))];
    assert_eq!(closest(&ts, Interval::positive()), Some((1, key(1.5))));
}

#[test]
fn closest_leaves_out_what_the_interval_does_not_hold() {
    let interval = Interval { start: key(1.0), end: key(3.0) };
    let ts = vec![Some(key(0.5)), Some(key(3.0)), Some(key(-2.0)), Some(key(f64::NAN))];
    assert_eq!(closest(&ts, interval), None);
    let ts = vec![Some(key(0.5)), Some(key(2.75)), Some(key(1.0)), Some(key(3.0))];
    assert_eq!(closest(&ts, interval), Some((2, key(1.0))));
}

#[test]
fn closest_of_nothing_is_nothing() {
    assert_eq!(closest(&Vec::new(), Interval::positive()), None);
    assert_eq!(closest(&vec![None, None], Interval::positive()), None);
}

#[test]
fn record_t_reads_either_variant() {
    assert_eq!(Record::Light { light: 3, t: key(2.0) }.t(), key(2.0));
    let object = Record::Object { mesh: 1, face: 4, material: Material::Metal, t: key(8.0) };
    assert_eq!(object.t(), key(8.0));
}

#[test]
fn closest_hit_compares_lights_and_meshes_by_one_measure() {
    let light = Record::Light { light: 0, t: key(6.0) };
    let near = Record::Object { mesh: 0, face: 2, material: Material::Diffuse, t: key(2.0) };
    let far = Record::Object { mesh: 1, face: 0, material: Material::Metal, t: key(40.0) };
    assert_eq!(closest_hit(&vec![Some(light)], &vec![Some(near), Some(far)]), Some(near));
    assert_eq!(closest_hit(&vec![Some(light)], &vec![None, Some(far)]), Some(light));
    assert_eq!(closest_hit(&vec![None], &vec![None, Some(far)]), Some(far));
    assert_eq!(closest_hit(&vec![None, Some(light)], &Vec::new()), Some(light));
    assert_eq!(closest_hit(&Vec::new(), &vec![Some(far), Some(near)]), Some(near));
    assert_eq!(closest_hit(&vec![None], &vec![None, None]), None);
}

#[test]
fn closest_hit_distance_does_not_depend_on_the_order() {
    let light = Record::Light { light: 0, t: key(6.0) };
    let mesh = Record::Object { mesh: 0, face: 2, material: Material::Diffuse, t: key(5.0) };
    let forward = closest_hit(&vec![Some(light)], &vec![Some(mesh)]);
    let backward = closest_hit(&vec![Some(mesh)], &vec![Some(light)]);
    assert_eq!(forward, Some(mesh));
    assert_eq!(backward, Some(mesh));
}

#[test]
fn closest_hit_prefers_the_earlier_of_equal_distances() {
    let light = Record::Light { light: 1, t: key(3.0) };
    let mesh = Record::Object { mesh: 0, face: 0, material: Material::Diffuse, t: key(3.0) };
    assert_eq!(closest_hit(&vec![Some(light)], &vec![Some(mesh)]), Some(light));
    assert_eq!(closest_hit(&vec![Some(mesh)], &vec![Some(light)]), Some(mesh));
    let twin = Record::Light { light: 4, t: key(3.0) };
    assert_eq!(closest_hit(&vec![Some(light), Some(twin)], &Vec::new()), Some(light));
}

#[test]
fn closest_hit_ignores_what_lies_below_epsilon_or_at_infinity() {
    let behind = Record::Light { light: 0, t: key(-1.0) };
    let touching = Record::Object { mesh: 0, face: 0, material: Material::Diffuse, t: key(0.0) };
    let tiny = Record::Light { light: 1, t: EPSILON - 1 };
    let endless = Record::Light { light: 2, t: INFINITY };
    assert_eq!(
        closest_hit(&vec![Some(behind), Some(tiny), Some(endless)], &vec![Some(touching)]),
        None
    );
    let first = Record::Light { light: 3, t: EPSILON };
    assert_eq!(closest_hit(&vec![Some(behind), Some(first)], &vec![Some(touching)]), Some(first));
}

#[test]
fn empty_scene_shades_to_the_sky() {
    let hit = closest_hit(&Vec::new(), &Vec::new());
    assert_eq!(hit, None);
    assert_eq!(shade(hit, 0), Step::Sky);
    assert_eq!(shade(hit, 8), Step::Sky);
}

#[test]
fn shade_ends_at_a_light() {
    let hit = Some(Record::Light { light: 2, t: key(1.0) });
    assert_eq!(shade(hit, 5), Step::Emit { light: 2 });
    assert_eq!(shade(hit, 0), Step::Emit { light: 2 });
}

#[test]
fn shade_scatters_off_a_matte_face_and_spends_one_bounce() {
    let hit = Some(Record::Object { mesh: 3, face: 7, material: Material::Diffuse, t: key(2.0) });
    assert_eq!(shade(hit, 5), Step::Scatter { mesh: 3, face: 7, t: key(2.0), budget: 4 });
    assert_eq!(shade(hit, 1), Step::Scatter { mesh: 3, face: 7, t: key(2.0), budget: 0 });
}

#[test]
fn shade_absorbs_when_no_bounce_is_left() {
    let hit = Some(Record::Object { mesh: 3, face: 7, material: Material::Diffuse, t: key(2.0) });
    assert_eq!(shade(hit, 0), Step::Absorb);
}

#[test]
fn shade_absorbs_at_metal() {
    let hit = Some(Record::Object { mesh: 0, face: 0, material: Material::Metal, t: key(2.0) });
    assert_eq!(shade(hit, 9), Step::Absorb);
}

#[test]
fn a_path_ends_within_its_budget() {
    let hit = Some(Record::Object { mesh: 0, face: 0, material: Material::Diffuse, t: key(1.0) });
    let mut budget: usize = 6;
    let mut bounces: usize = 0;
    loop {
        match shade(hit, budget) {
            Step::Scatter { budget: left, .. } => {
                assert!(left < budget);
                budget = left;
                bounces += 1;
            }
            step => {
                assert_eq!(step, Step::Absorb);
                break;
            }
        }
    }
    assert_eq!(bounces, 6);
}
