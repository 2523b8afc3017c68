use raykernel::fx::{Fx, FX_SCALE};
use raykernel::vec::{Vec3, Vec4};
use raykernel::scene::{scene_intersect, Light, Material, Sphere};

fn plain_material(red_millis: i64) -> Material {
    Material::new(
        Fx::from_int(1),
        Vec4::new(Fx::from_ratio(9, 10), Fx::from_ratio(1, 10), Fx { raw: 0 }, Fx { raw: 0 }),
        Vec3::new(Fx::from_ratio(red_millis, 1000), Fx::from_ratio(1, 10), Fx::from_ratio(1, 10)),
        10,
    )
}

fn zvec(x: i64, y: i64, z: i64) -> Vec3 {
    Vec3::new(Fx::from_int(x), Fx::from_int(y), Fx::from_int(z))
}

#[test]
fn axis_ray_hits_at_ten_minus_radius() {
    let s = Sphere::new(zvec(0, 0, 0), Fx::from_int(2), plain_material(300));
    let hit = s.ray_intersect(zvec(0, 0, -10), zvec(0, 0, 1));
    assert_eq!(hit, Some(Fx { raw: 8 * FX_SCALE }));
}

#[test]
fn wide_ray_misses() {
    // closest approach 2 exceeds the radius 1
    let s = Sphere::new(zvec(0, 0, 0), Fx::from_int(1), plain_material(300));
    let hit = s.ray_intersect(zvec(0, 2, -10), zvec(0, 0, 1));
    assert_eq!(hit, None);
}

#[test]
fn sphere_behind_origin_is_not_hit() {
    // both roots negative
    let s = Sphere::new(zvec(0, 0, -5), Fx::from_int(1), plain_material(300));
    let hit = s.ray_intersect(zvec(0, 0, 0), zvec(0, 0, 1));
    assert_eq!(hit, None);
}

#[test]
fn origin_inside_sphere_hits_far_surface() {
    let s = Sphere::new(zvec(0, 0, 0), Fx::from_int(2), plain_material(300));
    let hit = s.ray_intersect(zvec(0, 0, 0), zvec(0, 0, 1));
    assert_eq!(hit, Some(Fx { raw: 2 * FX_SCALE }));
}

#[test]
fn nearest_sphere_wins_in_either_order() {
    // two overlapping spheres along the same ray: surfaces at 3 and 5
    let near = Sphere::new(zvec(0, 0, -6), Fx::from_int(3), plain_material(111));
    let far = Sphere::new(zvec(0, 0, -7), Fx::from_int(2), plain_material(222));
    let orig = zvec(0, 0, 0);
    let dir = zvec(0, 0, -1);

    let h1 = scene_intersect(orig, dir, &vec![far, near]).unwrap();
    let h2 = scene_intersect(orig, dir, &vec![near, far]).unwrap();
    assert_eq!(h1.material, near.material);
    assert_eq!(h2.material, near.material);
    assert_eq!(h1.point, h2.point);
}

#[test]
fn exact_tie_goes_to_the_earlier_sphere() {
    let a = Sphere::new(zvec(0, 0, -5), Fx::from_int(1), plain_material(111));
    let b = Sphere::new(zvec(0, 0, -5), Fx::from_int(1), plain_material(222));
    let orig = zvec(0, 0, 0);
    let dir = zvec(0, 0, -1);

    let first_a = scene_intersect(orig, dir, &vec![a, b]).unwrap();
    let first_b = scene_intersect(orig, dir, &vec![b, a]).unwrap();
    assert_eq!(first_a.material, a.material);
    assert_eq!(first_b.material, b.material);
}

#[test]
fn hit_record_carries_point_and_unit_normal() {
    let s = Sphere::new(zvec(0, 0, -16), Fx::from_int(2), plain_material(300));
    let h = scene_intersect(zvec(0, 0, 0), zvec(0, 0, -1), &vec![s]).unwrap();
    assert_eq!(h.point, zvec(0, 0, -14));
    assert_eq!(h.normal, zvec(0, 0, 1));
    assert_eq!(h.material, s.material);
}

#[test]
fn hits_beyond_the_visibility_limit_count_as_background() {
    let s = Sphere::new(zvec(0, 0, -1500), Fx::from_int(1), plain_material(300));
    let orig = zvec(0, 0, 0);
    let dir = zvec(0, 0, -1);
    // the sphere itself is hit ...
    assert!(s.ray_intersect(orig, dir).is_some());
    // ... but farther than 1000 units, so the scene reports nothing
    assert_eq!(scene_intersect(orig, dir, &vec![s]), None);
}

#[test]
fn empty_scene_reports_nothing() {
    let spheres: Vec<Sphere> = vec![];
    assert_eq!(scene_intersect(zvec(0, 0, 0), zvec(0, 0, -1), &spheres), None);
}

#[test]
fn constructors_keep_their_fields() {
    let m = plain_material(300);
    assert_eq!(m.specular_exponent, 10);
    assert_eq!(m.refractive_index, Fx::from_int(1));
    let s = Sphere::new(zvec(1, 2, 3), Fx::from_int(4), m);
    assert_eq!(s.center, zvec(1, 2, 3));
    assert_eq!(s.radius, Fx::from_int(4));
    assert_eq!(s.material, m);
    let l = Light { position: zvec(1, 1, 1), intensity: Fx::from_ratio(3, 2) };
    assert_eq!(l.intensity.raw, 98304);
}
