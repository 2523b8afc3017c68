use raykernel::fx::{Fx, FX_SCALE};
use raykernel::vec::{Vec3, Vec4};
use raykernel::scene::{Light, Material, Sphere};
use raykernel::tracer::{background, camera_dir, cast_ray, reflect, refract, render};

fn zvec(x: i64, y: i64, z: i64) -> Vec3 {
    Vec3::new(Fx::from_int(x), Fx::from_int(y), Fx::from_int(z))
}

fn rubber() -> Material {
    Material::new(
        Fx::from_int(1),
        Vec4::new(Fx::from_ratio(9, 10), Fx::from_ratio(1, 10), Fx { raw: 0 }, Fx { raw: 0 }),
        Vec3::new(Fx::from_ratio(3, 10), Fx::from_ratio(1, 10), Fx::from_ratio(1, 10)),
        10,
    )
}

fn ivory() -> Material {
    Material::new(
        Fx::from_int(1),
        Vec4::new(Fx::from_ratio(6, 10), Fx::from_ratio(3, 10), Fx::from_ratio(1, 10), Fx { raw: 0 }),
        Vec3::new(Fx::from_ratio(4, 10), Fx::from_ratio(4, 10), Fx::from_ratio(3, 10)),
        50,
    )
}

#[test]
fn reflect_mirrors_about_the_normal() {
    let i = zvec(1, -1, 0);
    let n = zvec(0, 1, 0);
    assert_eq!(reflect(i, n), zvec(1, 1, 0));
}

#[test]
fn refract_at_equal_indices_goes_straight_through() {
    let i = zvec(0, 0, -1);
    let n = zvec(0, 0, 1);
    assert_eq!(refract(i, n, Fx::from_int(1)), i);
}

#[test]
fn total_internal_reflection_is_exactly_black() {
    // leaving a dense medium (index 1.5) at 60 degrees from the normal:
    // k = 1 - 2.25 * (1 - 0.25) < 0
    let i = Vec3::new(Fx::from_raw(56756), Fx::from_raw(32768), Fx::zero());
    let n = zvec(0, 1, 0);
    let r = refract(i, n, Fx::from_ratio(3, 2));
    assert_eq!(r, zvec(0, 0, 0));
}

#[test]
fn past_the_depth_cap_only_background_comes_back() {
    let spheres = vec![Sphere::new(zvec(0, 0, -5), Fx::from_int(1), rubber())];
    let lights = vec![Light { position: zvec(10, 10, 0), intensity: Fx::from_ratio(3, 2) }];
    let c = cast_ray(zvec(0, 0, 0), zvec(0, 0, -1), &spheres, &lights, 5);
    assert_eq!(c, background());
    // at depth 0 the same ray hits the sphere and is shaded
    let c0 = cast_ray(zvec(0, 0, 0), zvec(0, 0, -1), &spheres, &lights, 0);
    assert_ne!(c0, background());
}

#[test]
fn occluded_light_contributes_exactly_zero() {
    let target = Sphere::new(zvec(0, 0, -16), Fx::from_int(2), rubber());
    let blocker = Sphere::new(zvec(10, 0, -4), Fx::from_int(2), rubber());
    let l1 = Light { position: zvec(20, 0, 6), intensity: Fx::from_ratio(3, 2) };
    let l2 = Light { position: zvec(-20, 0, 6), intensity: Fx::from_ratio(3, 2) };
    let orig = zvec(0, 0, 0);
    let dir = zvec(0, 0, -1);

    let open_scene = vec![target];
    let blocked_scene = vec![target, blocker];

    // with the blocker, the first light's contribution vanishes entirely:
    // the color equals the color computed without that light
    let with_both = cast_ray(orig, dir, &blocked_scene, &vec![l1, l2], 0);
    let without_l1 = cast_ray(orig, dir, &blocked_scene, &vec![l2], 0);
    assert_eq!(with_both, without_l1);

    // without the blocker the first light does contribute
    let unblocked = cast_ray(orig, dir, &open_scene, &vec![l1, l2], 0);
    assert_ne!(unblocked, with_both);
}

#[test]
fn camera_rays_follow_the_pinhole_formula() {
    // a 2x2 image with unit fov tangent: pixel (0,0) looks up-left
    let one = Fx::one();
    let d = camera_dir(0, 0, 2, 2, one);
    let expected = Vec3::new(Fx { raw: -32768 }, Fx { raw: 32768 }, Fx { raw: -65536 }).normalize();
    assert_eq!(d, expected);
}

#[test]
fn primary_rays_that_miss_see_the_background() {
    // a lone ivory sphere left of center, camera at the origin
    let spheres = vec![Sphere::new(
        Vec3::new(Fx::from_int(-3), Fx::from_int(0), Fx::from_int(-16)),
        Fx::from_int(2),
        ivory(),
    )];
    let lights: Vec<Light> = vec![];
    let one = Fx::from_int(1);
    let orig = zvec(0, 0, 0);

    // the corner pixel misses
    let corner = camera_dir(0, 0, 1024, 768, one);
    assert_eq!(cast_ray(orig, corner, &spheres, &lights, 0), background());
    // the exact image center misses too: the sphere sits off to the left
    let center = camera_dir(512, 384, 1024, 768, one);
    assert_eq!(cast_ray(orig, center, &spheres, &lights, 0), background());
    // a center-row pixel whose ray crosses the sphere is shaded
    let through = camera_dir(439, 384, 1024, 768, one);
    assert_ne!(cast_ray(orig, through, &spheres, &lights, 0), background());
}

#[test]
fn render_is_row_major_and_matches_single_rays() {
    let spheres = vec![Sphere::new(zvec(0, 0, -8), Fx::from_int(2), rubber())];
    let lights = vec![Light { position: zvec(5, 5, 0), intensity: Fx::from_int(1) }];
    let one = Fx::from_int(1);
    let image = render(&spheres, &lights, 4, 3, one);
    assert_eq!(image.len(), 12);
    for row in 0..3usize {
        for col in 0..4usize {
            let dir = camera_dir(col, row, 4, 3, one);
            let expect = cast_ray(zvec(0, 0, 0), dir, &spheres, &lights, 0);
            assert_eq!(image[row * 4 + col], expect);
        }
    }
}

#[test]
fn empty_scene_renders_pure_background() {
    let spheres: Vec<Sphere> = vec![];
    let lights: Vec<Light> = vec![];
    let image = render(&spheres, &lights, 8, 8, Fx::from_int(1));
    assert_eq!(image.len(), 64);
    for px in image.iter() {
        assert_eq!(*px, background());
    }
}
