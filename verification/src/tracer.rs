//! The recursive tracer and the camera loop.
//!
//! [`cast_ray`] turns one ray into a color: it intersects the scene, shades
//! the hit with every unoccluded light (diffuse plus specular, with hard
//! shadow tests), and adds reflected and refracted colors from two
//! recursive rays, all weighted by the material's albedo. Recursion stops
//! past depth 4, where the fixed background color is returned. [`render`]
//! runs the camera loop: one primary ray per pixel, row-major.

use vstd::prelude::*;
use crate::fx::Fx;
use crate::fx::FX_SCALE;
use crate::fx::FX_MIN;
use crate::fx::fx;
use crate::fx::spec_add;
use crate::fx::spec_sub;
use crate::fx::spec_neg;
use crate::fx::spec_mul;
use crate::fx::spec_div;
use crate::fx::spec_min;
use crate::fx::spec_max;
use crate::fx::spec_sqrt;
use crate::fx::spec_pow;
use crate::fx::lemma_add_zero;
use crate::vec::Vec3;
use crate::scene::Material;
use crate::scene::Sphere;
use crate::scene::Light;
use crate::scene::spec_scene_intersect;
use crate::scene::scene_intersect;

verus! {

/// Bias (about a thousandth of a unit) that lifts secondary-ray origins
/// off the surface they start from, against self-intersection.
pub const BIAS_RAW: i64 = 65;

/// Red channel of the background color (0.5).
pub const BG_RED_RAW: i64 = 32768;

/// Green channel of the background color (about 0.8).
pub const BG_GREEN_RAW: i64 = 52429;

/// Blue channel of the background color (about 0.9).
pub const BG_BLUE_RAW: i64 = 58982;

/// The configured background color, returned for every ray that hits
/// nothing visible or exceeds the recursion cap.
pub open spec fn spec_background() -> Vec3 {
    Vec3 { x: Fx { raw: BG_RED_RAW }, y: Fx { raw: BG_GREEN_RAW }, z: Fx { raw: BG_BLUE_RAW } }
}

/// The background color as a value.
pub fn background() -> (c: Vec3)
    ensures
        c == spec_background(),
{
    Vec3 { x: Fx { raw: BG_RED_RAW }, y: Fx { raw: BG_GREEN_RAW }, z: Fx { raw: BG_BLUE_RAW } }
}

/// Mirror reflection of `i` about the unit normal `n`:
/// `i - n*2*(i.n)`.
pub open spec fn spec_reflect(i: Vec3, n: Vec3) -> Vec3 {
    i.spec_sub(n.spec_scale(Fx { raw: 131072 }).spec_scale(i.spec_dot(n)))
}

/// Mirror reflection; see [`spec_reflect`].
pub fn reflect(i: Vec3, n: Vec3) -> (r: Vec3)
    ensures
        r == spec_reflect(i, n),
{
    i.sub(n.scale(Fx { raw: 131072 }).scale(i.dot(n)))
}

/// Incidence cosine before the entering/exiting correction:
/// `-clamp(i.n, -1, 1)`; negative when the ray leaves the medium.
pub open spec fn spec_refract_cos0(i: Vec3, n: Vec3) -> Fx {
    spec_neg(spec_max(Fx { raw: -65536i64 }, spec_min(Fx { raw: FX_SCALE }, i.spec_dot(n))))
}

/// The index ratio used by Snell's law, after swapping media when the ray
/// exits rather than enters.
pub open spec fn spec_refract_eta(i: Vec3, n: Vec3, refractive_index: Fx) -> Fx {
    if spec_refract_cos0(i, n).raw < 0 {
        spec_div(refractive_index, Fx { raw: FX_SCALE })
    } else {
        spec_div(Fx { raw: FX_SCALE }, refractive_index)
    }
}

/// Snell's discriminant `1 - eta^2 (1 - cos^2)`; negative exactly on total
/// internal reflection.
pub open spec fn spec_refract_k(i: Vec3, n: Vec3, refractive_index: Fx) -> Fx {
    let cos0 = spec_refract_cos0(i, n);
    let cosi = if cos0.raw < 0 {
        spec_neg(cos0)
    } else {
        cos0
    };
    let eta = spec_refract_eta(i, n, refractive_index);
    spec_sub(
        Fx { raw: FX_SCALE },
        spec_mul(spec_mul(eta, eta), spec_sub(Fx { raw: FX_SCALE }, spec_mul(cosi, cosi))),
    )
}

/// Refraction by Snell's law; the zero vector on total internal
/// reflection (kept as a black refracted contribution, not replaced by a
/// mirror reflection).
pub open spec fn spec_refract(i: Vec3, n: Vec3, refractive_index: Fx) -> Vec3 {
    let cos0 = spec_refract_cos0(i, n);
    let cosi = if cos0.raw < 0 {
        spec_neg(cos0)
    } else {
        cos0
    };
    let nn = if cos0.raw < 0 {
        n.spec_neg()
    } else {
        n
    };
    let eta = spec_refract_eta(i, n, refractive_index);
    let k = spec_refract_k(i, n, refractive_index);
    if k.raw < 0 {
        Vec3 { x: Fx { raw: 0 }, y: Fx { raw: 0 }, z: Fx { raw: 0 } }
    } else {
        i.spec_scale(eta).spec_add(nn.spec_scale(spec_sub(spec_mul(eta, cosi), spec_sqrt(k))))
    }
}

/// Total internal reflection yields exactly the zero vector, not a
/// reflected substitute.
pub proof fn lemma_total_internal_reflection(i: Vec3, n: Vec3, refractive_index: Fx)
    requires
        spec_refract_k(i, n, refractive_index).raw < 0,
    ensures
        spec_refract(i, n, refractive_index) == (Vec3 {
            x: Fx { raw: 0 },
            y: Fx { raw: 0 },
            z: Fx { raw: 0 },
        }),
{
}

/// Refraction; see [`spec_refract`].
pub fn refract(i: Vec3, n: Vec3, refractive_index: Fx) -> (r: Vec3)
    ensures
        r == spec_refract(i, n, refractive_index),
        spec_refract_k(i, n, refractive_index).raw < 0 ==> r == (Vec3 {
            x: Fx { raw: 0 },
            y: Fx { raw: 0 },
            z: Fx { raw: 0 },
        }),
{
    let one = Fx { raw: FX_SCALE };
    let cos0 = Fx { raw: -65536i64 }.max(one.min(i.dot(n))).neg();
    let entering: bool = cos0.raw >= 0;
    let cosi = if entering {
        cos0
    } else {
        cos0.neg()
    };
    let etai = if entering {
        one
    } else {
        refractive_index
    };
    let etat = if entering {
        refractive_index
    } else {
        one
    };
    let nn = if entering {
        n
    } else {
        n.neg()
    };
    let eta = etai.div(etat);
    let k = one.sub(eta.mul(eta).mul(one.sub(cosi.mul(cosi))));
    if k.raw < 0 {
        Vec3 { x: Fx { raw: 0 }, y: Fx { raw: 0 }, z: Fx { raw: 0 } }
    } else {
        i.scale(eta).add(nn.scale(eta.mul(cosi).sub(k.sqrt())))
    }
}

/// Euclidean length of a vector, summed componentwise.
pub fn norm(v: Vec3) -> (r: Fx)
    ensures
        r == v.spec_length(),
{
    v.x.mul(v.x).add(v.y.mul(v.y)).add(v.z.mul(v.z)).sqrt()
}

/// Where a secondary ray starts: the hit point pushed a small bias along
/// the normal, on the side the new direction `toward` leaves the surface.
pub open spec fn spec_offset_origin(point: Vec3, normal: Vec3, toward: Vec3) -> Vec3 {
    if toward.spec_dot(normal).raw < 0 {
        point.spec_sub(normal.spec_scale(Fx { raw: BIAS_RAW }))
    } else {
        point.spec_add(normal.spec_scale(Fx { raw: BIAS_RAW }))
    }
}

/// Secondary-ray origin; see [`spec_offset_origin`].
pub fn offset_origin(point: Vec3, normal: Vec3, toward: Vec3) -> (r: Vec3)
    ensures
        r == spec_offset_origin(point, normal, toward),
{
    if toward.dot(normal).raw < 0 {
        point.sub(normal.scale(Fx { raw: BIAS_RAW }))
    } else {
        point.add(normal.scale(Fx { raw: BIAS_RAW }))
    }
}

/// Whether an opaque sphere blocks the path from `point` (lifted off the
/// surface of normal `normal`) to the light: the shadow ray hits the scene
/// nearer than the light stands.
pub open spec fn spec_light_occluded(l: Light, point: Vec3, normal: Vec3, spheres: Seq<Sphere>) -> bool {
    let light_vec = l.position.spec_sub(point);
    let light_dir = light_vec.spec_normalize();
    let sorig = spec_offset_origin(point, normal, light_dir);
    match spec_scene_intersect(sorig, light_dir, spheres) {
        Some(h) => h.point.spec_sub(sorig).spec_length().raw < light_vec.spec_length().raw,
        None => false,
    }
}

/// One light's diffuse and specular contributions at a surface point:
/// zero when the light is occluded, else `intensity * max(0, L.N)` and
/// `max(0, -reflect(-L, N).V)^exponent * intensity`.
pub open spec fn spec_light_terms(
    l: Light,
    point: Vec3,
    normal: Vec3,
    dir: Vec3,
    m: Material,
    spheres: Seq<Sphere>,
) -> (Fx, Fx) {
    if spec_light_occluded(l, point, normal, spheres) {
        (Fx { raw: 0 }, Fx { raw: 0 })
    } else {
        let light_dir = l.position.spec_sub(point).spec_normalize();
        let diffuse = spec_mul(l.intensity, spec_max(Fx { raw: 0 }, light_dir.spec_dot(normal)));
        let specular = spec_mul(
            spec_pow(
                spec_max(
                    Fx { raw: 0 },
                    spec_neg(spec_reflect(light_dir.spec_neg(), normal).spec_dot(dir)),
                ),
                m.specular_exponent as int,
            ),
            l.intensity,
        );
        (diffuse, specular)
    }
}

/// Accumulated diffuse and specular intensities over the first `n` lights.
pub open spec fn spec_shade_fold(
    lights: Seq<Light>,
    n: int,
    point: Vec3,
    normal: Vec3,
    dir: Vec3,
    m: Material,
    spheres: Seq<Sphere>,
) -> (Fx, Fx)
    decreases n,
{
    if n <= 0 {
        (Fx { raw: 0 }, Fx { raw: 0 })
    } else {
        let prev = spec_shade_fold(lights, n - 1, point, normal, dir, m, spheres);
        let term = spec_light_terms(lights[n - 1], point, normal, dir, m, spheres);
        (spec_add(prev.0, term.0), spec_add(prev.1, term.1))
    }
}

/// An occluded light's terms are exactly zero.
pub proof fn lemma_occluded_light_zero(
    l: Light,
    point: Vec3,
    normal: Vec3,
    dir: Vec3,
    m: Material,
    spheres: Seq<Sphere>,
)
    requires
        spec_light_occluded(l, point, normal, spheres),
    ensures
        spec_light_terms(l, point, normal, dir, m, spheres) == (Fx { raw: 0 }, Fx { raw: 0 }),
{
}

/// Both accumulated intensities stay in the saturating range.
proof fn lemma_shade_fold_range(
    lights: Seq<Light>,
    n: int,
    point: Vec3,
    normal: Vec3,
    dir: Vec3,
    m: Material,
    spheres: Seq<Sphere>,
)
    ensures
        spec_shade_fold(lights, n, point, normal, dir, m, spheres).0.raw >= FX_MIN,
        spec_shade_fold(lights, n, point, normal, dir, m, spheres).1.raw >= FX_MIN,
    decreases n,
{
    if n > 0 {
        lemma_shade_fold_range(lights, n - 1, point, normal, dir, m, spheres);
    }
}

/// Folds over equal prefixes are equal.
proof fn lemma_shade_fold_prefix(
    s1: Seq<Light>,
    s2: Seq<Light>,
    n: int,
    point: Vec3,
    normal: Vec3,
    dir: Vec3,
    m: Material,
    spheres: Seq<Sphere>,
)
    requires
        forall|j: int| 0 <= j < n ==> s1[j] == s2[j],
    ensures
        spec_shade_fold(s1, n, point, normal, dir, m, spheres) == spec_shade_fold(
            s2,
            n,
            point,
            normal,
            dir,
            m,
            spheres,
        ),
    decreases n,
{
    if n > 0 {
        lemma_shade_fold_prefix(s1, s2, n - 1, point, normal, dir, m, spheres);
    }
}

/// Folding the first `n` lights equals folding `n - 1` after removing an
/// occluded light that lies before `n`.
proof fn lemma_shade_fold_skip(
    lights: Seq<Light>,
    i: int,
    n: int,
    point: Vec3,
    normal: Vec3,
    dir: Vec3,
    m: Material,
    spheres: Seq<Sphere>,
)
    requires
        0 <= i < n <= lights.len(),
        spec_light_occluded(lights[i], point, normal, spheres),
    ensures
        spec_shade_fold(lights, n, point, normal, dir, m, spheres) == spec_shade_fold(
            lights.remove(i),
            n - 1,
            point,
            normal,
            dir,
            m,
            spheres,
        ),
    decreases n,
{
    if n - 1 == i {
        lemma_shade_fold_prefix(lights, lights.remove(i), i, point, normal, dir, m, spheres);
        lemma_shade_fold_range(lights, i, point, normal, dir, m, spheres);
        let prev = spec_shade_fold(lights, i, point, normal, dir, m, spheres);
        lemma_add_zero(prev.0);
        lemma_add_zero(prev.1);
    } else {
        lemma_shade_fold_skip(lights, i, n - 1, point, normal, dir, m, spheres);
        assert(lights.remove(i)[n - 2] == lights[n - 1]);
    }
}

/// Shadow occlusion: a light fully blocked by an opaque sphere between it
/// and the surface point contributes exactly zero, and the remaining
/// lights accumulate as if the blocked light were absent.
pub proof fn lemma_shadowed_light_contributes_nothing(
    lights: Seq<Light>,
    i: int,
    point: Vec3,
    normal: Vec3,
    dir: Vec3,
    m: Material,
    spheres: Seq<Sphere>,
)
    requires
        0 <= i < lights.len(),
        spec_light_occluded(lights[i], point, normal, spheres),
    ensures
        spec_light_terms(lights[i], point, normal, dir, m, spheres) == (
            Fx { raw: 0 },
            Fx { raw: 0 },
        ),
        spec_shade_fold(lights, lights.len() as int, point, normal, dir, m, spheres)
            == spec_shade_fold(
            lights.remove(i),
            lights.len() - 1,
            point,
            normal,
            dir,
            m,
            spheres,
        ),
{
    lemma_shade_fold_skip(
        lights,
        i,
        lights.len() as int,
        point,
        normal,
        dir,
        m,
        spheres,
    );
}

/// Color of one ray: background past the recursion cap or on a miss;
/// otherwise the albedo-weighted sum of local diffuse, local specular, and
/// the recursively traced reflected and refracted colors.
pub open spec fn spec_cast_ray(
    orig: Vec3,
    dir: Vec3,
    spheres: Seq<Sphere>,
    lights: Seq<Light>,
    depth: int,
) -> Vec3
    decreases 5 - depth,
{
    if depth > 4 {
        spec_background()
    } else {
        match spec_scene_intersect(orig, dir, spheres) {
            None => spec_background(),
            Some(h) => {
                let reflect_dir = spec_reflect(dir, h.normal).spec_normalize();
                let reflect_orig = spec_offset_origin(h.point, h.normal, reflect_dir);
                let reflect_color = spec_cast_ray(reflect_orig, reflect_dir, spheres, lights, depth + 1);
                let refract_dir = spec_refract(dir, h.normal, h.material.refractive_index).spec_normalize();
                let refract_orig = spec_offset_origin(h.point, h.normal, refract_dir);
                let refract_color = spec_cast_ray(refract_orig, refract_dir, spheres, lights, depth + 1);
                let sums = spec_shade_fold(
                    lights,
                    lights.len() as int,
                    h.point,
                    h.normal,
                    dir,
                    h.material,
                    spheres,
                );
                let ones = Vec3 {
                    x: Fx { raw: FX_SCALE },
                    y: Fx { raw: FX_SCALE },
                    z: Fx { raw: FX_SCALE },
                };
                h.material.diffuse_color.spec_scale(sums.0).spec_scale(h.material.albedo.x).spec_add(
                    ones.spec_scale(sums.1).spec_scale(h.material.albedo.y),
                ).spec_add(reflect_color.spec_scale(h.material.albedo.z)).spec_add(
                    refract_color.spec_scale(h.material.albedo.w),
                )
            },
        }
    }
}

/// A ray that intersects nothing visible gets the background color, at
/// every depth.
pub proof fn lemma_miss_is_background(
    orig: Vec3,
    dir: Vec3,
    spheres: Seq<Sphere>,
    lights: Seq<Light>,
    depth: int,
)
    requires
        spec_scene_intersect(orig, dir, spheres) is None,
    ensures
        spec_cast_ray(orig, dir, spheres, lights, depth) == spec_background(),
{
}

/// Trace one ray; see [`spec_cast_ray`]. Past the depth cap the
/// background color comes back at once, whatever the scene holds.
#[verifier::rlimit(100)]
pub fn cast_ray(orig: Vec3, dir: Vec3, spheres: &Vec<Sphere>, lights: &Vec<Light>, depth: usize) -> (c: Vec3)
    ensures
        c == spec_cast_ray(orig, dir, spheres@, lights@, depth as int),
        depth > 4 ==> c == spec_background(),
        spec_scene_intersect(orig, dir, spheres@) is None ==> c == spec_background(),
    decreases 5 - depth,
{
    if depth > 4 {
        return background();
    }
    let hit = scene_intersect(orig, dir, spheres);
    match hit {
        None => background(),
        Some(h) => {
            let reflect_dir = reflect(dir, h.normal).normalize();
            let reflect_orig = offset_origin(h.point, h.normal, reflect_dir);
            let reflect_color = cast_ray(reflect_orig, reflect_dir, spheres, lights, depth + 1);
            let refract_dir = refract(dir, h.normal, h.material.refractive_index).normalize();
            let refract_orig = offset_origin(h.point, h.normal, refract_dir);
            let refract_color = cast_ray(refract_orig, refract_dir, spheres, lights, depth + 1);
            let mut diffuse_light_intensity = Fx { raw: 0 };
            let mut specular_light_intensity = Fx { raw: 0 };
            let mut li: usize = 0;
            while li < lights.len()
                invariant
                    li <= lights@.len(),
                    (diffuse_light_intensity, specular_light_intensity) == spec_shade_fold(
                        lights@,
                        li as int,
                        h.point,
                        h.normal,
                        dir,
                        h.material,
                        spheres@,
                    ),
                decreases lights@.len() - li,
            {
                let light = lights[li];
                let light_vec = light.position.sub(h.point);
                let light_dir = light_vec.normalize();
                let light_distance = norm(light_vec);
                let shadow_orig = offset_origin(h.point, h.normal, light_dir);
                let shadow_hit = scene_intersect(shadow_orig, light_dir, spheres);
                let occluded: bool = match shadow_hit {
                    Some(sh) => norm(sh.point.sub(shadow_orig)).raw < light_distance.raw,
                    None => false,
                };
                if !occluded {
                    diffuse_light_intensity = diffuse_light_intensity.add(
                        light.intensity.mul(Fx { raw: 0 }.max(light_dir.dot(h.normal))),
                    );
                    specular_light_intensity = specular_light_intensity.add(
                        Fx {
                            raw: 0,
                        }.max(reflect(light_dir.neg(), h.normal).dot(dir).neg()).pow(
                            h.material.specular_exponent,
                        ).mul(light.intensity),
                    );
                }
                li = li + 1;
            }
            let ones = Vec3 {
                x: Fx { raw: FX_SCALE },
                y: Fx { raw: FX_SCALE },
                z: Fx { raw: FX_SCALE },
            };
            h.material.diffuse_color.scale(diffuse_light_intensity).scale(h.material.albedo.x).add(
                ones.scale(specular_light_intensity).scale(h.material.albedo.y),
            ).add(reflect_color.scale(h.material.albedo.z)).add(
                refract_color.scale(h.material.albedo.w),
            )
        },
    }
}

/// Direction of the primary ray through pixel `(col, row)`: the camera
/// sits at the origin looking down negative z, `fov_tan` is the tangent of
/// half the vertical field of view, and the aspect ratio widens x.
pub open spec fn spec_camera_dir(col: int, row: int, width: int, height: int, fov_tan: Fx) -> Vec3 {
    let w = fx(width * FX_SCALE);
    let h = fx(height * FX_SCALE);
    let cx = fx(col * FX_SCALE + 32768);
    let cy = fx(row * FX_SCALE + 32768);
    let two = Fx { raw: 131072 };
    let one = Fx { raw: FX_SCALE };
    let x = spec_mul(
        spec_mul(spec_sub(spec_div(spec_mul(two, cx), w), one), fov_tan),
        spec_div(w, h),
    );
    let y = spec_mul(spec_neg(spec_sub(spec_div(spec_mul(two, cy), h), one)), fov_tan);
    Vec3 { x, y, z: Fx { raw: -65536i64 } }.spec_normalize()
}

/// Primary-ray direction; see [`spec_camera_dir`].
pub fn camera_dir(col: usize, row: usize, width: usize, height: usize, fov_tan: Fx) -> (r: Vec3)
    requires
        col < width,
        row < height,
        1 <= width <= 16384,
        1 <= height <= 16384,
    ensures
        r == spec_camera_dir(col as int, row as int, width as int, height as int, fov_tan),
{
    let w = Fx::from_int(width as i64);
    let h = Fx::from_int(height as i64);
    let cx = Fx { raw: (col as i64) * 65536 + 32768 };
    let cy = Fx { raw: (row as i64) * 65536 + 32768 };
    let two = Fx { raw: 131072 };
    let one = Fx { raw: FX_SCALE };
    let x = two.mul(cx).div(w).sub(one).mul(fov_tan).mul(w.div(h));
    let y = two.mul(cy).div(h).sub(one).neg().mul(fov_tan);
    Vec3 { x, y, z: Fx { raw: -65536i64 } }.normalize()
}

/// Render the whole image: `width * height` colors in row-major order
/// (top to bottom, left to right), one primary ray per pixel from the
/// origin.
pub fn render(
    spheres: &Vec<Sphere>,
    lights: &Vec<Light>,
    width: usize,
    height: usize,
    fov_tan: Fx,
) -> (image: Vec<Vec3>)
    requires
        1 <= width <= 16384,
        1 <= height <= 16384,
    ensures
        image@.len() == width * height,
        forall|i: int|
            0 <= i < image@.len() ==> image@[i] == spec_cast_ray(
                Vec3 { x: Fx { raw: 0 }, y: Fx { raw: 0 }, z: Fx { raw: 0 } },
                spec_camera_dir(
                    i % (width as int),
                    i / (width as int),
                    width as int,
                    height as int,
                    fov_tan,
                ),
                spheres@,
                lights@,
                0,
            ),
{
    let mut image: Vec<Vec3> = Vec::new();
    let mut row: usize = 0;
    while row < height
        invariant
            row <= height,
            1 <= width <= 16384,
            1 <= height <= 16384,
            image@.len() == row * width,
            forall|i: int|
                0 <= i < image@.len() ==> image@[i] == spec_cast_ray(
                    Vec3 { x: Fx { raw: 0 }, y: Fx { raw: 0 }, z: Fx { raw: 0 } },
                    spec_camera_dir(
                        i % (width as int),
                        i / (width as int),
                        width as int,
                        height as int,
                        fov_tan,
                    ),
                    spheres@,
                    lights@,
                    0,
                ),
        decreases height - row,
    {
        let mut col: usize = 0;
        while col < width
            invariant
                row < height,
                col <= width,
                1 <= width <= 16384,
                1 <= height <= 16384,
                image@.len() == row * width + col,
                forall|i: int|
                    0 <= i < image@.len() ==> image@[i] == spec_cast_ray(
                        Vec3 { x: Fx { raw: 0 }, y: Fx { raw: 0 }, z: Fx { raw: 0 } },
                        spec_camera_dir(
                            i % (width as int),
                            i / (width as int),
                            width as int,
                            height as int,
                            fov_tan,
                        ),
                        spheres@,
                        lights@,
                        0,
                    ),
            decreases width - col,
        {
            let dir = camera_dir(col, row, width, height, fov_tan);
            let color = cast_ray(Vec3::zero(), dir, spheres, lights, 0);
            proof {
                vstd::arithmetic::div_mod::lemma_fundamental_div_mod_converse(
                    (row * width + col) as int,
                    width as int,
                    row as int,
                    col as int,
                );
            }
            image.push(color);
            col = col + 1;
        }
        proof {
            assert((row + 1) * width == row * width + width) by (nonlinear_arith);
        }
        row = row + 1;
    }
    proof {
        assert(height * width == width * height) by (nonlinear_arith);
    }
    image
}

} // verus!
