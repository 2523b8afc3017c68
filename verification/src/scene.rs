//! Scene data model and the intersector.
//!
//! A scene is a sequence of [`Sphere`]s (geometry plus material) and a
//! sequence of point [`Light`]s, built once and never mutated. The
//! intersector answers two questions: at what distance does a ray meet one
//! sphere ([`Sphere::ray_intersect`]), and which sphere does it meet first
//! across the whole scene ([`scene_intersect`]), subject to a fixed
//! visibility limit beyond which hits count as background.

use vstd::prelude::*;
use crate::fx::Fx;
use crate::fx::FX_MAX;
use crate::fx::FX_SCALE;
use crate::fx::spec_add;
use crate::fx::spec_sub;
use crate::fx::spec_mul;
use crate::fx::spec_sqrt;
use crate::fx::is_isqrt;
use crate::fx::lemma_sqrt_raw_bounds;
use crate::fx::lemma_isqrt_unique;
use crate::vec::Vec3;
use crate::vec::Vec4;

verus! {

/// Hits farther than this raw distance (1000 units) count as background.
pub const VIS_LIMIT_RAW: i64 = 1000 * FX_SCALE;

/// Surface properties: weights for the diffuse, specular, reflective and
/// refractive contributions (`albedo`), the diffuse color, the specular
/// exponent (a nonnegative whole number) and the relative refractive index.
#[derive(Clone, Copy, PartialEq, Eq, Structural, Debug)]
pub struct Material {
    pub refractive_index: Fx,
    pub albedo: Vec4,
    pub diffuse_color: Vec3,
    pub specular_exponent: u32,
}

impl Material {
    /// Build a material from its parts.
    pub fn new(r: Fx, a: Vec4, c: Vec3, s: u32) -> (m: Material)
        ensures
            m == (Material { refractive_index: r, albedo: a, diffuse_color: c, specular_exponent: s }),
    {
        Material { refractive_index: r, albedo: a, diffuse_color: c, specular_exponent: s }
    }
}

/// A sphere with its material.
#[derive(Clone, Copy, PartialEq, Eq, Structural, Debug)]
pub struct Sphere {
    pub center: Vec3,
    pub radius: Fx,
    pub material: Material,
}

/// A point light with a scalar intensity.
#[derive(Clone, Copy, PartialEq, Eq, Structural, Debug)]
pub struct Light {
    pub position: Vec3,
    pub intensity: Fx,
}

/// Surface data at an intersection: world-space point, outward unit
/// normal, and the material of the sphere that was hit.
#[derive(Clone, Copy, PartialEq, Eq, Structural, Debug)]
pub struct HitRecord {
    pub point: Vec3,
    pub normal: Vec3,
    pub material: Material,
}

impl Sphere {
    /// Build a sphere from its parts.
    pub fn new(c: Vec3, r: Fx, m: Material) -> (s: Sphere)
        ensures
            s == (Sphere { center: c, radius: r, material: m }),
    {
        Sphere { center: c, radius: r, material: m }
    }

    /// Projection of the center (relative to the ray origin) onto the ray.
    pub open spec fn spec_tca(self, orig: Vec3, dir: Vec3) -> Fx {
        self.center.spec_sub(orig).spec_dot(dir)
    }

    /// Squared distance from the center to the ray's closest approach.
    pub open spec fn spec_d2(self, orig: Vec3, dir: Vec3) -> Fx {
        let big_l = self.center.spec_sub(orig);
        spec_sub(
            big_l.spec_dot(big_l),
            spec_mul(self.spec_tca(orig, dir), self.spec_tca(orig, dir)),
        )
    }

    /// The squared radius.
    pub open spec fn spec_r2(self) -> Fx {
        spec_mul(self.radius, self.radius)
    }

    /// Half-chord: distance along the ray from closest approach to the
    /// surface.
    pub open spec fn spec_thc(self, orig: Vec3, dir: Vec3) -> Fx {
        spec_sqrt(spec_sub(self.spec_r2(), self.spec_d2(orig, dir)))
    }

    /// The near root of the sphere quadratic.
    pub open spec fn spec_t0(self, orig: Vec3, dir: Vec3) -> Fx {
        spec_sub(self.spec_tca(orig, dir), self.spec_thc(orig, dir))
    }

    /// The far root of the sphere quadratic.
    pub open spec fn spec_t1(self, orig: Vec3, dir: Vec3) -> Fx {
        spec_add(self.spec_tca(orig, dir), self.spec_thc(orig, dir))
    }

    /// Distance along the ray (a unit `dir` is assumed by callers) to the
    /// nearest nonnegative intersection: `None` when the ray misses or the
    /// sphere lies entirely behind the origin; the far root when the
    /// origin is inside the sphere.
    pub open spec fn spec_ray_intersect(self, orig: Vec3, dir: Vec3) -> Option<Fx> {
        if self.spec_d2(orig, dir).raw > self.spec_r2().raw {
            None
        } else {
            let t = if self.spec_t0(orig, dir).raw < 0 {
                self.spec_t1(orig, dir)
            } else {
                self.spec_t0(orig, dir)
            };
            if t.raw < 0 {
                None
            } else {
                Some(t)
            }
        }
    }

    /// Geometric ray/sphere intersection; see [`Self::spec_ray_intersect`].
    pub fn ray_intersect(&self, orig: Vec3, dir: Vec3) -> (r: Option<Fx>)
        ensures
            r == self.spec_ray_intersect(orig, dir),
            (r matches Some(t) ==> t.raw >= 0),
    {
        let big_l = self.center.sub(orig);
        let tca = big_l.dot(dir);
        let d2 = big_l.dot(big_l).sub(tca.mul(tca));
        let r2 = self.radius.mul(self.radius);
        if d2.raw > r2.raw {
            return None;
        }
        let thc = r2.sub(d2).sqrt();
        let mut t0 = tca.sub(thc);
        let t1 = tca.add(thc);
        if t0.raw < 0 {
            t0 = t1;
        }
        if t0.raw < 0 {
            return None;
        }
        Some(t0)
    }
}

/// Best (smallest) hit distance among the first `n` spheres, scanning in
/// order and keeping a strictly smaller distance; `FX_MAX` when none hit.
pub open spec fn scan_dist(spheres: Seq<Sphere>, orig: Vec3, dir: Vec3, n: int) -> Fx
    decreases n,
{
    if n <= 0 {
        Fx { raw: FX_MAX }
    } else {
        let prev = scan_dist(spheres, orig, dir, n - 1);
        match spheres[n - 1].spec_ray_intersect(orig, dir) {
            Some(d) => if d.raw < prev.raw {
                d
            } else {
                prev
            },
            None => prev,
        }
    }
}

/// Index of the sphere holding the best distance of [`scan_dist`], or `-1`
/// when no sphere improved on the `FX_MAX` sentinel.
pub open spec fn scan_idx(spheres: Seq<Sphere>, orig: Vec3, dir: Vec3, n: int) -> int
    decreases n,
{
    if n <= 0 {
        -1
    } else {
        let prev_d = scan_dist(spheres, orig, dir, n - 1);
        match spheres[n - 1].spec_ray_intersect(orig, dir) {
            Some(d) => if d.raw < prev_d.raw {
                n - 1
            } else {
                scan_idx(spheres, orig, dir, n - 1)
            },
            None => scan_idx(spheres, orig, dir, n - 1),
        }
    }
}

/// The point reached after traveling `d` along the ray.
pub open spec fn hit_point(orig: Vec3, dir: Vec3, d: Fx) -> Vec3 {
    orig.spec_add(dir.spec_scale(d))
}

/// Outward unit normal of sphere `s` at surface point `p`.
pub open spec fn hit_normal(s: Sphere, p: Vec3) -> Vec3 {
    p.spec_sub(s.center).spec_normalize()
}

/// Nearest visible hit across the scene: the record of the first sphere
/// attaining the minimal hit distance, or `None` when nothing is hit
/// within the visibility limit.
pub open spec fn spec_scene_intersect(orig: Vec3, dir: Vec3, spheres: Seq<Sphere>) -> Option<
    HitRecord,
> {
    let d = scan_dist(spheres, orig, dir, spheres.len() as int);
    let j = scan_idx(spheres, orig, dir, spheres.len() as int);
    if d.raw < VIS_LIMIT_RAW {
        Some(
            HitRecord {
                point: hit_point(orig, dir, d),
                normal: hit_normal(spheres[j], hit_point(orig, dir, d)),
                material: spheres[j].material,
            },
        )
    } else {
        None
    }
}

/// The scan's distance and index agree: a nonnegative index points at a
/// sphere whose intersection distance is exactly the scan distance, and a
/// negative index means the sentinel was never beaten.
pub proof fn lemma_scan_wf(spheres: Seq<Sphere>, orig: Vec3, dir: Vec3, n: int)
    requires
        0 <= n <= spheres.len(),
    ensures
        scan_idx(spheres, orig, dir, n) == -1 ==> scan_dist(spheres, orig, dir, n).raw == FX_MAX,
        scan_idx(spheres, orig, dir, n) != -1 ==> {
            let j = scan_idx(spheres, orig, dir, n);
            &&& 0 <= j < n
            &&& spheres[j].spec_ray_intersect(orig, dir) == Some(scan_dist(spheres, orig, dir, n))
        },
    decreases n,
{
    if n > 0 {
        lemma_scan_wf(spheres, orig, dir, n - 1);
    }
}

/// Every scanned sphere's hit distance is at least the scan distance, and
/// spheres before the winning index are strictly farther: on an exact tie
/// the earlier sphere wins.
pub proof fn lemma_scan_first(spheres: Seq<Sphere>, orig: Vec3, dir: Vec3, n: int)
    requires
        0 <= n <= spheres.len(),
    ensures
        forall|k: int|
            0 <= k < n ==> (#[trigger] spheres[k].spec_ray_intersect(orig, dir) matches Some(dk)
                ==> dk.raw >= scan_dist(spheres, orig, dir, n).raw),
        forall|k: int|
            0 <= k < scan_idx(spheres, orig, dir, n) ==> (#[trigger] spheres[k].spec_ray_intersect(
                orig,
                dir,
            ) matches Some(dk) ==> dk.raw > scan_dist(spheres, orig, dir, n).raw),
    decreases n,
{
    if n > 0 {
        lemma_scan_first(spheres, orig, dir, n - 1);
        lemma_scan_wf(spheres, orig, dir, n - 1);
        lemma_scan_wf(spheres, orig, dir, n);
    }
}

/// Nearest-hit selection: a reported hit carries the point, normal and
/// material of the sphere whose hit distance is minimal over the whole
/// scene; on an exact tie, the earliest such sphere in the sequence wins.
pub proof fn lemma_nearest_hit(spheres: Seq<Sphere>, orig: Vec3, dir: Vec3)
    requires
        spec_scene_intersect(orig, dir, spheres) is Some,
    ensures
        ({
            let d = scan_dist(spheres, orig, dir, spheres.len() as int);
            let j = scan_idx(spheres, orig, dir, spheres.len() as int);
            &&& 0 <= j < spheres.len()
            &&& spheres[j].spec_ray_intersect(orig, dir) == Some(d)
            &&& (spec_scene_intersect(orig, dir, spheres) matches Some(h) ==> h.material
                == spheres[j].material && h.point == hit_point(orig, dir, d))
            &&& forall|k: int|
                0 <= k < spheres.len() ==> (#[trigger] spheres[k].spec_ray_intersect(
                    orig,
                    dir,
                ) matches Some(dk) ==> dk.raw >= d.raw)
            &&& forall|k: int|
                0 <= k < j ==> (#[trigger] spheres[k].spec_ray_intersect(orig, dir) matches Some(
                    dk,
                ) ==> dk.raw > d.raw)
        }),
{
    let n = spheres.len() as int;
    lemma_scan_wf(spheres, orig, dir, n);
    lemma_scan_first(spheres, orig, dir, n);
    assert(scan_dist(spheres, orig, dir, n).raw < VIS_LIMIT_RAW);
    assert(scan_idx(spheres, orig, dir, n) != -1);
}

/// Linear scan for the nearest visible hit; see [`spec_scene_intersect`].
pub fn scene_intersect(orig: Vec3, dir: Vec3, spheres: &Vec<Sphere>) -> (r: Option<HitRecord>)
    ensures
        r == spec_scene_intersect(orig, dir, spheres@),
{
    let mut sphere_dist = Fx { raw: FX_MAX };
    let mut hit = Vec3::zero();
    let mut big_n = Vec3::zero();
    let mut material = Material {
        refractive_index: Fx { raw: 0 },
        albedo: Vec4 { x: Fx { raw: 0 }, y: Fx { raw: 0 }, z: Fx { raw: 0 }, w: Fx { raw: 0 } },
        diffuse_color: Vec3 { x: Fx { raw: 0 }, y: Fx { raw: 0 }, z: Fx { raw: 0 } },
        specular_exponent: 0,
    };
    let mut i: usize = 0;
    while i < spheres.len()
        invariant
            i <= spheres@.len(),
            sphere_dist == scan_dist(spheres@, orig, dir, i as int),
            scan_idx(spheres@, orig, dir, i as int) != -1 ==> {
                let j = scan_idx(spheres@, orig, dir, i as int);
                &&& hit == hit_point(orig, dir, sphere_dist)
                &&& big_n == hit_normal(spheres@[j], hit)
                &&& material == spheres@[j].material
            },
        decreases spheres@.len() - i,
    {
        let s = &spheres[i];
        match s.ray_intersect(orig, dir) {
            Some(dist) => {
                if dist.raw < sphere_dist.raw {
                    sphere_dist = dist;
                    hit = orig.add(dir.scale(dist));
                    big_n = hit.sub(s.center).normalize();
                    material = s.material;
                }
            },
            None => {},
        }
        i = i + 1;
    }
    proof {
        lemma_scan_wf(spheres@, orig, dir, spheres@.len() as int);
    }
    if sphere_dist.raw < VIS_LIMIT_RAW {
        Some(HitRecord { point: hit, normal: big_n, material })
    } else {
        None
    }
}

/// A ray whose squared closest approach to the center exceeds the squared
/// radius reports no intersection.
pub proof fn lemma_ray_miss(s: Sphere, orig: Vec3, dir: Vec3)
    requires
        s.spec_d2(orig, dir).raw > s.spec_r2().raw,
    ensures
        s.spec_ray_intersect(orig, dir) is None,
{
}

/// A sphere entirely behind the ray origin (both roots negative) reports
/// no intersection.
pub proof fn lemma_ray_behind(s: Sphere, orig: Vec3, dir: Vec3)
    requires
        s.spec_t1(orig, dir).raw < 0,
    ensures
        s.spec_ray_intersect(orig, dir) is None,
{
    lemma_sqrt_raw_bounds(spec_sub(s.spec_r2(), s.spec_d2(orig, dir)).raw as int);
}

/// A ray starting inside a sphere (near root negative, far root not)
/// reports the far intersection distance.
pub proof fn lemma_ray_inside(s: Sphere, orig: Vec3, dir: Vec3)
    requires
        s.spec_d2(orig, dir).raw <= s.spec_r2().raw,
        s.spec_t0(orig, dir).raw < 0,
        s.spec_t1(orig, dir).raw >= 0,
    ensures
        s.spec_ray_intersect(orig, dir) == Some(s.spec_t1(orig, dir)),
{
}

/// Axis-aligned intersection distance: a sphere at the origin of whole
/// radius `k` (under 10), met by a ray from `(0,0,-10)` toward `(0,0,1)`,
/// is hit at exactly distance `10 - k`.
pub proof fn lemma_axis_hit_distance(s: Sphere, k: int)
    requires
        1 <= k <= 9,
        s.center == (Vec3 { x: Fx { raw: 0 }, y: Fx { raw: 0 }, z: Fx { raw: 0 } }),
        s.radius.raw == k * FX_SCALE,
    ensures
        s.spec_ray_intersect(
            Vec3 { x: Fx { raw: 0 }, y: Fx { raw: 0 }, z: Fx { raw: -655360i64 } },
            Vec3 { x: Fx { raw: 0 }, y: Fx { raw: 0 }, z: Fx { raw: FX_SCALE } },
        ) == Some(Fx { raw: ((10 - k) * FX_SCALE) as i64 }),
{
    let orig = Vec3 { x: Fx { raw: 0 }, y: Fx { raw: 0 }, z: Fx { raw: -655360i64 } };
    let dir = Vec3 { x: Fx { raw: 0 }, y: Fx { raw: 0 }, z: Fx { raw: FX_SCALE } };
    let big_l = s.center.spec_sub(orig);
    assert(big_l == (Vec3 { x: Fx { raw: 0 }, y: Fx { raw: 0 }, z: Fx { raw: 655360 } }));
    assert(655360i64 * 65536i64 == 42949672960);
    assert(s.spec_tca(orig, dir).raw == 10 * FX_SCALE);
    assert(big_l.spec_dot(big_l).raw == 100 * FX_SCALE);
    assert(s.spec_d2(orig, dir).raw == 0);
    // the squared radius: (k*S * k*S) / S == k*k*S
    assert((k * FX_SCALE) * (k * FX_SCALE) == (k * k * FX_SCALE) * FX_SCALE) by (nonlinear_arith);
    assert(1 <= k * k <= 81) by (nonlinear_arith)
        requires
            1 <= k <= 9,
    ;
    vstd::arithmetic::div_mod::lemma_div_multiples_vanish(k * k * FX_SCALE, FX_SCALE as int);
    assert(FX_SCALE as int * (k * k * FX_SCALE) == (k * k * FX_SCALE) * FX_SCALE) by (nonlinear_arith);
    assert(s.spec_r2().raw == k * k * FX_SCALE);
    // the half-chord: isqrt(k*k*S*S) == k*S
    let n = (k * k * FX_SCALE) * FX_SCALE;
    assert((k * FX_SCALE) * (k * FX_SCALE) == n);
    assert(n < (k * FX_SCALE + 1) * (k * FX_SCALE + 1)) by (nonlinear_arith)
        requires
            n == (k * FX_SCALE) * (k * FX_SCALE),
            k >= 1,
    ;
    assert(is_isqrt(n, k * FX_SCALE));
    lemma_isqrt_unique(n, k * FX_SCALE);
    assert(s.spec_thc(orig, dir).raw == k * FX_SCALE);
    assert(s.spec_t0(orig, dir).raw == (10 - k) * FX_SCALE);
}

} // verus!
