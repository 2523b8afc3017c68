//! Three- and four-component fixed-point vectors.
//!
//! [`Vec3`] carries positions, directions and colors; [`Vec4`] carries the
//! four albedo weights of a material. Componentwise operations, the dot
//! product, the euclidean length and normalization are mirrored exactly by
//! spec functions built from the scalar mirrors in [`crate::fx`].

use vstd::prelude::*;
use crate::fx::Fx;
use crate::fx::spec_add;
use crate::fx::spec_sub;
use crate::fx::spec_neg;
use crate::fx::spec_mul;
use crate::fx::spec_div;
use crate::fx::spec_sqrt;

verus! {

/// A 3-component fixed-point vector.
#[derive(Clone, Copy, PartialEq, Eq, Structural, Debug)]
pub struct Vec3 {
    pub x: Fx,
    pub y: Fx,
    pub z: Fx,
}

/// A 4-component fixed-point vector (the albedo weights of a material).
#[derive(Clone, Copy, PartialEq, Eq, Structural, Debug)]
pub struct Vec4 {
    pub x: Fx,
    pub y: Fx,
    pub z: Fx,
    pub w: Fx,
}

impl Vec3 {
    /// Componentwise sum.
    pub open spec fn spec_add(self, o: Vec3) -> Vec3 {
        Vec3 { x: spec_add(self.x, o.x), y: spec_add(self.y, o.y), z: spec_add(self.z, o.z) }
    }

    /// Componentwise difference.
    pub open spec fn spec_sub(self, o: Vec3) -> Vec3 {
        Vec3 { x: spec_sub(self.x, o.x), y: spec_sub(self.y, o.y), z: spec_sub(self.z, o.z) }
    }

    /// Componentwise negation.
    pub open spec fn spec_neg(self) -> Vec3 {
        Vec3 { x: spec_neg(self.x), y: spec_neg(self.y), z: spec_neg(self.z) }
    }

    /// Each component scaled by `s`.
    pub open spec fn spec_scale(self, s: Fx) -> Vec3 {
        Vec3 { x: spec_mul(self.x, s), y: spec_mul(self.y, s), z: spec_mul(self.z, s) }
    }

    /// Dot product, summed left to right.
    pub open spec fn spec_dot(self, o: Vec3) -> Fx {
        spec_add(
            spec_add(spec_mul(self.x, o.x), spec_mul(self.y, o.y)),
            spec_mul(self.z, o.z),
        )
    }

    /// Euclidean length: the square root of the dot product with itself.
    pub open spec fn spec_length(self) -> Fx {
        spec_sqrt(self.spec_dot(self))
    }

    /// Each component divided by the length. The zero vector has length
    /// zero, so its components saturate by the division-by-zero rule.
    pub open spec fn spec_normalize(self) -> Vec3 {
        let len = self.spec_length();
        Vec3 {
            x: spec_div(self.x, len),
            y: spec_div(self.y, len),
            z: spec_div(self.z, len),
        }
    }

    /// The zero vector.
    pub fn zero() -> (r: Vec3)
        ensures
            r == (Vec3 { x: Fx { raw: 0 }, y: Fx { raw: 0 }, z: Fx { raw: 0 } }),
    {
        Vec3 { x: Fx { raw: 0 }, y: Fx { raw: 0 }, z: Fx { raw: 0 } }
    }

    /// Build a vector from its components.
    pub fn new(x: Fx, y: Fx, z: Fx) -> (r: Vec3)
        ensures
            r == (Vec3 { x, y, z }),
    {
        Vec3 { x, y, z }
    }

    /// Componentwise sum.
    pub fn add(self, o: Vec3) -> (r: Vec3)
        ensures
            r == self.spec_add(o),
    {
        Vec3 { x: self.x.add(o.x), y: self.y.add(o.y), z: self.z.add(o.z) }
    }

    /// Componentwise difference.
    pub fn sub(self, o: Vec3) -> (r: Vec3)
        ensures
            r == self.spec_sub(o),
    {
        Vec3 { x: self.x.sub(o.x), y: self.y.sub(o.y), z: self.z.sub(o.z) }
    }

    /// Componentwise negation.
    pub fn neg(self) -> (r: Vec3)
        ensures
            r == self.spec_neg(),
    {
        Vec3 { x: self.x.neg(), y: self.y.neg(), z: self.z.neg() }
    }

    /// Each component scaled by `s`.
    pub fn scale(self, s: Fx) -> (r: Vec3)
        ensures
            r == self.spec_scale(s),
    {
        Vec3 { x: self.x.mul(s), y: self.y.mul(s), z: self.z.mul(s) }
    }

    /// Dot product.
    pub fn dot(self, o: Vec3) -> (r: Fx)
        ensures
            r == self.spec_dot(o),
    {
        self.x.mul(o.x).add(self.y.mul(o.y)).add(self.z.mul(o.z))
    }

    /// Euclidean length.
    pub fn length(self) -> (r: Fx)
        ensures
            r == self.spec_length(),
    {
        self.dot(self).sqrt()
    }

    /// The unit vector with this direction (componentwise division by the
    /// length; degenerate for the zero vector, as documented on the spec).
    pub fn normalize(self) -> (r: Vec3)
        ensures
            r == self.spec_normalize(),
    {
        let len = self.length();
        Vec3 { x: self.x.div(len), y: self.y.div(len), z: self.z.div(len) }
    }
}

impl Vec4 {
    /// Build a vector from its components.
    pub fn new(x: Fx, y: Fx, z: Fx, w: Fx) -> (r: Vec4)
        ensures
            r == (Vec4 { x, y, z, w }),
    {
        Vec4 { x, y, z, w }
    }
}

} // verus!
