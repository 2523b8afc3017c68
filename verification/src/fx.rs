//! Saturating fixed-point scalars.
//!
//! An [`Fx`] stores a value as a signed 64-bit integer `raw` denoting the
//! real number `raw / FX_SCALE`. Every operation is total: results outside
//! the representable range saturate at [`FX_MAX`] / [`FX_MIN`] instead of
//! wrapping, and the degenerate cases (division by zero, square root of a
//! negative) have fixed documented results. Each executable operation is
//! pinned to a spec-level mirror (`spec_add`, `spec_mul`, ...) stated over
//! mathematical integers.

use vstd::prelude::*;

verus! {

/// Raw units per one: a value is `raw / FX_SCALE`.
pub const FX_SCALE: i64 = 65536;

/// Largest raw value; arithmetic saturates here instead of overflowing.
pub const FX_MAX: i64 = 9223372036854775807;

/// Smallest raw value; kept symmetric to `FX_MAX` so negation never
/// saturates a representable value.
pub const FX_MIN: i64 = -9223372036854775807;

/// A fixed-point number: the real value `raw / FX_SCALE`.
#[derive(Clone, Copy, PartialEq, Eq, Structural, Debug)]
pub struct Fx {
    pub raw: i64,
}

/// Clamp a mathematical integer into the representable raw range.
pub open spec fn sat(v: int) -> int {
    if v > FX_MAX {
        FX_MAX as int
    } else if v < FX_MIN {
        FX_MIN as int
    } else {
        v
    }
}

/// Division truncating toward zero (the rounding of hardware division),
/// stated through magnitudes so only nonnegative euclidean division occurs.
pub open spec fn tdiv(p: int, q: int) -> int
    recommends
        q != 0,
{
    let pp = if p < 0 { -p } else { p };
    let qq = if q < 0 { -q } else { q };
    let m = pp / qq;
    if (p < 0) != (q < 0) {
        -m
    } else {
        m
    }
}

/// The fixed-point value whose raw integer is `v`, saturated into range.
pub open spec fn fx(v: int) -> Fx {
    Fx { raw: sat(v) as i64 }
}

/// Raw-level saturating addition.
pub open spec fn spec_add(a: Fx, b: Fx) -> Fx {
    fx(a.raw + b.raw)
}

/// Raw-level saturating subtraction.
pub open spec fn spec_sub(a: Fx, b: Fx) -> Fx {
    fx(a.raw - b.raw)
}

/// Raw-level negation (total because the range is symmetric).
pub open spec fn spec_neg(a: Fx) -> Fx {
    fx(-a.raw)
}

/// Raw-level product: `(a*b)/FX_SCALE` truncated toward zero, saturated.
pub open spec fn spec_mul(a: Fx, b: Fx) -> Fx {
    fx(tdiv(a.raw * b.raw, FX_SCALE as int))
}

/// Raw-level quotient: `(a*FX_SCALE)/b` truncated toward zero, saturated.
/// Division by zero saturates toward the sign of the dividend (zero over
/// zero is zero), standing in for the infinities of real division.
pub open spec fn spec_div(a: Fx, b: Fx) -> Fx {
    if b.raw == 0 {
        if a.raw > 0 {
            Fx { raw: FX_MAX }
        } else if a.raw < 0 {
            Fx { raw: FX_MIN }
        } else {
            Fx { raw: 0 }
        }
    } else {
        fx(tdiv(a.raw * FX_SCALE, b.raw as int))
    }
}

/// The smaller of two values.
pub open spec fn spec_min(a: Fx, b: Fx) -> Fx {
    if a.raw <= b.raw {
        a
    } else {
        b
    }
}

/// The larger of two values.
pub open spec fn spec_max(a: Fx, b: Fx) -> Fx {
    if a.raw >= b.raw {
        a
    } else {
        b
    }
}

/// `r` is the integer square root of `n`.
pub open spec fn is_isqrt(n: int, r: int) -> bool {
    0 <= r && r * r <= n && n < (r + 1) * (r + 1)
}

/// The integer square root of `n` (meaningful for `n >= 0`, where it
/// exists and is unique; see `lemma_isqrt_exists`).
pub open spec fn isqrt(n: int) -> int {
    choose|r: int| is_isqrt(n, r)
}

/// Raw value of the fixed-point square root: `isqrt(v * FX_SCALE)`, since
/// `sqrt(v/S) = sqrt(v*S)/S`. Nonpositive inputs give zero.
pub open spec fn sqrt_raw(v: int) -> int {
    if v <= 0 {
        0
    } else {
        isqrt(v * FX_SCALE)
    }
}

/// Fixed-point square root.
pub open spec fn spec_sqrt(a: Fx) -> Fx {
    fx(sqrt_raw(a.raw as int))
}

/// Base raised to a nonnegative integer power, one saturating product per
/// step; the empty product is one.
pub open spec fn spec_pow(b: Fx, e: int) -> Fx
    decreases e,
{
    if e <= 0 {
        Fx { raw: FX_SCALE }
    } else {
        spec_mul(spec_pow(b, e - 1), b)
    }
}

/// An integer square root exists for every nonnegative integer.
pub proof fn lemma_isqrt_exists(n: int)
    requires
        n >= 0,
    ensures
        exists|r: int| is_isqrt(n, r),
    decreases n,
{
    if n == 0 {
        assert(is_isqrt(0, 0));
    } else {
        lemma_isqrt_exists(n - 1);
        let r = isqrt(n - 1);
        assert(is_isqrt(n - 1, r));
        if n < (r + 1) * (r + 1) {
            assert(is_isqrt(n, r));
        } else {
            assert((r + 1) * (r + 1) == n);
            assert((r + 2) * (r + 2) > n) by (nonlinear_arith)
                requires
                    r >= 0,
                    (r + 1) * (r + 1) == n,
            ;
            assert(is_isqrt(n, r + 1));
        }
    }
}

/// The integer square root is unique, so any witness equals `isqrt(n)`.
pub proof fn lemma_isqrt_unique(n: int, r: int)
    requires
        is_isqrt(n, r),
    ensures
        isqrt(n) == r,
{
    assert(exists|x: int| is_isqrt(n, x));
    let s = isqrt(n);
    assert(is_isqrt(n, s));
    if s < r {
        assert((s + 1) * (s + 1) <= r * r) by (nonlinear_arith)
            requires
                0 <= s,
                s + 1 <= r,
        ;
        assert(false);
    }
    if r < s {
        assert((r + 1) * (r + 1) <= s * s) by (nonlinear_arith)
            requires
                0 <= r,
                r + 1 <= s,
        ;
        assert(false);
    }
}

/// The square root's raw value is nonnegative, within range, and is the
/// integer square root of `v * FX_SCALE` when `v` is positive.
pub proof fn lemma_sqrt_raw_bounds(v: int)
    requires
        v <= FX_MAX,
    ensures
        0 <= sqrt_raw(v) < 0x10000000000,
        v > 0 ==> is_isqrt(v * FX_SCALE, sqrt_raw(v)),
{
    if v > 0 {
        lemma_isqrt_exists(v * FX_SCALE);
        let r = sqrt_raw(v);
        assert(is_isqrt(v * FX_SCALE, r));
        assert(v * FX_SCALE < 0x10000000000 * 0x10000000000);
        if r >= 0x10000000000 {
            assert(r * r >= 0x10000000000 * 0x10000000000) by (nonlinear_arith)
                requires
                    r >= 0x10000000000,
            ;
            assert(false);
        }
    }
}

/// Adding zero changes nothing (for values in the saturating range, which
/// excludes only the raw value `i64::MIN`).
pub proof fn lemma_add_zero(a: Fx)
    requires
        a.raw >= FX_MIN,
    ensures
        spec_add(a, Fx { raw: 0 }) == a,
        spec_add(Fx { raw: 0 }, a) == a,
{
}

/// Clamp a wide intermediate into the raw range.
fn clamp_wide(p: i128) -> (r: i64)
    ensures
        r as int == sat(p as int),
{
    if p > FX_MAX as i128 {
        FX_MAX
    } else if p < FX_MIN as i128 {
        FX_MIN
    } else {
        p as i64
    }
}

/// Magnitude of a raw value, widened so `i64::MIN` is no special case.
fn abs_wide(v: i64) -> (r: u128)
    ensures
        r as int == if v < 0 { -(v as int) } else { v as int },
{
    if v < 0 {
        (-(v as i128)) as u128
    } else {
        v as u128
    }
}

impl Fx {
    /// The value zero.
    pub fn zero() -> (r: Fx)
        ensures
            r == (Fx { raw: 0 }),
    {
        Fx { raw: 0 }
    }

    /// The value one.
    pub fn one() -> (r: Fx)
        ensures
            r == (Fx { raw: FX_SCALE }),
    {
        Fx { raw: FX_SCALE }
    }

    /// The value with the given raw integer (exact).
    pub fn from_raw(raw: i64) -> (r: Fx)
        ensures
            r == (Fx { raw: raw }),
    {
        Fx { raw }
    }

    /// The whole number `v`, saturated into range.
    pub fn from_int(v: i64) -> (r: Fx)
        ensures
            r == fx(v * FX_SCALE),
    {
        let p: i128 = (v as i128) * 65536;
        Fx { raw: clamp_wide(p) }
    }

    /// The ratio `n / d` of two whole numbers.
    pub fn from_ratio(n: i64, d: i64) -> (r: Fx)
        ensures
            r == spec_div(fx(n * FX_SCALE), fx(d * FX_SCALE)),
    {
        Fx::from_int(n).div(Fx::from_int(d))
    }

    /// Saturating addition.
    pub fn add(self, other: Fx) -> (r: Fx)
        ensures
            r == spec_add(self, other),
    {
        let p: i128 = (self.raw as i128) + (other.raw as i128);
        Fx { raw: clamp_wide(p) }
    }

    /// Saturating subtraction.
    pub fn sub(self, other: Fx) -> (r: Fx)
        ensures
            r == spec_sub(self, other),
    {
        let p: i128 = (self.raw as i128) - (other.raw as i128);
        Fx { raw: clamp_wide(p) }
    }

    /// Negation.
    pub fn neg(self) -> (r: Fx)
        ensures
            r == spec_neg(self),
    {
        let p: i128 = -(self.raw as i128);
        Fx { raw: clamp_wide(p) }
    }

    /// Saturating fixed-point product.
    pub fn mul(self, other: Fx) -> (r: Fx)
        ensures
            r == spec_mul(self, other),
    {
        let negative: bool = (self.raw < 0) != (other.raw < 0);
        let aa: u128 = abs_wide(self.raw);
        let bb: u128 = abs_wide(other.raw);
        proof {
            assert(aa * bb <= 0x8000000000000000 * 0x8000000000000000) by (nonlinear_arith)
                requires
                    aa <= 0x8000000000000000,
                    bb <= 0x8000000000000000,
            ;
        }
        let prod: u128 = aa * bb;
        let q: u128 = prod / 65536;
        proof {
            lemma_abs_product(self.raw as int, other.raw as int, aa as int, bb as int);
        }
        Fx { raw: sign_clamp(negative, q) }
    }

    /// Saturating fixed-point quotient; division by zero saturates toward
    /// the dividend's sign.
    pub fn div(self, other: Fx) -> (r: Fx)
        ensures
            r == spec_div(self, other),
    {
        if other.raw == 0 {
            if self.raw > 0 {
                Fx { raw: FX_MAX }
            } else if self.raw < 0 {
                Fx { raw: FX_MIN }
            } else {
                Fx { raw: 0 }
            }
        } else {
            let negative: bool = (self.raw < 0) != (other.raw < 0);
            let aa: u128 = abs_wide(self.raw);
            let bb: u128 = abs_wide(other.raw);
            let num: u128 = aa * 65536;
            let q: u128 = num / bb;
            proof {
                lemma_abs_product(self.raw as int, FX_SCALE as int, aa as int, FX_SCALE as int);
            }
            Fx { raw: sign_clamp(negative, q) }
        }
    }

    /// Fixed-point square root; nonpositive inputs give zero.
    pub fn sqrt(self) -> (r: Fx)
        ensures
            r == spec_sqrt(self),
    {
        if self.raw <= 0 {
            return Fx { raw: 0 };
        }
        let n: u128 = (self.raw as u128) * 65536;
        let mut lo: u128 = 0;
        let mut hi: u128 = 0x10000000000;
        proof {
            assert(n <= 0x7FFFFFFFFFFFFFFF0000u128);
            assert((n as int) < 0x10000000000 * 0x10000000000) by (nonlinear_arith)
                requires
                    n <= 0x7FFFFFFFFFFFFFFF0000u128,
            ;
        }
        while lo + 1 < hi
            invariant
                lo < hi <= 0x10000000000,
                lo * lo <= n as int,
                (n as int) < hi * hi,
            decreases hi - lo,
        {
            let mid: u128 = lo + (hi - lo) / 2;
            proof {
                assert(mid * mid <= 0x10000000000 * 0x10000000000) by (nonlinear_arith)
                    requires
                        mid <= 0x10000000000,
                ;
            }
            if mid * mid <= n {
                lo = mid;
            } else {
                hi = mid;
            }
        }
        proof {
            assert(is_isqrt(n as int, lo as int));
            lemma_isqrt_unique(n as int, lo as int);
            assert(n as int == (self.raw as int) * FX_SCALE);
        }
        Fx { raw: lo as i64 }
    }

    /// The smaller of two values.
    pub fn min(self, other: Fx) -> (r: Fx)
        ensures
            r == spec_min(self, other),
    {
        if self.raw <= other.raw {
            self
        } else {
            other
        }
    }

    /// The larger of two values.
    pub fn max(self, other: Fx) -> (r: Fx)
        ensures
            r == spec_max(self, other),
    {
        if self.raw >= other.raw {
            self
        } else {
            other
        }
    }

    /// Base raised to a nonnegative integer power.
    pub fn pow(self, e: u32) -> (r: Fx)
        ensures
            r == spec_pow(self, e as int),
    {
        let mut r = Fx { raw: FX_SCALE };
        let mut i: u32 = 0;
        while i < e
            invariant
                i <= e,
                r == spec_pow(self, i as int),
            decreases e - i,
        {
            r = r.mul(self);
            i = i + 1;
        }
        r
    }
}

/// The magnitude of a product is the product of the magnitudes.
proof fn lemma_abs_product(a: int, b: int, aa: int, bb: int)
    requires
        aa == if a < 0 { -a } else { a },
        bb == if b < 0 { -b } else { b },
    ensures
        aa * bb == if a * b < 0 { -(a * b) } else { a * b },
        (a * b < 0) <==> (a != 0 && b != 0 && ((a < 0) != (b < 0))),
{
    assert(aa * bb == if a * b < 0 { -(a * b) } else { a * b }) by (nonlinear_arith)
        requires
            aa == if a < 0 { -a } else { a },
            bb == if b < 0 { -b } else { b },
    ;
    assert((a * b < 0) <==> (a != 0 && b != 0 && ((a < 0) != (b < 0)))) by (nonlinear_arith);
}

/// Clamp a nonnegative magnitude into range and apply a sign.
fn sign_clamp(negative: bool, q: u128) -> (r: i64)
    ensures
        r as int == sat(if negative { -(q as int) } else { q as int }),
{
    if q > FX_MAX as u128 {
        if negative {
            FX_MIN
        } else {
            FX_MAX
        }
    } else {
        if negative {
            -(q as i64)
        } else {
            q as i64
        }
    }
}

} // verus!
