//! Three-component vectors over [`Fixed`].
//!
//! Points, directions and colours are all `Vec3`. Each operation is the usual
//! formula, evaluated component by component in the saturating arithmetic of
//! [`Fixed`]; the spec function beside each method is that formula.
//!
//! The length and the unit vector are the exceptions: they are measured on the
//! exact sum of the squares of the raw components, in wide integers, so that a
//! vector a few raw units long is scaled to unit length as well as one of
//! length 1. The squared length is a rounded product like any other.

use crate::precision::lemma_unit_vector;
use crate::scalar::{clamp, isqrt, isqrt_u128, saturate, tdiv, wide_product, Fixed, SCALE};
use vstd::prelude::*;

verus! {

#[derive(Clone, Copy, Debug, PartialEq, Eq, Hash, Structural)]
pub struct Vec3 {
    pub x: Fixed,
    pub y: Fixed,
    pub z: Fixed,
}

/// A vector all of whose components are below this many raw units in
/// magnitude is zoomed before it is measured for scaling to unit length.
pub const SMALL: i64 = 0x8000_0000;

/// The factor by which a small vector is zoomed.
pub const ZOOM: i64 = 0x1_0000_0000;

/// A position.
pub type Point3 = Vec3;

/// Red, green and blue, each nominally between 0 and 1.
pub type Color = Vec3;

impl Vec3 {
    pub open spec fn spec_new(x: Fixed, y: Fixed, z: Fixed) -> Vec3 {
        Vec3 { x, y, z }
    }

    pub open spec fn spec_zero() -> Vec3 {
        Vec3 { x: Fixed::spec_zero(), y: Fixed::spec_zero(), z: Fixed::spec_zero() }
    }

    pub open spec fn spec_add(self, rhs: Vec3) -> Vec3 {
        Vec3 {
            x: self.x.spec_add(rhs.x),
            y: self.y.spec_add(rhs.y),
            z: self.z.spec_add(rhs.z),
        }
    }

    pub open spec fn spec_sub(self, rhs: Vec3) -> Vec3 {
        Vec3 {
            x: self.x.spec_sub(rhs.x),
            y: self.y.spec_sub(rhs.y),
            z: self.z.spec_sub(rhs.z),
        }
    }

    pub open spec fn spec_neg(self) -> Vec3 {
        Vec3 { x: self.x.spec_neg(), y: self.y.spec_neg(), z: self.z.spec_neg() }
    }

    /// Every component times `k`.
    pub open spec fn spec_mul(self, k: Fixed) -> Vec3 {
        Vec3 { x: self.x.spec_mul(k), y: self.y.spec_mul(k), z: self.z.spec_mul(k) }
    }

    /// Every component over `k`. `k` is not zero.
    pub open spec fn spec_div(self, k: Fixed) -> Vec3
        recommends
            k.raw != 0,
    {
        Vec3 { x: self.x.spec_div(k), y: self.y.spec_div(k), z: self.z.spec_div(k) }
    }

    pub open spec fn spec_dot(self, rhs: Vec3) -> Fixed {
        self.x.spec_mul(rhs.x).spec_add(self.y.spec_mul(rhs.y)).spec_add(self.z.spec_mul(rhs.z))
    }

    pub open spec fn spec_cross(self, rhs: Vec3) -> Vec3 {
        Vec3 {
            x: self.y.spec_mul(rhs.z).spec_sub(self.z.spec_mul(rhs.y)),
            y: self.z.spec_mul(rhs.x).spec_sub(self.x.spec_mul(rhs.z)),
            z: self.x.spec_mul(rhs.y).spec_sub(self.y.spec_mul(rhs.x)),
        }
    }

    pub open spec fn spec_length_squared(self) -> Fixed {
        self.spec_dot(self)
    }

    /// The exact sum of the squares of the raw components.
    pub open spec fn spec_exact_squared(self) -> int {
        self.x.raw * self.x.raw + self.y.raw * self.y.raw + self.z.raw * self.z.raw
    }

    /// Every component is below `SMALL` in magnitude.
    pub open spec fn spec_is_small(self) -> bool {
        &&& -SMALL < self.x.raw < SMALL
        &&& -SMALL < self.y.raw < SMALL
        &&& -SMALL < self.z.raw < SMALL
    }

    /// `ZOOM` for a small vector, and 1 for any other.
    pub open spec fn spec_zoom(self) -> int {
        if self.spec_is_small() {
            ZOOM as int
        } else {
            1
        }
    }

    /// The length of the vector times its zoom, in raw units, rounded down.
    pub open spec fn spec_zoomed_length(self) -> int {
        isqrt(self.spec_exact_squared() * (self.spec_zoom() * self.spec_zoom()))
    }

    /// The length: the root of the exact sum of squares, rounded down, and
    /// clamped.
    pub open spec fn spec_length(self) -> Fixed {
        Fixed { raw: clamp(isqrt(self.spec_exact_squared())) as i64 }
    }

    /// The component `c` of the vector over the length of the vector. The
    /// vector is not the zero vector.
    pub open spec fn spec_unit_component(self, c: Fixed) -> Fixed {
        Fixed {
            raw: clamp(tdiv(c.raw * SCALE * self.spec_zoom(), self.spec_zoomed_length())) as i64,
        }
    }

    /// The vector over its own length. Both are zoomed first where the vector
    /// is small, so that a short vector loses no more than a long one. The
    /// vector is not the zero vector.
    pub open spec fn spec_unit_vector(self) -> Vec3
        recommends
            self.spec_length().raw != 0,
    {
        Vec3 {
            x: self.spec_unit_component(self.x),
            y: self.spec_unit_component(self.y),
            z: self.spec_unit_component(self.z),
        }
    }

    pub fn new(x: Fixed, y: Fixed, z: Fixed) -> (r: Vec3)
        ensures
            r == Vec3::spec_new(x, y, z),
    {
        Vec3 { x, y, z }
    }

    /// The vector of three whole numbers.
    pub fn from_ints(x: i32, y: i32, z: i32) -> (r: Vec3)
        ensures
            r == Vec3::spec_new(
                Fixed::spec_from_int(x),
                Fixed::spec_from_int(y),
                Fixed::spec_from_int(z),
            ),
    {
        Vec3 { x: Fixed::from_int(x), y: Fixed::from_int(y), z: Fixed::from_int(z) }
    }

    pub fn zero() -> (r: Vec3)
        ensures
            r == Vec3::spec_zero(),
    {
        Vec3 { x: Fixed::zero(), y: Fixed::zero(), z: Fixed::zero() }
    }

    pub fn x(&self) -> (r: Fixed)
        ensures
            r == self.x,
    {
        self.x
    }

    pub fn y(&self) -> (r: Fixed)
        ensures
            r == self.y,
    {
        self.y
    }

    pub fn z(&self) -> (r: Fixed)
        ensures
            r == self.z,
    {
        self.z
    }

    /// The red channel of a colour.
    pub fn r(&self) -> (r: Fixed)
        ensures
            r == self.x,
    {
        self.x
    }

    /// The green channel of a colour.
    pub fn g(&self) -> (r: Fixed)
        ensures
            r == self.y,
    {
        self.y
    }

    /// The blue channel of a colour.
    pub fn b(&self) -> (r: Fixed)
        ensures
            r == self.z,
    {
        self.z
    }

    pub fn add(self, rhs: Vec3) -> (r: Vec3)
        ensures
            r == self.spec_add(rhs),
    {
        Vec3 { x: self.x.add(rhs.x), y: self.y.add(rhs.y), z: self.z.add(rhs.z) }
    }

    pub fn sub(self, rhs: Vec3) -> (r: Vec3)
        ensures
            r == self.spec_sub(rhs),
    {
        Vec3 { x: self.x.sub(rhs.x), y: self.y.sub(rhs.y), z: self.z.sub(rhs.z) }
    }

    pub fn neg(self) -> (r: Vec3)
        ensures
            r == self.spec_neg(),
    {
        Vec3 { x: self.x.neg(), y: self.y.neg(), z: self.z.neg() }
    }

    pub fn mul(self, k: Fixed) -> (r: Vec3)
        ensures
            r == self.spec_mul(k),
    {
        Vec3 { x: self.x.mul(k), y: self.y.mul(k), z: self.z.mul(k) }
    }

    pub fn div(self, k: Fixed) -> (r: Vec3)
        requires
            k.raw != 0,
        ensures
            r == self.spec_div(k),
    {
        Vec3 { x: self.x.div(k), y: self.y.div(k), z: self.z.div(k) }
    }

    pub fn dot(&self, rhs: &Vec3) -> (r: Fixed)
        ensures
            r == self.spec_dot(*rhs),
    {
        self.x.mul(rhs.x).add(self.y.mul(rhs.y)).add(self.z.mul(rhs.z))
    }

    pub fn cross(&self, rhs: &Vec3) -> (r: Vec3)
        ensures
            r == self.spec_cross(*rhs),
    {
        Vec3 {
            x: self.y.mul(rhs.z).sub(self.z.mul(rhs.y)),
            y: self.z.mul(rhs.x).sub(self.x.mul(rhs.z)),
            z: self.x.mul(rhs.y).sub(self.y.mul(rhs.x)),
        }
    }

    pub fn length_squared(&self) -> (r: Fixed)
        ensures
            r == self.spec_length_squared(),
    {
        self.dot(self)
    }

    /// The exact sum of the squares of the raw components.
    pub fn exact_squared(&self) -> (n: u128)
        ensures
            n == self.spec_exact_squared(),
            n <= 0xc000_0000_0000_0000_0000_0000_0000_0000,
            self.spec_is_small() ==> n < 0xc000_0000_0000_0000,
    {
        let xx: i128 = wide_product(self.x.raw, self.x.raw);
        let yy: i128 = wide_product(self.y.raw, self.y.raw);
        let zz: i128 = wide_product(self.z.raw, self.z.raw);
        proof {
            let x = self.x.raw as int;
            let y = self.y.raw as int;
            let z = self.z.raw as int;
            assert(0 <= x * x && 0 <= y * y && 0 <= z * z) by (nonlinear_arith);
            if self.spec_is_small() {
                assert(x * x < 0x4000_0000_0000_0000 && y * y < 0x4000_0000_0000_0000 && z * z
                    < 0x4000_0000_0000_0000) by (nonlinear_arith)
                    requires
                        -0x8000_0000 < x < 0x8000_0000,
                        -0x8000_0000 < y < 0x8000_0000,
                        -0x8000_0000 < z < 0x8000_0000,
                ;
            }
        }
        xx as u128 + yy as u128 + zz as u128
    }

    /// Whether every component is below `SMALL` in magnitude.
    pub fn is_small(&self) -> (r: bool)
        ensures
            r == self.spec_is_small(),
    {
        -SMALL < self.x.raw && self.x.raw < SMALL && -SMALL < self.y.raw && self.y.raw < SMALL
            && -SMALL < self.z.raw && self.z.raw < SMALL
    }

    /// The length of the vector times its zoom, in raw units, rounded down.
    pub fn zoomed_length(&self) -> (r: u128)
        ensures
            r == self.spec_zoomed_length(),
            r <= 0xffff_ffff_ffff_ffff,
    {
        let n = self.exact_squared();
        if self.is_small() {
            assert(0x1_0000_0000int * 0x1_0000_0000int == 0x1_0000_0000_0000_0000int)
                by (nonlinear_arith);
            isqrt_u128(n * 0x1_0000_0000_0000_0000)
        } else {
            assert(n * (1int * 1int) == n) by (nonlinear_arith);
            isqrt_u128(n)
        }
    }

    /// The length of the vector.
    pub fn length(&self) -> (r: Fixed)
        ensures
            r == self.spec_length(),
    {
        let root: u128 = isqrt_u128(self.exact_squared());
        if root > 0x7fff_ffff_ffff_ffff {
            Fixed { raw: i64::MAX }
        } else {
            Fixed { raw: root as i64 }
        }
    }

    /// One component of the unit vector.
    fn unit_component(&self, c: Fixed, zoomed: u128) -> (r: Fixed)
        requires
            zoomed == self.spec_zoomed_length(),
            0 < zoomed <= 0xffff_ffff_ffff_ffff,
            self.spec_is_small() ==> -SMALL < c.raw < SMALL,
        ensures
            r == self.spec_unit_component(c),
    {
        let scaled: i128 = wide_product(c.raw, SCALE);
        let numerator: i128 = if self.is_small() {
            assert(-0x2000_0000_0000_0000 < scaled < 0x2000_0000_0000_0000) by (nonlinear_arith)
                requires
                    scaled == c.raw * SCALE,
                    -0x8000_0000 < c.raw < 0x8000_0000,
                    SCALE == 1_000_000_000,
            ;
            scaled * 0x1_0000_0000
        } else {
            assert(scaled * 1 == scaled);
            scaled
        };
        let denominator: i128 = zoomed as i128;
        proof {
            crate::scalar::lemma_tdiv_bounded(numerator as int, denominator as int);
        }
        saturate(numerator / denominator)
    }

    /// The vector with the same direction and length 1. No component of the
    /// result is above 1 in magnitude, and its length is 1 or at most four raw
    /// units less.
    pub fn unit_vector(&self) -> (r: Vec3)
        requires
            self.spec_length().raw != 0,
        ensures
            r == self.spec_unit_vector(),
            -SCALE <= r.x.raw <= SCALE,
            -SCALE <= r.y.raw <= SCALE,
            -SCALE <= r.z.raw <= SCALE,
            SCALE - 4 <= r.spec_length().raw <= SCALE,
    {
        let zoomed = self.zoomed_length();
        proof {
            lemma_unit_vector(*self);
        }
        Vec3 {
            x: self.unit_component(self.x, zoomed),
            y: self.unit_component(self.y, zoomed),
            z: self.unit_component(self.z, zoomed),
        }
    }
}

impl Default for Vec3 {
    fn default() -> (r: Vec3)
        ensures
            r == Vec3::spec_zero(),
    {
        Vec3::zero()
    }
}

impl core::ops::Add for Vec3 {
    type Output = Vec3;

    fn add(self, rhs: Vec3) -> (r: Vec3) {
        Vec3::add(self, rhs)
    }
}

impl vstd::std_specs::ops::AddSpecImpl for Vec3 {
    open spec fn obeys_add_spec() -> bool {
        true
    }

    open spec fn add_req(self, rhs: Vec3) -> bool {
        true
    }

    open spec fn add_spec(self, rhs: Vec3) -> Vec3 {
        self.spec_add(rhs)
    }
}

impl core::ops::Sub for Vec3 {
    type Output = Vec3;

    fn sub(self, rhs: Vec3) -> (r: Vec3) {
        Vec3::sub(self, rhs)
    }
}

impl vstd::std_specs::ops::SubSpecImpl for Vec3 {
    open spec fn obeys_sub_spec() -> bool {
        true
    }

    open spec fn sub_req(self, rhs: Vec3) -> bool {
        true
    }

    open spec fn sub_spec(self, rhs: Vec3) -> Vec3 {
        self.spec_sub(rhs)
    }
}

impl core::ops::Mul<Fixed> for Vec3 {
    type Output = Vec3;

    fn mul(self, rhs: Fixed) -> (r: Vec3) {
        Vec3::mul(self, rhs)
    }
}

impl vstd::std_specs::ops::MulSpecImpl<Fixed> for Vec3 {
    open spec fn obeys_mul_spec() -> bool {
        true
    }

    open spec fn mul_req(self, rhs: Fixed) -> bool {
        true
    }

    open spec fn mul_spec(self, rhs: Fixed) -> Vec3 {
        self.spec_mul(rhs)
    }
}

impl core::ops::Div<Fixed> for Vec3 {
    type Output = Vec3;

    fn div(self, rhs: Fixed) -> (r: Vec3) {
        Vec3::div(self, rhs)
    }
}

impl vstd::std_specs::ops::DivSpecImpl<Fixed> for Vec3 {
    open spec fn obeys_div_spec() -> bool {
        true
    }

    open spec fn div_req(self, rhs: Fixed) -> bool {
        rhs.raw != 0
    }

    open spec fn div_spec(self, rhs: Fixed) -> Vec3 {
        self.spec_div(rhs)
    }
}

impl core::ops::Neg for Vec3 {
    type Output = Vec3;

    fn neg(self) -> (r: Vec3) {
        Vec3::neg(self)
    }
}

impl vstd::std_specs::ops::NegSpecImpl for Vec3 {
    open spec fn obeys_neg_spec() -> bool {
        true
    }

    open spec fn neg_req(self) -> bool {
        true
    }

    open spec fn neg_spec(self) -> Vec3 {
        self.spec_neg()
    }
}

} // verus!
