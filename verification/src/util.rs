//! Vector utilities shared by the geometry, the materials and the camera.

use crate::scalar::{clamp, lemma_mul_two, lemma_mul_unit, Fixed, SCALE};
use crate::vec3::Vec3;
use vstd::prelude::*;

verus! {

/// A component is negligible when its magnitude is below this many raw units,
/// which is one hundred-millionth.
pub const NEAR_ZERO: i64 = 10;

/// Every component is negligible.
pub open spec fn spec_near_zero(v: Vec3) -> bool {
    &&& -NEAR_ZERO < v.x.raw < NEAR_ZERO
    &&& -NEAR_ZERO < v.y.raw < NEAR_ZERO
    &&& -NEAR_ZERO < v.z.raw < NEAR_ZERO
}

/// The product taken component by component.
pub open spec fn spec_component_mult(v1: Vec3, v2: Vec3) -> Vec3 {
    Vec3 { x: v1.x.spec_mul(v2.x), y: v1.y.spec_mul(v2.y), z: v1.z.spec_mul(v2.z) }
}

/// `v` mirrored in the plane whose normal is `normal`: `v - 2 (v . normal) normal`.
pub open spec fn spec_reflect(v: Vec3, normal: Vec3) -> Vec3 {
    v.spec_sub(normal.spec_mul(Fixed::spec_from_int(2).spec_mul(v.spec_dot(normal))))
}

/// The cosine that `refract` works with: `-(v . normal)`, at most 1.
pub open spec fn spec_cos_theta(v: Vec3, normal: Vec3) -> Fixed {
    v.spec_dot(normal).spec_neg().spec_min(Fixed::spec_one())
}

/// The part of the refracted direction that lies in the surface.
pub open spec fn spec_refract_perp(v: Vec3, normal: Vec3, ratio: Fixed) -> Vec3 {
    v.spec_add(normal.spec_mul(spec_cos_theta(v, normal))).spec_mul(ratio)
}

/// The part of the refracted direction along the normal.
pub open spec fn spec_refract_parallel(v: Vec3, normal: Vec3, ratio: Fixed) -> Vec3 {
    normal.spec_mul(
        Fixed::spec_one().spec_sub(
            spec_refract_perp(v, normal, ratio).spec_length_squared(),
        ).spec_abs().spec_sqrt().spec_neg(),
    )
}

/// `v` bent through the surface whose normal is `normal`, for the given ratio
/// of refractive indices.
pub open spec fn spec_refract(v: Vec3, normal: Vec3, ratio: Fixed) -> Vec3 {
    spec_refract_perp(v, normal, ratio).spec_add(spec_refract_parallel(v, normal, ratio))
}

/// `n` is one of the six unit vectors along an axis.
pub open spec fn spec_axis_unit(n: Vec3) -> bool {
    ||| (n.x.raw == SCALE || n.x.raw == -SCALE) && n.y.raw == 0 && n.z.raw == 0
    ||| n.x.raw == 0 && (n.y.raw == SCALE || n.y.raw == -SCALE) && n.z.raw == 0
    ||| n.x.raw == 0 && n.y.raw == 0 && (n.z.raw == SCALE || n.z.raw == -SCALE)
}

/// No component is so large that doubling it would be clamped.
pub open spec fn spec_doubles(v: Vec3) -> bool {
    &&& -0x2000_0000_0000_0000 <= v.x.raw <= 0x2000_0000_0000_0000
    &&& -0x2000_0000_0000_0000 <= v.y.raw <= 0x2000_0000_0000_0000
    &&& -0x2000_0000_0000_0000 <= v.z.raw <= 0x2000_0000_0000_0000
}

/// The squared length of `v`.
pub fn length_squared(v: &Vec3) -> (r: Fixed)
    ensures
        r == v.spec_length_squared(),
{
    v.dot(v)
}

/// The length of `v`.
pub fn length(v: &Vec3) -> (r: Fixed)
    ensures
        r == v.spec_length(),
{
    v.length()
}

/// The vector with the direction of `v` and length 1. No component of the
/// result is above 1 in magnitude, and its length is 1 or at most four raw
/// units less.
pub fn unit_vector(v: &Vec3) -> (r: Vec3)
    requires
        v.spec_length().raw != 0,
    ensures
        r == v.spec_unit_vector(),
        -SCALE <= r.x.raw <= SCALE,
        -SCALE <= r.y.raw <= SCALE,
        -SCALE <= r.z.raw <= SCALE,
        SCALE - 4 <= r.spec_length().raw <= SCALE,
{
    v.unit_vector()
}

/// Whether every component is negligible.
pub fn near_zero(v: Vec3) -> (r: bool)
    ensures
        r == spec_near_zero(v),
{
    -NEAR_ZERO < v.x.raw && v.x.raw < NEAR_ZERO && -NEAR_ZERO < v.y.raw && v.y.raw < NEAR_ZERO
        && -NEAR_ZERO < v.z.raw && v.z.raw < NEAR_ZERO
}

/// The product taken component by component.
pub fn component_mult(v1: Vec3, v2: Vec3) -> (r: Vec3)
    ensures
        r == spec_component_mult(v1, v2),
{
    Vec3::new(v1.x.mul(v2.x), v1.y.mul(v2.y), v1.z.mul(v2.z))
}

/// `v` mirrored in the plane whose normal is `normal`.
pub fn reflect(v: Vec3, normal: Vec3) -> (r: Vec3)
    ensures
        r == spec_reflect(v, normal),
{
    v - normal * (Fixed::from_int(2) * v.dot(&normal))
}

/// `v` bent through the surface whose normal is `normal`.
pub fn refract(v: Vec3, normal: Vec3, ratio: Fixed) -> (r: Vec3)
    ensures
        r == spec_refract(v, normal, ratio),
{
    let cos_theta = v.dot(&normal).neg().min(Fixed::one());
    let r_out_perp = (v + normal * cos_theta) * ratio;
    let r_out_parallel = normal * (Fixed::one() - length_squared(&r_out_perp)).abs().sqrt().neg();
    r_out_perp + r_out_parallel
}

/// Reflecting in an axis-aligned unit normal negates the component along
/// that axis and keeps the other two.
pub proof fn lemma_reflect_axis(v: Vec3, n: Vec3)
    requires
        spec_axis_unit(n),
        spec_doubles(v),
    ensures
        n.x.raw != 0 ==> spec_reflect(v, n) == (Vec3 { x: v.x.spec_neg(), y: v.y, z: v.z }),
        n.y.raw != 0 ==> spec_reflect(v, n) == (Vec3 { x: v.x, y: v.y.spec_neg(), z: v.z }),
        n.z.raw != 0 ==> spec_reflect(v, n) == (Vec3 { x: v.x, y: v.y, z: v.z.spec_neg() }),
        spec_doubles(spec_reflect(v, n)),
        n.x.raw != 0 ==> v.spec_dot(n).raw == (if n.x.raw > 0 { v.x.raw as int } else { -v.x.raw }),
        n.y.raw != 0 ==> v.spec_dot(n).raw == (if n.y.raw > 0 { v.y.raw as int } else { -v.y.raw }),
        n.z.raw != 0 ==> v.spec_dot(n).raw == (if n.z.raw > 0 { v.z.raw as int } else { -v.z.raw }),
{
    lemma_mul_unit(v.x);
    lemma_mul_unit(v.y);
    lemma_mul_unit(v.z);
    let d = v.spec_dot(n);
    let k = Fixed::spec_from_int(2).spec_mul(d);
    lemma_mul_two(d);
    lemma_mul_unit(k);
}

/// Reflecting twice in the same axis-aligned unit normal gives the vector
/// back, and so leaves its component along the normal as it was.
pub proof fn lemma_reflect_twice(v: Vec3, n: Vec3)
    requires
        spec_axis_unit(n),
        spec_doubles(v),
    ensures
        spec_reflect(spec_reflect(v, n), n) == v,
        spec_reflect(spec_reflect(v, n), n).spec_dot(n) == v.spec_dot(n),
{
    lemma_reflect_axis(v, n);
    lemma_reflect_axis(spec_reflect(v, n), n);
}

} // verus!
