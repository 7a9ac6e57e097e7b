//! Intersections of rays with geometry.
//!
//! A sphere is intersected in raw units of distance along the unit vector of
//! the ray's direction. The discriminant is the squared radius less the squared
//! distance of the centre from the line of the ray, and both squares are exact,
//! so that a sphere of a few raw units is met where a large one would be. The
//! ray parameter is the distance over the length of the direction.

use crate::material::Material;
use crate::ray::Ray;
use crate::precision::lemma_unit_vector;
use crate::scalar::{
    clamp, isqrt, isqrt_u128, lemma_isqrt_bounds, lemma_mul_unit, lemma_tdiv_monotonic, saturate,
    tdiv, wide_product, Fixed, SCALE,
};
use crate::util::{length, unit_vector};
use crate::vec3::{Point3, Vec3};
use vstd::prelude::*;

verus! {

/// Where a ray meets a surface.
#[derive(Clone, Copy, Debug, PartialEq, Eq, Structural)]
pub struct Hit {
    /// The point of intersection.
    pub p: Point3,
    /// The surface normal there, turned against the incoming ray.
    pub normal: Vec3,
    /// The ray parameter of the point.
    pub t: Fixed,
    /// Whether the ray came from outside the surface.
    pub front_face: bool,
    pub material: Material,
}

/// `t` lies in the closed window from `t_min` to `t_max`.
pub open spec fn spec_in_window(t: Fixed, t_min: Fixed, t_max: Fixed) -> bool {
    t_min.raw <= t.raw <= t_max.raw
}

/// `found` if its parameter is at most `bound`, and nothing otherwise.
pub open spec fn spec_within(found: Option<Hit>, bound: Fixed) -> Option<Hit> {
    match found {
        Some(h) => if h.t.raw <= bound.raw {
            Some(h)
        } else {
            None
        },
        None => None,
    }
}

/// The dot product of the raw components, exactly.
pub open spec fn spec_exact_dot(a: Vec3, b: Vec3) -> int {
    a.x.raw * b.x.raw + a.y.raw * b.y.raw + a.z.raw * b.z.raw
}

/// Whether `a` runs against `b`: whether their exact dot product is negative.
/// No product is rounded, so that a short vector runs against what a long one
/// of its direction runs against.
pub fn runs_against(a: &Vec3, b: &Vec3) -> (r: bool)
    ensures
        r == (spec_exact_dot(*a, *b) < 0),
{
    let px: i128 = wide_product(a.x.raw, b.x.raw);
    let py: i128 = wide_product(a.y.raw, b.y.raw);
    let pz: i128 = wide_product(a.z.raw, b.z.raw);
    match px.checked_add(py) {
        Some(two) => match two.checked_add(pz) {
            Some(three) => three < 0,
            None => two < 0,
        },
        None => px < 0,
    }
}

impl Hit {
    /// The hit at `p`, for a normal that points out of the surface: the ray
    /// meets the front face when it runs against that normal, which is when
    /// the exact dot product of the two is negative, and the stored
    /// normal is the outward one or its opposite, whichever faces the ray.
    pub open spec fn spec_new_with_front_face(
        p: Point3,
        t: Fixed,
        r: Ray,
        outward_normal: Vec3,
        material: Material,
    ) -> Hit {
        let front_face = spec_exact_dot(r.direction, outward_normal) < 0;
        Hit {
            p,
            normal: if front_face {
                outward_normal
            } else {
                outward_normal.spec_neg()
            },
            t,
            front_face,
            material,
        }
    }

    /// The hit at `p`, with the normal turned against the ray.
    pub fn new_with_front_face(
        p: Point3,
        t: Fixed,
        r: &Ray,
        outward_normal: Vec3,
        material: Material,
    ) -> (h: Hit)
        ensures
            h == Hit::spec_new_with_front_face(p, t, *r, outward_normal, material),
    {
        let front_face = runs_against(&r.direction, &outward_normal);
        let mut normal = outward_normal;
        if !front_face {
            normal = outward_normal.neg();
        }
        Hit { p, normal, t, front_face, material }
    }
}

/// Anything a ray can meet.
pub trait Hittable {
    /// The shape is fit to be intersected.
    spec fn wf(&self) -> bool;

    /// The intersection of `r` with the shape that `hit` reports for the
    /// window from `t_min` to `t_max`.
    spec fn spec_hit(&self, r: Ray, t_min: Fixed, t_max: Fixed) -> Option<Hit>;

    fn hit(&self, r: &Ray, t_min: Fixed, t_max: Fixed) -> (h: Option<Hit>)
        requires
            self.wf(),
        ensures
            h == self.spec_hit(*r, t_min, t_max),
    ;

    /// A reported hit lies in the window and carries a material that is fit
    /// to scatter, and lowering the upper end of the window to `bound` keeps
    /// the hit where it still fits and reports nothing where it does not.
    proof fn lemma_window(&self, r: Ray, t_min: Fixed, t_max: Fixed, bound: Fixed)
        requires
            self.wf(),
            bound.raw <= t_max.raw,
        ensures
            self.spec_hit(r, t_min, t_max) matches Some(h) ==> spec_in_window(h.t, t_min, t_max)
                && h.material.wf(),
            self.spec_hit(r, t_min, bound) == spec_within(self.spec_hit(r, t_min, t_max), bound),
    ;
}

/// A sphere of one material.
#[derive(Clone, Copy, Debug, PartialEq, Eq, Structural)]
pub struct Sphere {
    pub center: Point3,
    pub radius: Fixed,
    pub material: Material,
}

/// An offset from the centre of a sphere, and a radius, count as at most this
/// many raw units: two to the sixtieth, above a thousand million.
pub const FAR: i64 = 0x1000_0000_0000_0000;

/// `x`, held within `FAR` of 0.
pub open spec fn spec_hold(x: int) -> int {
    if x < -FAR {
        -FAR as int
    } else if x > FAR {
        FAR as int
    } else {
        x
    }
}

/// A component of the offset of a centre from a line counts as at most this
/// many raw units: twice `FAR`.
pub const WIDE: i64 = 0x2000_0000_0000_0000;

/// `x`, held within `WIDE` of 0.
pub open spec fn spec_hold_wide(x: int) -> int {
    if x < -WIDE {
        -WIDE as int
    } else if x > WIDE {
        WIDE as int
    } else {
        x
    }
}

/// `x`, held within `FAR` of 0.
fn hold(x: i128) -> (r: Fixed)
    ensures
        r.raw == spec_hold(x as int),
{
    if x < -(FAR as i128) {
        Fixed { raw: -FAR }
    } else if x > FAR as i128 {
        Fixed { raw: FAR }
    } else {
        Fixed { raw: x as i64 }
    }
}

impl Sphere {
    /// From the centre to the ray's origin, every component held within `FAR`.
    pub open spec fn spec_oc(self, r: Ray) -> Vec3 {
        Vec3 {
            x: Fixed { raw: spec_hold(r.origin.x.raw - self.center.x.raw) as i64 },
            y: Fixed { raw: spec_hold(r.origin.y.raw - self.center.y.raw) as i64 },
            z: Fixed { raw: spec_hold(r.origin.z.raw - self.center.z.raw) as i64 },
        }
    }

    /// The offset of the origin from the centre along the unit vector of the
    /// ray's direction, in raw units: it is the distance to the point of the
    /// ray's line nearest the centre, negated.
    pub open spec fn spec_half_b(self, r: Ray) -> int {
        let oc = self.spec_oc(r);
        let u = r.direction.spec_unit_vector();
        tdiv(oc.x.raw * u.x.raw + oc.y.raw * u.y.raw + oc.z.raw * u.z.raw, SCALE as int)
    }

    /// One component of the offset of the centre from the line of the ray:
    /// the matching component of the cross product of the offset with the
    /// direction, `cross`, over the length of the direction, held within
    /// `WIDE`.
    pub open spec fn spec_beside_part(r: Ray, cross: int) -> int {
        spec_hold_wide(tdiv(cross * r.direction.spec_zoom(), r.direction.spec_zoomed_length()))
    }

    /// The offset of the centre from the line of the ray, in raw units: the
    /// cross product of the offset of the origin with the direction, over the
    /// length of the direction.
    pub open spec fn spec_beside(self, r: Ray) -> (int, int, int) {
        let oc = self.spec_oc(r);
        let d = r.direction;
        (
            Sphere::spec_beside_part(r, oc.y.raw * d.z.raw - oc.z.raw * d.y.raw),
            Sphere::spec_beside_part(r, oc.z.raw * d.x.raw - oc.x.raw * d.z.raw),
            Sphere::spec_beside_part(r, oc.x.raw * d.y.raw - oc.y.raw * d.x.raw),
        )
    }

    /// How far the centre lies from the line of the ray, squared, in squared
    /// raw units.
    pub open spec fn spec_beside_squared(self, r: Ray) -> int {
        let b = self.spec_beside(r);
        b.0 * b.0 + b.1 * b.1 + b.2 * b.2
    }

    /// The squared radius less the squared distance of the centre from the
    /// line of the ray, in squared raw units: negative when the line misses
    /// the sphere.
    pub open spec fn spec_discriminant(self, r: Ray) -> int {
        self.radius.raw * self.radius.raw - self.spec_beside_squared(r)
    }

    /// Half the length of the chord that the sphere cuts from the ray's line,
    /// in raw units: the root of the discriminant.
    pub open spec fn spec_reach(self, r: Ray) -> int {
        isqrt(self.spec_discriminant(r))
    }

    /// The ray parameter of the point that lies `along` raw units of distance
    /// from the origin: `along` over the length of the ray's direction.
    pub open spec fn spec_root(r: Ray, along: int) -> Fixed {
        Fixed {
            raw: clamp(
                tdiv(
                    along * SCALE * r.direction.spec_zoom(),
                    r.direction.spec_zoomed_length(),
                ),
            ) as i64,
        }
    }

    /// The smaller root.
    pub open spec fn spec_near_root(self, r: Ray) -> Fixed {
        Sphere::spec_root(r, -self.spec_half_b(r) - self.spec_reach(r))
    }

    /// The larger root.
    pub open spec fn spec_far_root(self, r: Ray) -> Fixed {
        Sphere::spec_root(r, -self.spec_half_b(r) + self.spec_reach(r))
    }

    /// The outward normal at the point `p` of the surface: the unit vector
    /// from the centre to `p`, which is `(p - center) / radius` for a point at
    /// the distance of the radius, and of length 1 also where rounding has put
    /// `p` a little off. At the centre itself it is the zero vector.
    pub open spec fn spec_outward(self, p: Point3) -> Vec3 {
        let from_centre = p.spec_sub(self.center);
        if from_centre.spec_length().raw != 0 {
            from_centre.spec_unit_vector()
        } else {
            from_centre
        }
    }

    /// The hit at parameter `t`.
    pub open spec fn spec_hit_at(self, r: Ray, t: Fixed) -> Hit {
        let p = r.spec_at(t);
        Hit::spec_new_with_front_face(p, t, r, self.spec_outward(p), self.material)
    }

    /// A sphere with a positive radius.
    pub fn new(center: Point3, radius: Fixed, material: Material) -> (s: Sphere)
        requires
            0 < radius.raw <= FAR,
            material.wf(),
        ensures
            s.wf(),
            s.center == center,
            s.radius == radius,
            s.material == material,
    {
        Sphere { center, radius, material }
    }

    /// The outward normal at the point `p` of the surface. It has length 1,
    /// or at most four raw units less, unless `p` is the centre.
    pub fn outward(&self, p: Point3) -> (n: Vec3)
        ensures
            n == self.spec_outward(p),
            p.spec_sub(self.center).spec_length().raw != 0 ==> SCALE - 4 <= n.spec_length().raw
                <= SCALE,
    {
        let from_centre = p - self.center;
        if length(&from_centre).raw != 0 {
            unit_vector(&from_centre)
        } else {
            from_centre
        }
    }

    /// From the centre to the ray's origin.
    pub fn oc(&self, r: &Ray) -> (v: Vec3)
        ensures
            v == self.spec_oc(*r),
    {
        Vec3 {
            x: hold(r.origin.x.raw as i128 - self.center.x.raw as i128),
            y: hold(r.origin.y.raw as i128 - self.center.y.raw as i128),
            z: hold(r.origin.z.raw as i128 - self.center.z.raw as i128),
        }
    }

    /// The quantities of the quadratic are bounded, and the smaller root is
    /// never above the larger one.
    pub proof fn lemma_roots_ordered(self, r: Ray)
        requires
            0 < self.radius.raw <= FAR,
            r.direction.spec_length().raw != 0,
        ensures
            -0x3000_0000_0000_0000 <= self.spec_half_b(r) <= 0x3000_0000_0000_0000,
            0 <= self.spec_beside_squared(r) <= 0xc00_0000_0000_0000_0000_0000_0000_0000,
            self.spec_discriminant(r) <= 0x100_0000_0000_0000_0000_0000_0000_0000,
            0 <= self.spec_reach(r) <= 0x1000_0000_0000_0000,
            self.spec_discriminant(r) >= 0 ==> self.spec_reach(r) * self.spec_reach(r)
                <= self.spec_discriminant(r) < (self.spec_reach(r) + 1) * (self.spec_reach(r) + 1),
            r.direction.spec_zoomed_length() > 0,
            self.spec_near_root(r).raw <= self.spec_far_root(r).raw,
    {
        lemma_unit_vector(r.direction);
        let oc = self.spec_oc(r);
        let u = r.direction.spec_unit_vector();
        let px = oc.x.raw * u.x.raw;
        let py = oc.y.raw * u.y.raw;
        let pz = oc.z.raw * u.z.raw;
        assert(-0x1000_0000_0000_0000 * 1_000_000_000 <= px <= 0x1000_0000_0000_0000
            * 1_000_000_000) by (nonlinear_arith)
            requires
                px == oc.x.raw * u.x.raw,
                -0x1000_0000_0000_0000 <= oc.x.raw <= 0x1000_0000_0000_0000,
                -1_000_000_000 <= u.x.raw <= 1_000_000_000,
        ;
        assert(-0x1000_0000_0000_0000 * 1_000_000_000 <= py <= 0x1000_0000_0000_0000
            * 1_000_000_000) by (nonlinear_arith)
            requires
                py == oc.y.raw * u.y.raw,
                -0x1000_0000_0000_0000 <= oc.y.raw <= 0x1000_0000_0000_0000,
                -1_000_000_000 <= u.y.raw <= 1_000_000_000,
        ;
        assert(-0x1000_0000_0000_0000 * 1_000_000_000 <= pz <= 0x1000_0000_0000_0000
            * 1_000_000_000) by (nonlinear_arith)
            requires
                pz == oc.z.raw * u.z.raw,
                -0x1000_0000_0000_0000 <= oc.z.raw <= 0x1000_0000_0000_0000,
                -1_000_000_000 <= u.z.raw <= 1_000_000_000,
        ;
        let hb = self.spec_half_b(r);
        assert(-0x3000_0000_0000_0000 <= hb <= 0x3000_0000_0000_0000);
        let rad = self.radius.raw as int;
        assert(0 <= rad * rad <= 0x100_0000_0000_0000_0000_0000_0000_0000) by (nonlinear_arith)
            requires
                0 < rad <= 0x1000_0000_0000_0000,
        ;
        let b = self.spec_beside(r);
        assert(0 <= b.0 * b.0 <= 0x400_0000_0000_0000_0000_0000_0000_0000 && 0 <= b.1 * b.1
            <= 0x400_0000_0000_0000_0000_0000_0000_0000 && 0 <= b.2 * b.2
            <= 0x400_0000_0000_0000_0000_0000_0000_0000) by (nonlinear_arith)
            requires
                -0x2000_0000_0000_0000 <= b.0 <= 0x2000_0000_0000_0000,
                -0x2000_0000_0000_0000 <= b.1 <= 0x2000_0000_0000_0000,
                -0x2000_0000_0000_0000 <= b.2 <= 0x2000_0000_0000_0000,
        ;
        let disc = self.spec_discriminant(r);
        let reach = self.spec_reach(r);
        if disc >= 0 {
            lemma_isqrt_bounds(disc);
            if reach > 0x1000_0000_0000_0000 {
                assert(reach * reach > 0x100_0000_0000_0000_0000_0000_0000_0000)
                    by (nonlinear_arith)
                    requires
                        reach >= 0x1000_0000_0000_0001,
                ;
            }
        }
        let k = r.direction.spec_zoom();
        let len = r.direction.spec_zoomed_length();
        let lo = -hb - reach;
        let hi = -hb + reach;
        assert(lo * SCALE * k <= hi * SCALE * k) by (nonlinear_arith)
            requires
                lo <= hi,
                SCALE > 0,
                k >= 1,
        ;
        lemma_tdiv_monotonic(lo * SCALE * k, hi * SCALE * k, len);
    }

    /// One component of the offset of the centre from the line of the ray.
    fn beside_part(r: &Ray, a: i64, da: i64, b: i64, db: i64, zoomed: u128) -> (part: i128)
        requires
            -FAR <= a <= FAR,
            -FAR <= b <= FAR,
            r.direction.spec_is_small() ==> -0x8000_0000 < da < 0x8000_0000 && -0x8000_0000 < db
                < 0x8000_0000,
            zoomed == r.direction.spec_zoomed_length(),
            0 < zoomed <= 0xffff_ffff_ffff_ffff,
        ensures
            part == Sphere::spec_beside_part(*r, a * da - b * db),
            -WIDE <= part <= WIDE,
    {
        let first: i128 = wide_product(a, da);
        let second: i128 = wide_product(b, db);
        proof {
            assert(-0x800_0000_0000_0000_0000_0000_0000_0000 <= first
                <= 0x800_0000_0000_0000_0000_0000_0000_0000) by (nonlinear_arith)
                requires
                    first == a * da,
                    -0x1000_0000_0000_0000 <= a <= 0x1000_0000_0000_0000,
                    -0x8000_0000_0000_0000 <= da <= 0x8000_0000_0000_0000,
            ;
            assert(-0x800_0000_0000_0000_0000_0000_0000_0000 <= second
                <= 0x800_0000_0000_0000_0000_0000_0000_0000) by (nonlinear_arith)
                requires
                    second == b * db,
                    -0x1000_0000_0000_0000 <= b <= 0x1000_0000_0000_0000,
                    -0x8000_0000_0000_0000 <= db <= 0x8000_0000_0000_0000,
            ;
        }
        let cross: i128 = first - second;
        let numerator: i128 = if r.direction.is_small() {
            proof {
                assert(-0x800_0000_0000_0000_0000_0000 <= first <= 0x800_0000_0000_0000_0000_0000)
                    by (nonlinear_arith)
                    requires
                        first == a * da,
                        -0x1000_0000_0000_0000 <= a <= 0x1000_0000_0000_0000,
                        -0x8000_0000 < da < 0x8000_0000,
                ;
                assert(-0x800_0000_0000_0000_0000_0000 <= second
                    <= 0x800_0000_0000_0000_0000_0000) by (nonlinear_arith)
                    requires
                        second == b * db,
                        -0x1000_0000_0000_0000 <= b <= 0x1000_0000_0000_0000,
                        -0x8000_0000 < db < 0x8000_0000,
                ;
            }
            cross * 0x1_0000_0000
        } else {
            assert(cross * 1 == cross);
            cross
        };
        let denominator: i128 = zoomed as i128;
        proof {
            crate::scalar::lemma_tdiv_bounded(numerator as int, denominator as int);
        }
        let quotient: i128 = numerator / denominator;
        if quotient < -(WIDE as i128) {
            -(WIDE as i128)
        } else if quotient > WIDE as i128 {
            WIDE as i128
        } else {
            quotient
        }
    }

    /// The ray parameter of the point `along` raw units of distance from the
    /// origin.
    fn root(r: &Ray, along: i128, zoomed: u128) -> (t: Fixed)
        requires
            -0x8000_0000_0000_0000 <= along <= 0x8000_0000_0000_0000,
            zoomed == r.direction.spec_zoomed_length(),
            0 < zoomed <= 0xffff_ffff_ffff_ffff,
        ensures
            t == Sphere::spec_root(*r, along as int),
    {
        assert(-0x8000_0000_0000_0000 * 1_000_000_000 <= along * 1_000_000_000
            <= 0x8000_0000_0000_0000 * 1_000_000_000);
        let scaled: i128 = along * (SCALE as i128);
        let numerator: i128 = if r.direction.is_small() {
            scaled * 0x1_0000_0000
        } else {
            assert(scaled * 1 == scaled);
            scaled
        };
        let denominator: i128 = zoomed as i128;
        proof {
            crate::scalar::lemma_tdiv_bounded(numerator as int, denominator as int);
        }
        saturate(numerator / denominator)
    }
}

impl Hittable for Sphere {
    /// The radius is positive and at most `FAR`, and the material is fit to
    /// scatter.
    open spec fn wf(&self) -> bool {
        0 < self.radius.raw <= FAR && self.material.wf()
    }

    /// Nothing for a ray whose direction is the zero vector, and nothing
    /// where the discriminant is negative. Otherwise the hit at the smaller
    /// root if that lies in the window, else at the larger root if that does,
    /// else nothing.
    open spec fn spec_hit(&self, r: Ray, t_min: Fixed, t_max: Fixed) -> Option<Hit> {
        if r.direction.spec_length().raw == 0 || self.spec_discriminant(r) < 0 {
            None
        } else if spec_in_window(self.spec_near_root(r), t_min, t_max) {
            Some(self.spec_hit_at(r, self.spec_near_root(r)))
        } else if spec_in_window(self.spec_far_root(r), t_min, t_max) {
            Some(self.spec_hit_at(r, self.spec_far_root(r)))
        } else {
            None
        }
    }

    fn hit(&self, r: &Ray, t_min: Fixed, t_max: Fixed) -> (h: Option<Hit>) {
        if length(&r.direction).raw == 0 {
            return None;
        }
        proof {
            self.lemma_roots_ordered(*r);
            lemma_unit_vector(r.direction);
        }
        let u = unit_vector(&r.direction);
        let oc = self.oc(r);
        let px: i128 = wide_product(oc.x.raw, u.x.raw);
        let py: i128 = wide_product(oc.y.raw, u.y.raw);
        let pz: i128 = wide_product(oc.z.raw, u.z.raw);
        proof {
            assert(-0x1000_0000_0000_0000 * 1_000_000_000 <= px <= 0x1000_0000_0000_0000
                * 1_000_000_000) by (nonlinear_arith)
                requires
                    px == oc.x.raw * u.x.raw,
                    -0x1000_0000_0000_0000 <= oc.x.raw <= 0x1000_0000_0000_0000,
                    -1_000_000_000 <= u.x.raw <= 1_000_000_000,
            ;
            assert(-0x1000_0000_0000_0000 * 1_000_000_000 <= py <= 0x1000_0000_0000_0000
                * 1_000_000_000) by (nonlinear_arith)
                requires
                    py == oc.y.raw * u.y.raw,
                    -0x1000_0000_0000_0000 <= oc.y.raw <= 0x1000_0000_0000_0000,
                    -1_000_000_000 <= u.y.raw <= 1_000_000_000,
            ;
            assert(-0x1000_0000_0000_0000 * 1_000_000_000 <= pz <= 0x1000_0000_0000_0000
                * 1_000_000_000) by (nonlinear_arith)
                requires
                    pz == oc.z.raw * u.z.raw,
                    -0x1000_0000_0000_0000 <= oc.z.raw <= 0x1000_0000_0000_0000,
                    -1_000_000_000 <= u.z.raw <= 1_000_000_000,
            ;
        }
        let sum: i128 = px + py + pz;
        let half_b: i128 = sum / (SCALE as i128);
        let zoomed = r.direction.zoomed_length();
        let d = r.direction;
        let bx: i128 = Sphere::beside_part(r, oc.y.raw, d.z.raw, oc.z.raw, d.y.raw, zoomed);
        let by: i128 = Sphere::beside_part(r, oc.z.raw, d.x.raw, oc.x.raw, d.z.raw, zoomed);
        let bz: i128 = Sphere::beside_part(r, oc.x.raw, d.y.raw, oc.y.raw, d.x.raw, zoomed);
        let radius_squared: i128 = wide_product(self.radius.raw, self.radius.raw);
        proof {
            let rad = self.radius.raw as int;
            assert(0 <= rad * rad <= 0x100_0000_0000_0000_0000_0000_0000_0000) by (nonlinear_arith)
                requires
                    0 < rad <= 0x1000_0000_0000_0000,
            ;
            assert(0 <= bx * bx <= 0x400_0000_0000_0000_0000_0000_0000_0000 && 0 <= by * by
                <= 0x400_0000_0000_0000_0000_0000_0000_0000 && 0 <= bz * bz
                <= 0x400_0000_0000_0000_0000_0000_0000_0000) by (nonlinear_arith)
                requires
                    -0x2000_0000_0000_0000 <= bx <= 0x2000_0000_0000_0000,
                    -0x2000_0000_0000_0000 <= by <= 0x2000_0000_0000_0000,
                    -0x2000_0000_0000_0000 <= bz <= 0x2000_0000_0000_0000,
            ;
        }
        let discriminant: i128 = radius_squared - (bx * bx + by * by + bz * bz);

        if discriminant < 0 {
            return None;
        }
        let reach: i128 = isqrt_u128(discriminant as u128) as i128;

        // find the root that is within t_min..t_max
        let mut t = Sphere::root(r, -half_b - reach, zoomed);
        if t.raw < t_min.raw || t_max.raw < t.raw {
            t = Sphere::root(r, -half_b + reach, zoomed);
            if t.raw < t_min.raw || t_max.raw < t.raw {
                return None;
            }
        }
        let p = r.at(t);
        let outward_normal = self.outward(p);

        Some(Hit::new_with_front_face(p, t, r, outward_normal, self.material))
    }

    proof fn lemma_window(&self, r: Ray, t_min: Fixed, t_max: Fixed, bound: Fixed) {
        if r.direction.spec_length().raw != 0 {
            self.lemma_roots_ordered(r);
        }
    }
}

/// Exactly one component of `d` is not zero: `d` runs along an axis.
pub open spec fn spec_axis_parallel(d: Vec3) -> bool {
    ||| d.x.raw != 0 && d.y.raw == 0 && d.z.raw == 0
    ||| d.x.raw == 0 && d.y.raw != 0 && d.z.raw == 0
    ||| d.x.raw == 0 && d.y.raw == 0 && d.z.raw != 0
}

/// 1, -1 or 0 in raw units, as `x` is positive, negative or zero.
pub open spec fn spec_sign(x: int) -> int {
    if x > 0 {
        SCALE as int
    } else if x < 0 {
        -SCALE as int
    } else {
        0
    }
}

/// The zoomed length of a vector along an axis is the magnitude of its one
/// component times the zoom, and its unit vector is exact.
proof fn lemma_axis_length(p: int, k: int)
    requires
        p != 0,
        k >= 1,
    ensures
        isqrt((p * p) * (k * k)) > 0,
        tdiv(p * SCALE * k, isqrt((p * p) * (k * k))) == spec_sign(p),
        tdiv(0 * SCALE * k, isqrt((p * p) * (k * k))) == 0,
        isqrt((p * p) * (k * k)) * spec_sign(p) == p * SCALE * k,
{
    let a = if p < 0 {
        -p
    } else {
        p
    };
    let m = a * k;
    assert(m > 0) by (nonlinear_arith)
        requires
            m == a * k,
            a >= 1,
            k >= 1,
    ;
    assert(m * m == (p * p) * (k * k)) by (nonlinear_arith)
        requires
            m == a * k,
            a == p || a == -p,
    ;
    assert(m * m < (m + 1) * (m + 1)) by (nonlinear_arith)
        requires
            m > 0,
    ;
    crate::scalar::lemma_isqrt_unique((p * p) * (k * k), m);
    assert(a * SCALE * k == m * 1_000_000_000) by (nonlinear_arith)
        requires
            m == a * k,
            SCALE == 1_000_000_000,
    ;
    vstd::arithmetic::div_mod::lemma_div_multiples_vanish(1_000_000_000, m);
    let big = m * 1_000_000_000;
    assert(big / m == 1_000_000_000);
    let x = p * SCALE * k;
    if p < 0 {
        assert(x == -(a * SCALE * k)) by (nonlinear_arith)
            requires
                x == p * SCALE * k,
                a == -p,
        ;
    }
    assert(p > 0 ==> x == big);
    assert(p < 0 ==> x == -big);
    assert(big > 0);
    assert(tdiv(x, m) == spec_sign(p));
    assert(0 * SCALE * k == 0) by (nonlinear_arith);
    assert(0int / m == 0) by (nonlinear_arith)
        requires
            m > 0,
    ;
    assert(m * spec_sign(p) == x) by (nonlinear_arith)
        requires
            (p > 0 && spec_sign(p) == 1_000_000_000 && x == m * 1_000_000_000) || (p < 0
                && spec_sign(p) == -1_000_000_000 && x == -(m * 1_000_000_000)),
    ;
}

/// The unit vector of a vector along an axis is the unit vector of that axis,
/// with the sign of the vector's one component.
pub proof fn lemma_axis_unit_vector(v: Vec3)
    requires
        spec_axis_parallel(v),
    ensures
        v.spec_length().raw != 0,
        v.spec_unit_vector() == (Vec3 {
            x: Fixed { raw: spec_sign(v.x.raw as int) as i64 },
            y: Fixed { raw: spec_sign(v.y.raw as int) as i64 },
            z: Fixed { raw: spec_sign(v.z.raw as int) as i64 },
        }),
{
    let k = v.spec_zoom();
    let p = v.x.raw + v.y.raw + v.z.raw;
    lemma_axis_length(p, k);
    assert(v.spec_exact_squared() == p * p) by (nonlinear_arith)
        requires
            spec_axis_parallel(v),
            p == v.x.raw + v.y.raw + v.z.raw,
            v.spec_exact_squared() == v.x.raw * v.x.raw + v.y.raw * v.y.raw + v.z.raw * v.z.raw,
    ;
    assert(p * p > 0) by (nonlinear_arith)
        requires
            p != 0,
    ;
    lemma_isqrt_bounds(p * p);
    let whole = isqrt(p * p);
    assert(whole > 0) by {
        if whole == 0 {
            assert((whole + 1) * (whole + 1) == 1) by (nonlinear_arith)
                requires
                    whole == 0,
            ;
        }
    }
    let u = v.spec_unit_vector();
    assert(u.x.raw == spec_sign(v.x.raw as int));
    assert(u.y.raw == spec_sign(v.y.raw as int));
    assert(u.z.raw == spec_sign(v.z.raw as int));
}

/// For a ray along an axis the unit vector of the direction is exact, and the
/// discriminant is exactly the squared radius less the squared distance of the
/// centre from the line of the ray. So such a ray misses, whatever the window,
/// exactly when its line passes farther from the centre than the radius. A ray
/// through the centre has two roots at the distance to the centre less the
/// radius, and plus the radius, exactly, for every radius; where the direction
/// has length 1 these are the ray parameters.
pub proof fn lemma_axis_ray(sphere: Sphere, r: Ray, t_min: Fixed, t_max: Fixed)
    requires
        0 < sphere.radius.raw <= FAR,
        spec_axis_parallel(r.direction),
    ensures
        r.direction.spec_unit_vector() == (Vec3 {
            x: Fixed { raw: spec_sign(r.direction.x.raw as int) as i64 },
            y: Fixed { raw: spec_sign(r.direction.y.raw as int) as i64 },
            z: Fixed { raw: spec_sign(r.direction.z.raw as int) as i64 },
        }),
        r.direction.spec_length().raw != 0,
        sphere.spec_beside_squared(r) >= 0,
        sphere.spec_beside_squared(r) == sphere.spec_oc(r).spec_exact_squared() - sphere.spec_half_b(
            r,
        ) * sphere.spec_half_b(r),
        sphere.spec_beside_squared(r) > sphere.radius.raw * sphere.radius.raw
            ==> sphere.spec_hit(r, t_min, t_max) is None,
        sphere.spec_beside_squared(r) <= sphere.radius.raw * sphere.radius.raw
            ==> sphere.spec_discriminant(r) >= 0,
        sphere.spec_beside_squared(r) == 0 ==> sphere.spec_reach(r) == sphere.radius.raw,
        r.direction.spec_exact_squared() == 1_000_000_000_000_000_000 ==> {
            &&& sphere.spec_near_root(r).raw == -sphere.spec_half_b(r) - sphere.spec_reach(r)
            &&& sphere.spec_far_root(r).raw == -sphere.spec_half_b(r) + sphere.spec_reach(r)
        },
{
    let d = r.direction;
    let k = d.spec_zoom();
    let p = d.x.raw + d.y.raw + d.z.raw;
    lemma_axis_length(p, k);
    assert(d.spec_exact_squared() == p * p) by (nonlinear_arith)
        requires
            spec_axis_parallel(d),
            p == d.x.raw + d.y.raw + d.z.raw,
            d.spec_exact_squared() == d.x.raw * d.x.raw + d.y.raw * d.y.raw + d.z.raw * d.z.raw,
    ;
    assert(p * p > 0) by (nonlinear_arith)
        requires
            p != 0,
    ;
    lemma_axis_unit_vector(d);
    let u = d.spec_unit_vector();
    let oc = sphere.spec_oc(r);
    let hb = sphere.spec_half_b(r);
    let part = if d.x.raw != 0 {
        oc.x.raw as int
    } else if d.y.raw != 0 {
        oc.y.raw as int
    } else {
        oc.z.raw as int
    };
    let ox = oc.x.raw as int;
    let oy = oc.y.raw as int;
    let oz = oc.z.raw as int;
    let sx = u.x.raw as int;
    let sy = u.y.raw as int;
    let sz = u.z.raw as int;
    let sum = ox * sx + oy * sy + oz * sz;
    assert(sum == part * 1_000_000_000 || sum == part * (-1_000_000_000)) by (nonlinear_arith)
        requires
            sum == ox * sx + oy * sy + oz * sz,
            (part == ox && sy == 0 && sz == 0 && (sx == 1_000_000_000 || sx == -1_000_000_000))
                || (part == oy && sx == 0 && sz == 0 && (sy == 1_000_000_000 || sy
                == -1_000_000_000)) || (part == oz && sx == 0 && sy == 0 && (sz == 1_000_000_000
                || sz == -1_000_000_000)),
    ;
    lemma_scaled_back(part);
    assert(hb == tdiv(sum, 1_000_000_000));
    assert(hb == part || hb == -part);
    assert(hb * hb == part * part) by (nonlinear_arith)
        requires
            hb == part || hb == -part,
    ;
    assert(0 <= oc.x.raw * oc.x.raw && 0 <= oc.y.raw * oc.y.raw && 0 <= oc.z.raw * oc.z.raw)
        by (nonlinear_arith);
    let cx = oy * d.z.raw - oz * d.y.raw;
    let cy = oz * d.x.raw - ox * d.z.raw;
    let cz = ox * d.y.raw - oy * d.x.raw;
    let b = sphere.spec_beside(r);
    if d.z.raw != 0 {
        assert(cx == oy * p && cy == -(ox * p) && cz == 0) by (nonlinear_arith)
            requires
                cx == oy * d.z.raw - oz * d.y.raw,
                cy == oz * d.x.raw - ox * d.z.raw,
                cz == ox * d.y.raw - oy * d.x.raw,
                d.x.raw == 0,
                d.y.raw == 0,
                p == d.z.raw,
        ;
        lemma_axis_part(oy, p, k, cx);
        lemma_axis_part(ox, p, k, cy);
        lemma_axis_part(0, p, k, cz);
        assert(b.0 * b.0 == oy * oy && b.1 * b.1 == ox * ox && b.2 == 0);
    } else if d.x.raw != 0 {
        assert(cx == 0 && cy == oz * p && cz == -(oy * p)) by (nonlinear_arith)
            requires
                cx == oy * d.z.raw - oz * d.y.raw,
                cy == oz * d.x.raw - ox * d.z.raw,
                cz == ox * d.y.raw - oy * d.x.raw,
                d.z.raw == 0,
                d.y.raw == 0,
                p == d.x.raw,
        ;
        lemma_axis_part(0, p, k, cx);
        lemma_axis_part(oz, p, k, cy);
        lemma_axis_part(oy, p, k, cz);
        assert(b.0 == 0 && b.1 * b.1 == oz * oz && b.2 * b.2 == oy * oy);
    } else {
        assert(cx == -(oz * p) && cy == 0 && cz == ox * p) by (nonlinear_arith)
            requires
                cx == oy * d.z.raw - oz * d.y.raw,
                cy == oz * d.x.raw - ox * d.z.raw,
                cz == ox * d.y.raw - oy * d.x.raw,
                d.z.raw == 0,
                d.x.raw == 0,
                p == d.y.raw,
        ;
        lemma_axis_part(oz, p, k, cx);
        lemma_axis_part(0, p, k, cy);
        lemma_axis_part(ox, p, k, cz);
        assert(b.0 * b.0 == oz * oz && b.1 == 0 && b.2 * b.2 == ox * ox);
    }
    let rad = sphere.radius.raw as int;
    assert(rad * rad > 0) by (nonlinear_arith)
        requires
            rad > 0,
    ;
    if sphere.spec_beside_squared(r) == 0 {
        assert(rad * rad < (rad + 1) * (rad + 1)) by (nonlinear_arith)
            requires
                rad > 0,
        ;
        crate::scalar::lemma_isqrt_unique(rad * rad, rad);
    }
    if d.spec_exact_squared() == 1_000_000_000_000_000_000 {
        assert(p == 1_000_000_000 || p == -1_000_000_000) by (nonlinear_arith)
            requires
                p * p == 1_000_000_000_000_000_000,
        ;
        assert(d.spec_is_small());
        let len = d.spec_zoomed_length();
        assert(len == 4_294_967_296_000_000_000int) by (nonlinear_arith)
            requires
                len * spec_sign(p) == p * SCALE * k,
                k == 0x1_0000_0000,
                SCALE == 1_000_000_000,
                (p == 1_000_000_000 && spec_sign(p) == 1_000_000_000) || (p == -1_000_000_000
                    && spec_sign(p) == -1_000_000_000),
        ;
        sphere.lemma_roots_ordered(r);
        let near = -hb - sphere.spec_reach(r);
        let far = -hb + sphere.spec_reach(r);
        lemma_root_at_unit(near);
        lemma_root_at_unit(far);
    }
}

/// One component of the offset of a centre from a line along an axis: the
/// matching component of the offset of the origin, up to its sign.
proof fn lemma_axis_part(x: int, p: int, k: int, cross: int)
    requires
        p != 0,
        k >= 1,
        -0x1000_0000_0000_0000 <= x <= 0x1000_0000_0000_0000,
        cross == x * p || cross == -(x * p),
    ensures
        ({
            let q = spec_hold_wide(tdiv(cross * k, isqrt((p * p) * (k * k))));
            &&& q * q == x * x
            &&& x == 0 ==> q == 0
        }),
{
    let a = if p < 0 {
        -p
    } else {
        p
    };
    let m = a * k;
    assert(m > 0) by (nonlinear_arith)
        requires
            m == a * k,
            a >= 1,
            k >= 1,
    ;
    assert(m * m == (p * p) * (k * k)) by (nonlinear_arith)
        requires
            m == a * k,
            a == p || a == -p,
    ;
    assert(m * m < (m + 1) * (m + 1)) by (nonlinear_arith)
        requires
            m > 0,
    ;
    crate::scalar::lemma_isqrt_unique((p * p) * (k * k), m);
    let y = if x < 0 {
        -x
    } else {
        x
    };
    let n = cross * k;
    assert(n == m * y || n == -(m * y)) by (nonlinear_arith)
        requires
            n == cross * k,
            cross == x * p || cross == -(x * p),
            m == a * k,
            a == p || a == -p,
            y == x || y == -x,
    ;
    vstd::arithmetic::div_mod::lemma_div_multiples_vanish(y, m);
    assert(m * y >= 0) by (nonlinear_arith)
        requires
            m > 0,
            y >= 0,
    ;
    let q = tdiv(n, m);
    assert(q == y || q == -y);
    assert(q * q == x * x) by (nonlinear_arith)
        requires
            q == y || q == -y,
            y == x || y == -x,
    ;
}

/// Along an axis the ray parameter of a point is its distance from the origin
/// over the length of the direction, however long the direction is: where the
/// direction is made `n` times as long, the parameter is the `n`-th part.
pub proof fn lemma_axis_root(r: Ray, along: int)
    requires
        spec_axis_parallel(r.direction),
    ensures
        ({
            let p = r.direction.x.raw + r.direction.y.raw + r.direction.z.raw;
            let long = if p < 0 {
                -p
            } else {
                p
            };
            Sphere::spec_root(r, along).raw == clamp(tdiv(along * SCALE, long))
        }),
{
    let d = r.direction;
    let k = d.spec_zoom();
    let p = d.x.raw + d.y.raw + d.z.raw;
    let a = if p < 0 {
        -p
    } else {
        p
    };
    assert(d.spec_exact_squared() == p * p) by (nonlinear_arith)
        requires
            spec_axis_parallel(d),
            p == d.x.raw + d.y.raw + d.z.raw,
            d.spec_exact_squared() == d.x.raw * d.x.raw + d.y.raw * d.y.raw + d.z.raw * d.z.raw,
    ;
    let m = a * k;
    assert(m > 0) by (nonlinear_arith)
        requires
            m == a * k,
            a >= 1,
            k >= 1,
    ;
    assert(m * m == (p * p) * (k * k)) by (nonlinear_arith)
        requires
            m == a * k,
            a == p || a == -p,
    ;
    assert(m * m < (m + 1) * (m + 1)) by (nonlinear_arith)
        requires
            m > 0,
    ;
    crate::scalar::lemma_isqrt_unique((p * p) * (k * k), m);
    let y = if along < 0 {
        -along
    } else {
        along
    };
    let t = y * SCALE;
    assert(t >= 0) by (nonlinear_arith)
        requires
            t == y * SCALE,
            y >= 0,
            SCALE > 0,
    ;
    vstd::arithmetic::div_mod::lemma_div_multiples_vanish_quotient(k, t, a);
    assert(k * t == y * SCALE * k) by (nonlinear_arith)
        requires
            t == y * SCALE,
    ;
    assert(k * a == m) by (nonlinear_arith)
        requires
            m == a * k,
    ;
    assert(along * SCALE * k == y * SCALE * k || along * SCALE * k == -(y * SCALE * k))
        by (nonlinear_arith)
        requires
            y == along || y == -along,
    ;
    assert(y * SCALE * k >= 0) by (nonlinear_arith)
        requires
            y >= 0,
            SCALE > 0,
            k >= 1,
    ;
    if along < 0 {
        assert(along * SCALE * k == -(y * SCALE * k)) by (nonlinear_arith)
            requires
                y == -along,
        ;
        assert(along * SCALE == -t) by (nonlinear_arith)
            requires
                t == y * SCALE,
                y == -along,
        ;
    }
}

/// A whole multiple of `SCALE` over `SCALE` is exact.
proof fn lemma_scaled_back(x: int)
    ensures
        tdiv(x * 1_000_000_000, 1_000_000_000) == x,
        tdiv(x * (-1_000_000_000), 1_000_000_000) == -x,
{
    assert(x * (-1_000_000_000) == -(x * 1_000_000_000));
}

/// Along a direction of length 1 the ray parameter is the distance.
proof fn lemma_root_at_unit(along: int)
    requires
        -0x7000_0000_0000_0000 <= along <= 0x7000_0000_0000_0000,
    ensures
        clamp(tdiv(along * SCALE * 0x1_0000_0000, 4_294_967_296_000_000_000int)) == along,
{
    let m = 4_294_967_296_000_000_000int;
    assert(along * SCALE * 0x1_0000_0000 == along * m);
    assert(tdiv(along * m, m) == along);
}

/// Two different points lie apart: the difference of two vectors that are
/// not equal has a length.
proof fn lemma_apart(a: Vec3, b: Vec3)
    requires
        a != b,
    ensures
        a.spec_sub(b).spec_length().raw != 0,
{
    let v = a.spec_sub(b);
    assert(v.x.raw != 0 || v.y.raw != 0 || v.z.raw != 0);
    let x = v.x.raw as int;
    let y = v.y.raw as int;
    let z = v.z.raw as int;
    assert(x * x + y * y + z * z >= 1) by (nonlinear_arith)
        requires
            x != 0 || y != 0 || z != 0,
    ;
    let n = v.spec_exact_squared();
    lemma_isqrt_bounds(n);
    let root = isqrt(n);
    if root == 0 {
        assert((root + 1) * (root + 1) == 1) by (nonlinear_arith)
            requires
                root == 0,
        ;
    }
}

/// What every hit on a sphere is like: its parameter lies in the window, its
/// point is the point of the ray at that parameter, its face is the front
/// where the ray runs against the outward normal, its normal does not run
/// along the ray, and its normal has length 1, or at most four raw units less,
/// unless the point is the centre itself.
pub proof fn lemma_hit_shape(sphere: Sphere, r: Ray, t_min: Fixed, t_max: Fixed)
    requires
        sphere.wf(),
    ensures
        sphere.spec_hit(r, t_min, t_max) matches Some(h) ==> {
            let outward = sphere.spec_outward(h.p);
            &&& spec_in_window(h.t, t_min, t_max)
            &&& h.p == r.spec_at(h.t)
            &&& h.material == sphere.material
            &&& h.front_face == (spec_exact_dot(r.direction, outward) < 0)
            &&& h.front_face ==> h.normal == outward
            &&& !h.front_face ==> h.normal == outward.spec_neg()
            &&& h.p != sphere.center ==> spec_exact_dot(r.direction, h.normal) <= 0 && SCALE - 4
                <= h.normal.spec_length().raw <= SCALE
        },
{
    if let Some(h) = sphere.spec_hit(r, t_min, t_max) {
        let outward = sphere.spec_outward(h.p);
        let d = r.direction;
        let from_centre = h.p.spec_sub(sphere.center);
        if h.p != sphere.center {
            lemma_apart(h.p, sphere.center);
            lemma_unit_vector(from_centre);
            assert(outward.spec_neg().spec_exact_squared() == outward.spec_exact_squared())
                by (nonlinear_arith)
                requires
                    outward.spec_neg().x.raw == -outward.x.raw,
                    outward.spec_neg().y.raw == -outward.y.raw,
                    outward.spec_neg().z.raw == -outward.z.raw,
                    outward.spec_neg().spec_exact_squared() == outward.spec_neg().x.raw
                        * outward.spec_neg().x.raw + outward.spec_neg().y.raw
                        * outward.spec_neg().y.raw + outward.spec_neg().z.raw
                        * outward.spec_neg().z.raw,
                    outward.spec_exact_squared() == outward.x.raw * outward.x.raw + outward.y.raw
                        * outward.y.raw + outward.z.raw * outward.z.raw,
            ;
        }
        if !h.front_face && h.p != sphere.center {
            let n = h.normal;
            assert(spec_exact_dot(d, n) == -spec_exact_dot(d, outward)) by (nonlinear_arith)
                requires
                    n.x.raw == -outward.x.raw,
                    n.y.raw == -outward.y.raw,
                    n.z.raw == -outward.z.raw,
                    spec_exact_dot(d, n) == d.x.raw * n.x.raw + d.y.raw * n.y.raw + d.z.raw
                        * n.z.raw,
                    spec_exact_dot(d, outward) == d.x.raw * outward.x.raw + d.y.raw
                        * outward.y.raw + d.z.raw * outward.z.raw,
            ;
        }
    }
}

/// The ray's line runs through the centre of the sphere: the offset of the
/// origin from the centre is along the direction, so that their cross product
/// is the zero vector, exactly.
pub open spec fn spec_aimed_at_centre(sphere: Sphere, r: Ray) -> bool {
    let oc = sphere.spec_oc(r);
    let d = r.direction;
    &&& oc.y.raw * d.z.raw - oc.z.raw * d.y.raw == 0
    &&& oc.z.raw * d.x.raw - oc.x.raw * d.z.raw == 0
    &&& oc.x.raw * d.y.raw - oc.y.raw * d.x.raw == 0
}

/// A ray whose line runs through the centre, in whatever direction and of
/// whatever length, never misses: the discriminant is the squared radius, and
/// the two roots lie exactly the radius before and behind the point of the
/// line nearest the centre, for every radius.
pub proof fn lemma_aimed_at_centre(sphere: Sphere, r: Ray)
    requires
        0 < sphere.radius.raw <= FAR,
        r.direction.spec_length().raw != 0,
        spec_aimed_at_centre(sphere, r),
    ensures
        sphere.spec_beside_squared(r) == 0,
        sphere.spec_discriminant(r) == sphere.radius.raw * sphere.radius.raw,
        sphere.spec_discriminant(r) > 0,
        sphere.spec_reach(r) == sphere.radius.raw,
        sphere.spec_near_root(r) == Sphere::spec_root(
            r,
            -sphere.spec_half_b(r) - sphere.radius.raw,
        ),
        sphere.spec_far_root(r) == Sphere::spec_root(r, -sphere.spec_half_b(r) + sphere.radius.raw),
{
    lemma_unit_vector(r.direction);
    let k = r.direction.spec_zoom();
    let len = r.direction.spec_zoomed_length();
    assert(0 * k == 0) by (nonlinear_arith);
    assert(0int / len == 0) by (nonlinear_arith)
        requires
            len > 0,
    ;
    let b = sphere.spec_beside(r);
    assert(b.0 == 0 && b.1 == 0 && b.2 == 0);
    let rad = sphere.radius.raw as int;
    assert(rad * rad > 0 && rad * rad < (rad + 1) * (rad + 1)) by (nonlinear_arith)
        requires
            rad > 0,
    ;
    crate::scalar::lemma_isqrt_unique(rad * rad, rad);
}

/// No component is above `FAR / 2` in magnitude.
pub open spec fn spec_within_reach(v: Vec3) -> bool {
    &&& -0x800_0000_0000_0000 <= v.x.raw <= 0x800_0000_0000_0000
    &&& -0x800_0000_0000_0000 <= v.y.raw <= 0x800_0000_0000_0000
    &&& -0x800_0000_0000_0000 <= v.z.raw <= 0x800_0000_0000_0000
}

/// A ray of unit length along an axis whose line runs through the centre of
/// a sphere: the roots are the distance to the centre less the radius, and
/// plus the radius, exactly.
proof fn lemma_centre_roots(sphere: Sphere, r: Ray)
    requires
        0 < sphere.radius.raw <= FAR,
        crate::util::spec_axis_unit(r.direction),
        r.direction.x.raw == 0 ==> sphere.spec_oc(r).x.raw == 0,
        r.direction.y.raw == 0 ==> sphere.spec_oc(r).y.raw == 0,
        r.direction.z.raw == 0 ==> sphere.spec_oc(r).z.raw == 0,
    ensures
        sphere.spec_discriminant(r) >= 0,
        sphere.spec_near_root(r).raw == -sphere.spec_half_b(r) - sphere.radius.raw,
        sphere.spec_far_root(r).raw == -sphere.spec_half_b(r) + sphere.radius.raw,
{
    let origin = Fixed { raw: 0 };
    lemma_axis_ray(sphere, r, origin, origin);
    let d = r.direction;
    let oc = sphere.spec_oc(r);
    let hb = sphere.spec_half_b(r);
    assert(d.spec_exact_squared() == 1_000_000_000_000_000_000) by (nonlinear_arith)
        requires
            crate::util::spec_axis_unit(d),
            d.spec_exact_squared() == d.x.raw * d.x.raw + d.y.raw * d.y.raw + d.z.raw * d.z.raw,
    ;
    lemma_along(sphere, r);
    assert(oc.spec_exact_squared() == hb * hb) by (nonlinear_arith)
        requires
            oc.spec_exact_squared() == oc.x.raw * oc.x.raw + oc.y.raw * oc.y.raw + oc.z.raw
                * oc.z.raw,
            (oc.y.raw == 0 && oc.z.raw == 0 && (hb == oc.x.raw || hb == -oc.x.raw)) || (oc.x.raw
                == 0 && oc.z.raw == 0 && (hb == oc.y.raw || hb == -oc.y.raw)) || (oc.x.raw == 0
                && oc.y.raw == 0 && (hb == oc.z.raw || hb == -oc.z.raw)),
    ;
}

/// The point of such a ray at the distance to the centre plus `gap` lies
/// `gap` from the centre, along the direction.
proof fn lemma_centre_point(sphere: Sphere, r: Ray, t: Fixed, gap: Fixed)
    requires
        crate::util::spec_axis_unit(r.direction),
        spec_within_reach(r.origin),
        spec_within_reach(sphere.center),
        r.direction.x.raw == 0 ==> r.origin.x.raw == sphere.center.x.raw,
        r.direction.y.raw == 0 ==> r.origin.y.raw == sphere.center.y.raw,
        r.direction.z.raw == 0 ==> r.origin.z.raw == sphere.center.z.raw,
        -0x1000_0000_0000_0000 <= gap.raw <= 0x1000_0000_0000_0000,
        t.raw == -sphere.spec_half_b(r) + gap.raw,
    ensures
        r.spec_at(t).spec_sub(sphere.center) == r.direction.spec_mul(gap),
{
    lemma_along(sphere, r);
    lemma_mul_unit(t);
    lemma_mul_unit(gap);
}

/// A point that lies `gap` from the centre along a unit axis direction is
/// met on the front face where `gap` is negative and on the back face where
/// it is positive, and the normal there is the opposite of the direction.
proof fn lemma_axis_face(sphere: Sphere, r: Ray, p: Point3, t: Fixed, gap: Fixed)
    requires
        crate::util::spec_axis_unit(r.direction),
        gap.raw != 0,
        -0x1000_0000_0000_0000 <= gap.raw <= 0x1000_0000_0000_0000,
        p.spec_sub(sphere.center) == r.direction.spec_mul(gap),
    ensures
        Hit::spec_new_with_front_face(p, t, r, sphere.spec_outward(p), sphere.material).front_face
            == (gap.raw < 0),
        Hit::spec_new_with_front_face(p, t, r, sphere.spec_outward(p), sphere.material).normal
            == r.direction.spec_neg(),
{
    let d = r.direction;
    let from_centre = p.spec_sub(sphere.center);
    lemma_mul_unit(gap);
    assert(spec_axis_parallel(from_centre));
    lemma_axis_unit_vector(from_centre);
    let out = sphere.spec_outward(p);
    assert(out == from_centre.spec_unit_vector());
    if gap.raw < 0 {
        assert(out == d.spec_neg());
        assert(spec_exact_dot(d, out) == -1_000_000_000_000_000_000) by (nonlinear_arith)
            requires
                crate::util::spec_axis_unit(d),
                out.x.raw == -d.x.raw,
                out.y.raw == -d.y.raw,
                out.z.raw == -d.z.raw,
                spec_exact_dot(d, out) == d.x.raw * out.x.raw + d.y.raw * out.y.raw + d.z.raw
                    * out.z.raw,
        ;
    } else {
        assert(out == d);
        assert(spec_exact_dot(d, out) == 1_000_000_000_000_000_000) by (nonlinear_arith)
            requires
                crate::util::spec_axis_unit(d),
                out == d,
                spec_exact_dot(d, out) == d.x.raw * out.x.raw + d.y.raw * out.y.raw + d.z.raw
                    * out.z.raw,
        ;
    }
}

/// A ray of unit length along an axis that runs through the centre of a
/// sphere: the smaller root is the distance to the centre less the radius, and
/// the hit there is on the front face; the larger root is the distance plus
/// the radius, and the hit there is on the back face. At both the normal is
/// the opposite of the ray's direction, and of length 1. All of this is exact,
/// for every radius.
pub proof fn lemma_through_centre(sphere: Sphere, r: Ray)
    requires
        0 < sphere.radius.raw <= FAR,
        crate::util::spec_axis_unit(r.direction),
        spec_within_reach(r.origin),
        spec_within_reach(sphere.center),
        r.direction.x.raw == 0 ==> r.origin.x.raw == sphere.center.x.raw,
        r.direction.y.raw == 0 ==> r.origin.y.raw == sphere.center.y.raw,
        r.direction.z.raw == 0 ==> r.origin.z.raw == sphere.center.z.raw,
    ensures
        sphere.spec_discriminant(r) >= 0,
        sphere.spec_near_root(r).raw == -sphere.spec_half_b(r) - sphere.radius.raw,
        sphere.spec_far_root(r).raw == -sphere.spec_half_b(r) + sphere.radius.raw,
        sphere.spec_hit_at(r, sphere.spec_near_root(r)).front_face,
        sphere.spec_hit_at(r, sphere.spec_near_root(r)).normal == r.direction.spec_neg(),
        !sphere.spec_hit_at(r, sphere.spec_far_root(r)).front_face,
        sphere.spec_hit_at(r, sphere.spec_far_root(r)).normal == r.direction.spec_neg(),
        sphere.spec_hit_at(r, sphere.spec_near_root(r)).p.spec_sub(sphere.center)
            == r.direction.spec_mul(sphere.radius.spec_neg()),
        sphere.spec_hit_at(r, sphere.spec_far_root(r)).p.spec_sub(sphere.center)
            == r.direction.spec_mul(sphere.radius),
{
    lemma_centre_roots(sphere, r);
    let near = sphere.spec_near_root(r);
    let far = sphere.spec_far_root(r);
    let rad = sphere.radius;
    lemma_centre_point(sphere, r, near, rad.spec_neg());
    lemma_centre_point(sphere, r, far, rad);
    lemma_axis_face(sphere, r, r.spec_at(near), near, rad.spec_neg());
    lemma_axis_face(sphere, r, r.spec_at(far), far, rad);
}

/// Along a unit axis direction the offset of the origin from the centre is
/// the offset in the one component that the direction has, up to its sign.
proof fn lemma_along(sphere: Sphere, r: Ray)
    requires
        crate::util::spec_axis_unit(r.direction),
    ensures
        r.direction.x.raw == 1_000_000_000 ==> sphere.spec_half_b(r) == sphere.spec_oc(r).x.raw,
        r.direction.x.raw == -1_000_000_000 ==> sphere.spec_half_b(r) == -sphere.spec_oc(r).x.raw,
        r.direction.y.raw == 1_000_000_000 ==> sphere.spec_half_b(r) == sphere.spec_oc(r).y.raw,
        r.direction.y.raw == -1_000_000_000 ==> sphere.spec_half_b(r) == -sphere.spec_oc(r).y.raw,
        r.direction.z.raw == 1_000_000_000 ==> sphere.spec_half_b(r) == sphere.spec_oc(r).z.raw,
        r.direction.z.raw == -1_000_000_000 ==> sphere.spec_half_b(r) == -sphere.spec_oc(r).z.raw,
{
    lemma_axis_unit_vector(r.direction);
    let oc = sphere.spec_oc(r);
    let u = r.direction.spec_unit_vector();
    assert(u == r.direction);
    let ox = oc.x.raw as int;
    let oy = oc.y.raw as int;
    let oz = oc.z.raw as int;
    let sum = ox * u.x.raw + oy * u.y.raw + oz * u.z.raw;
    lemma_scaled_back(ox);
    lemma_scaled_back(oy);
    lemma_scaled_back(oz);
    let ux = u.x.raw as int;
    let uy = u.y.raw as int;
    let uz = u.z.raw as int;
    assert((ux == 1_000_000_000 ==> sum == ox * 1_000_000_000) && (ux == -1_000_000_000 ==> sum
        == ox * (-1_000_000_000)) && (uy == 1_000_000_000 ==> sum == oy * 1_000_000_000) && (uy
        == -1_000_000_000 ==> sum == oy * (-1_000_000_000)) && (uz == 1_000_000_000 ==> sum == oz
        * 1_000_000_000) && (uz == -1_000_000_000 ==> sum == oz * (-1_000_000_000)))
        by (nonlinear_arith)
        requires
            sum == ox * ux + oy * uy + oz * uz,
            (uy == 0 && uz == 0 && (ux == 1_000_000_000 || ux == -1_000_000_000)) || (ux == 0
                && uz == 0 && (uy == 1_000_000_000 || uy == -1_000_000_000)) || (ux == 0 && uy
                == 0 && (uz == 1_000_000_000 || uz == -1_000_000_000)),
    ;
    assert(sphere.spec_half_b(r) == tdiv(sum, 1_000_000_000));
}

/// The closest hit among `members`, taken in order: each member is asked for
/// a hit no farther than the best one so far, and a hit it reports replaces
/// that one.
pub open spec fn spec_closest<H: Hittable>(
    members: Seq<H>,
    r: Ray,
    t_min: Fixed,
    t_max: Fixed,
) -> Option<Hit>
    decreases members.len(),
{
    if members.len() == 0 {
        None
    } else {
        let before = spec_closest(members.drop_last(), r, t_min, t_max);
        let best = match before {
            Some(h) => h.t,
            None => t_max,
        };
        match members.last().spec_hit(r, t_min, best) {
            Some(h) => Some(h),
            None => before,
        }
    }
}

/// Every member is fit to be intersected.
pub open spec fn spec_all_wf<H: Hittable>(members: Seq<H>) -> bool {
    forall|i: int| 0 <= i < members.len() ==> (#[trigger] members[i]).wf()
}

/// What `spec_closest` finds lies in the window and carries a material that is
/// fit to scatter, and it is what is found in a window with a lower upper end,
/// where it still fits there.
pub proof fn lemma_closest_window<H: Hittable>(
    members: Seq<H>,
    r: Ray,
    t_min: Fixed,
    t_max: Fixed,
    bound: Fixed,
)
    requires
        spec_all_wf(members),
        bound.raw <= t_max.raw,
    ensures
        spec_closest(members, r, t_min, t_max) matches Some(h) ==> spec_in_window(
            h.t,
            t_min,
            t_max,
        ) && h.material.wf(),
        spec_closest(members, r, t_min, bound) == spec_within(
            spec_closest(members, r, t_min, t_max),
            bound,
        ),
    decreases members.len(),
{
    if members.len() > 0 {
        let front = members.drop_last();
        let m = members.last();
        assert(m.wf());
        assert(spec_all_wf(front)) by {
            assert forall|i: int| 0 <= i < front.len() implies (#[trigger] front[i]).wf() by {
                assert(front[i] == members[i]);
            }
        }
        lemma_closest_window(front, r, t_min, t_max, bound);
        let full = spec_closest(front, r, t_min, t_max);
        let best_full = match full {
            Some(h) => h.t,
            None => t_max,
        };
        m.lemma_window(r, t_min, t_max, best_full);
        m.lemma_window(r, t_min, t_max, bound);
    }
}

/// The closest hit is the hit that one of the members reports for the whole
/// window, and no member reports a nearer one: a member is not overlooked
/// because of where it stands among the others.
pub proof fn lemma_closest_is_nearest<H: Hittable>(
    members: Seq<H>,
    r: Ray,
    t_min: Fixed,
    t_max: Fixed,
)
    requires
        spec_all_wf(members),
    ensures
        spec_closest(members, r, t_min, t_max) matches Some(h) ==> exists|i: int|
            0 <= i < members.len() && (#[trigger] members[i]).spec_hit(r, t_min, t_max) == Some(h),
        forall|i: int|
            0 <= i < members.len() ==> ((#[trigger] members[i]).spec_hit(r, t_min, t_max) matches Some(
                g,
            ) ==> (spec_closest(members, r, t_min, t_max) matches Some(h) && h.t.raw <= g.t.raw)),
    decreases members.len(),
{
    if members.len() > 0 {
        let front = members.drop_last();
        let m = members.last();
        assert(m.wf());
        assert(spec_all_wf(front)) by {
            assert forall|i: int| 0 <= i < front.len() implies (#[trigger] front[i]).wf() by {
                assert(front[i] == members[i]);
            }
        }
        lemma_closest_is_nearest(front, r, t_min, t_max);
        lemma_closest_window(front, r, t_min, t_max, t_max);
        let before = spec_closest(front, r, t_min, t_max);
        let best = match before {
            Some(h) => h.t,
            None => t_max,
        };
        m.lemma_window(r, t_min, t_max, best);
        let found = spec_closest(members, r, t_min, t_max);
        if let Some(h) = found {
            if m.spec_hit(r, t_min, best) is Some {
                assert(members[members.len() - 1].spec_hit(r, t_min, t_max) == Some(h));
            } else {
                let i = choose|i: int|
                    0 <= i < front.len() && (#[trigger] front[i]).spec_hit(r, t_min, t_max) == Some(
                        h,
                    );
                assert(members[i] == front[i]);
            }
        }
        assert forall|i: int| 0 <= i < members.len() implies ((#[trigger] members[i]).spec_hit(
            r,
            t_min,
            t_max,
        ) matches Some(g) ==> (found matches Some(h) && h.t.raw <= g.t.raw)) by {
            if i < front.len() {
                assert(members[i] == front[i]);
            }
        }
    }
}

/// A group of shapes that is met where the nearest of them is met.
pub struct Hittables<H: Hittable> {
    pub hittables: Vec<H>,
}

impl<H: Hittable> View for Hittables<H> {
    type V = Seq<H>;

    open spec fn view(&self) -> Seq<H> {
        self.hittables@
    }
}

impl<H: Hittable> Hittables<H> {
    /// The empty group.
    pub fn new() -> (s: Hittables<H>)
        ensures
            s@ == Seq::<H>::empty(),
            s.wf(),
    {
        Hittables { hittables: Vec::new() }
    }

    /// Adds a shape after those already in the group.
    pub fn add(&mut self, hittable: H)
        ensures
            final(self)@ == old(self)@.push(hittable),
            old(self).wf() && hittable.wf() ==> final(self).wf(),
    {
        self.hittables.push(hittable);
    }
}

impl<H: Hittable> Default for Hittables<H> {
    fn default() -> (s: Hittables<H>)
        ensures
            s@ == Seq::<H>::empty(),
    {
        Hittables { hittables: Vec::new() }
    }
}

impl<H: Hittable> Hittable for Hittables<H> {
    /// Every member is fit to be intersected.
    open spec fn wf(&self) -> bool {
        spec_all_wf(self@)
    }

    open spec fn spec_hit(&self, r: Ray, t_min: Fixed, t_max: Fixed) -> Option<Hit> {
        spec_closest(self@, r, t_min, t_max)
    }

    fn hit(&self, r: &Ray, t_min: Fixed, t_max: Fixed) -> (h: Option<Hit>) {
        let mut hit: Option<Hit> = None;
        let mut best_t = t_max;
        let mut i: usize = 0;
        while i < self.hittables.len()
            invariant
                i <= self.hittables.len(),
                self.wf(),
                hit == spec_closest(self@.subrange(0, i as int), *r, t_min, t_max),
                best_t == (match hit {
                    Some(h) => h.t,
                    None => t_max,
                }),
            decreases self.hittables.len() - i,
        {
            proof {
                assert(self@.subrange(0, i + 1).drop_last() == self@.subrange(0, i as int));
                assert(self@.subrange(0, i + 1).last() == self@[i as int]);
                assert(self@[i as int].wf());
            }
            if let Some(h) = self.hittables[i].hit(r, t_min, best_t) {
                best_t = h.t;
                hit = Some(h);
            }
            i = i + 1;
        }
        proof {
            assert(self@.subrange(0, i as int) == self@);
        }
        hit
    }

    proof fn lemma_window(&self, r: Ray, t_min: Fixed, t_max: Fixed, bound: Fixed) {
        lemma_closest_window(self@, r, t_min, t_max, bound);
    }
}

} // verus!
