//! Random sampling.
//!
//! Every draw comes from the thread-local generator of the `rand` crate, so a
//! contract here can only say what holds of every outcome. The loops that
//! redraw until a point is accepted carry a budget of attempts, which gives
//! them a measure that decreases; it is far too large ever to run out.

use crate::scalar::{lemma_isqrt_unique, Fixed, SCALE};
use crate::util::{length, unit_vector};
use crate::vec3::{Color, Point3, Vec3};
use rand::Rng;
use vstd::prelude::*;

verus! {

/// Attempts that a redrawing loop may make.
pub const ATTEMPTS: u64 = 0xffff_ffff_ffff_ffff;

/// The square of 1, in squared raw units.
pub const UNIT_SQUARED: u128 = 1_000_000_000_000_000_000;

/// The draw that stands for the middle of the cube: one half.
pub const HALF_DRAW: i64 = 500_000_000;

/// Calls `rand::thread_rng`, `rand::distributions::Uniform::new` and
/// `rand::Rng::sample` on `i64`. `Uniform::new` panics unless `low < high`, and
/// a sample of the distribution it returns lies in the half-open range from
/// `low` to `high`. Nothing else is claimed: two calls may differ.
#[verifier::external_body]
fn sample_between(low: i64, high: i64) -> (r: i64)
    requires
        low < high,
    ensures
        low <= r < high,
{
    rand::thread_rng().sample(rand::distributions::Uniform::new(low, high))
}

/// At least 0 and below 1.
pub open spec fn spec_unit_interval(u: Fixed) -> bool {
    0 <= u.raw < SCALE
}

/// Every component is at least -1 and below 1.
pub open spec fn spec_in_cube(p: Vec3) -> bool {
    &&& -SCALE <= p.x.raw < SCALE
    &&& -SCALE <= p.y.raw < SCALE
    &&& -SCALE <= p.z.raw < SCALE
}

/// The number between -1 and 1 that a draw `u` between 0 and 1 stands for: `2u - 1`.
pub open spec fn spec_spread(u: Fixed) -> Fixed {
    u.spec_mul(Fixed::spec_from_int(2)).spec_sub(Fixed::spec_one())
}

/// The point of the cube around the origin that three draws stand for.
pub open spec fn spec_cube_point(u1: Fixed, u2: Fixed, u3: Fixed) -> Vec3 {
    Vec3 { x: spec_spread(u1), y: spec_spread(u2), z: spec_spread(u3) }
}

/// The point of the square around the origin, in the plane `z = 0`, that two
/// draws stand for.
pub open spec fn spec_square_point(u1: Fixed, u2: Fixed) -> Vec3 {
    Vec3 { x: spec_spread(u1), y: spec_spread(u2), z: Fixed::spec_zero() }
}

/// The cube point of three draws where it lies strictly inside the unit
/// ball, by the exact sum of its squares, and nothing where it does not.
pub open spec fn spec_accept_in_unit_sphere(u1: Fixed, u2: Fixed, u3: Fixed) -> Option<Point3> {
    let p = spec_cube_point(u1, u2, u3);
    if p.spec_exact_squared() < UNIT_SQUARED {
        Some(p)
    } else {
        None
    }
}

/// The cube point of three draws scaled to unit length, and nothing where
/// that point is the origin, which has no direction.
pub open spec fn spec_accept_on_unit_sphere(u1: Fixed, u2: Fixed, u3: Fixed) -> Option<Point3> {
    let p = spec_cube_point(u1, u2, u3);
    if p.spec_length().raw != 0 {
        Some(p.spec_unit_vector())
    } else {
        None
    }
}

/// The square point of two draws where it lies strictly inside the unit
/// disc, and nothing where it does not.
pub open spec fn spec_accept_in_unit_disc(u1: Fixed, u2: Fixed) -> Option<Point3> {
    let p = spec_square_point(u1, u2);
    if p.spec_exact_squared() < UNIT_SQUARED {
        Some(p)
    } else {
        None
    }
}

/// What `random_in_unit_sphere` can return: the accepted cube point of some
/// three draws.
pub open spec fn spec_in_unit_sphere(p: Vec3) -> bool {
    exists|u1: Fixed, u2: Fixed, u3: Fixed|
        spec_unit_interval(u1) && spec_unit_interval(u2) && spec_unit_interval(u3)
            && #[trigger] spec_accept_in_unit_sphere(u1, u2, u3) == Some(p)
}

/// What `random_on_unit_sphere` can return: the scaled cube point of some
/// three draws.
pub open spec fn spec_on_unit_sphere(r: Vec3) -> bool {
    exists|u1: Fixed, u2: Fixed, u3: Fixed|
        spec_unit_interval(u1) && spec_unit_interval(u2) && spec_unit_interval(u3)
            && #[trigger] spec_accept_on_unit_sphere(u1, u2, u3) == Some(r)
}

/// What `random_in_unit_disc` can return: the accepted square point of some
/// two draws.
pub open spec fn spec_in_unit_disc(p: Vec3) -> bool {
    exists|u1: Fixed, u2: Fixed|
        spec_unit_interval(u1) && spec_unit_interval(u2) && #[trigger] spec_accept_in_unit_disc(
            u1,
            u2,
        ) == Some(p)
}

/// The spread of a draw is exact: `2u - 1` in raw units.
pub proof fn lemma_spread(u: Fixed)
    requires
        spec_unit_interval(u),
    ensures
        spec_spread(u).raw == 2 * u.raw - SCALE,
{
    let x = u.raw as int;
    assert(Fixed::spec_from_int(2).raw == 2_000_000_000);
    assert(x * 2_000_000_000 == (2 * x) * 1_000_000_000);
}

/// Maps a draw between 0 and 1 to the number `2u - 1` between -1 and 1.
pub fn spread(u: Fixed) -> (r: Fixed)
    requires
        spec_unit_interval(u),
    ensures
        r == spec_spread(u),
        r.raw == 2 * u.raw - SCALE,
{
    proof {
        let x = u.raw as int;
        assert(Fixed::spec_from_int(2).raw == 2_000_000_000);
        assert(x * 2_000_000_000 == (2 * x) * 1_000_000_000);
    }
    u * Fixed::from_int(2) - Fixed::one()
}

/// A number drawn uniformly from 0 up to, not including, 1.
pub fn uniform() -> (r: Fixed)
    ensures
        spec_unit_interval(r),
{
    Fixed::from_raw(sample_between(0, SCALE))
}

/// The cube point of three draws, if it lies strictly inside the unit ball.
pub fn accept_in_unit_sphere(u1: Fixed, u2: Fixed, u3: Fixed) -> (r: Option<Point3>)
    requires
        spec_unit_interval(u1),
        spec_unit_interval(u2),
        spec_unit_interval(u3),
    ensures
        r == spec_accept_in_unit_sphere(u1, u2, u3),
        r matches Some(p) ==> spec_in_cube(p) && p.spec_exact_squared() < UNIT_SQUARED,
{
    let p = Vec3::new(spread(u1), spread(u2), spread(u3));
    if p.exact_squared() < UNIT_SQUARED {
        Some(p)
    } else {
        None
    }
}

/// The cube point of three draws scaled to unit length, unless it is the
/// origin. A point near a corner of the cube is scaled like any other.
pub fn accept_on_unit_sphere(u1: Fixed, u2: Fixed, u3: Fixed) -> (r: Option<Point3>)
    requires
        spec_unit_interval(u1),
        spec_unit_interval(u2),
        spec_unit_interval(u3),
    ensures
        r == spec_accept_on_unit_sphere(u1, u2, u3),
        r matches Some(q) ==> SCALE - 4 <= q.spec_length().raw <= SCALE && -SCALE <= q.x.raw
            <= SCALE && -SCALE <= q.y.raw <= SCALE && -SCALE <= q.z.raw <= SCALE,
{
    let p = Vec3::new(spread(u1), spread(u2), spread(u3));
    if length(&p).raw != 0 {
        Some(unit_vector(&p))
    } else {
        None
    }
}

/// The square point of two draws, if it lies strictly inside the unit disc.
pub fn accept_in_unit_disc(u1: Fixed, u2: Fixed) -> (r: Option<Point3>)
    requires
        spec_unit_interval(u1),
        spec_unit_interval(u2),
    ensures
        r == spec_accept_in_unit_disc(u1, u2),
        r matches Some(p) ==> spec_in_cube(p) && p.z.raw == 0 && p.spec_exact_squared()
            < UNIT_SQUARED,
{
    let p = Vec3::new(spread(u1), spread(u2), Fixed::zero());
    if p.exact_squared() < UNIT_SQUARED {
        Some(p)
    } else {
        None
    }
}

/// A point strictly inside the unit ball: cube points are drawn until one is
/// accepted.
pub fn random_in_unit_sphere() -> (p: Point3)
    ensures
        spec_in_unit_sphere(p),
        spec_in_cube(p),
        p.spec_exact_squared() < UNIT_SQUARED,
{
    let mut left: u64 = ATTEMPTS;
    while left > 0
        decreases left,
    {
        let u1 = uniform();
        let u2 = uniform();
        let u3 = uniform();
        if let Some(p) = accept_in_unit_sphere(u1, u2, u3) {
            return p;
        }
        left = left - 1;
    }
    let half = Fixed::from_raw(HALF_DRAW);
    proof {
        let middle = spec_cube_point(half, half, half);
        lemma_spread(half);
        assert(middle.spec_exact_squared() == 0) by (nonlinear_arith)
            requires
                middle.x.raw == 0,
                middle.y.raw == 0,
                middle.z.raw == 0,
                middle.spec_exact_squared() == middle.x.raw * middle.x.raw + middle.y.raw
                    * middle.y.raw + middle.z.raw * middle.z.raw,
        ;
    }
    match accept_in_unit_sphere(half, half, half) {
        Some(p) => p,
        None => Vec3::zero(),
    }
}

/// A direction of length 1: a cube point, scaled to unit length. Points near
/// the corners of the cube are not rejected, so the directions are not spread
/// evenly over the sphere. Only the origin itself, which has no direction, is
/// drawn again.
pub fn random_on_unit_sphere() -> (r: Point3)
    ensures
        spec_on_unit_sphere(r),
        SCALE - 4 <= r.spec_length().raw <= SCALE,
        -SCALE <= r.x.raw <= SCALE,
        -SCALE <= r.y.raw <= SCALE,
        -SCALE <= r.z.raw <= SCALE,
{
    let mut left: u64 = ATTEMPTS;
    while left > 0
        decreases left,
    {
        let u1 = uniform();
        let u2 = uniform();
        let u3 = uniform();
        if let Some(q) = accept_on_unit_sphere(u1, u2, u3) {
            return q;
        }
        left = left - 1;
    }
    let half = Fixed::from_raw(HALF_DRAW);
    let p = Vec3::new(spread(Fixed::zero()), spread(half), spread(half));
    proof {
        assert(p.spec_exact_squared() == 1_000_000_000_000_000_000) by (nonlinear_arith)
            requires
                p.x.raw == -1_000_000_000,
                p.y.raw == 0,
                p.z.raw == 0,
                p.spec_exact_squared() == p.x.raw * p.x.raw + p.y.raw * p.y.raw + p.z.raw * p.z.raw,
        ;
        assert(1_000_000_000int * 1_000_000_000 == 1_000_000_000_000_000_000) by (nonlinear_arith);
        assert(1_000_000_001int * 1_000_000_001 > 1_000_000_000_000_000_000) by (nonlinear_arith);
        lemma_isqrt_unique(1_000_000_000_000_000_000, 1_000_000_000);
    }
    match accept_on_unit_sphere(Fixed::zero(), half, half) {
        Some(q) => q,
        None => p,
    }
}

/// A point strictly inside the unit disc of the plane `z = 0`: square points
/// are drawn until one is accepted.
pub fn random_in_unit_disc() -> (p: Point3)
    ensures
        spec_in_unit_disc(p),
        spec_in_cube(p),
        p.z.raw == 0,
        p.spec_exact_squared() < UNIT_SQUARED,
{
    let mut left: u64 = ATTEMPTS;
    while left > 0
        decreases left,
    {
        let u1 = uniform();
        let u2 = uniform();
        if let Some(p) = accept_in_unit_disc(u1, u2) {
            return p;
        }
        left = left - 1;
    }
    let half = Fixed::from_raw(HALF_DRAW);
    proof {
        let middle = spec_square_point(half, half);
        lemma_spread(half);
        assert(middle.spec_exact_squared() == 0) by (nonlinear_arith)
            requires
                middle.x.raw == 0,
                middle.y.raw == 0,
                middle.z.raw == 0,
                middle.spec_exact_squared() == middle.x.raw * middle.x.raw + middle.y.raw
                    * middle.y.raw + middle.z.raw * middle.z.raw,
        ;
    }
    match accept_in_unit_disc(half, half) {
        Some(p) => p,
        None => Vec3::zero(),
    }
}

/// A colour whose channels are drawn independently from 0 up to 1.
pub fn random_color() -> (c: Color)
    ensures
        spec_unit_interval(c.x),
        spec_unit_interval(c.y),
        spec_unit_interval(c.z),
{
    Vec3::new(uniform(), uniform(), uniform())
}

/// A colour whose channels are drawn independently from `min` up to `max`.
pub fn random_color_range(min: Fixed, max: Fixed) -> (c: Color)
    requires
        min.raw < max.raw,
    ensures
        min.raw <= c.x.raw < max.raw,
        min.raw <= c.y.raw < max.raw,
        min.raw <= c.z.raw < max.raw,
{
    Vec3::new(
        Fixed::from_raw(sample_between(min.raw, max.raw)),
        Fixed::from_raw(sample_between(min.raw, max.raw)),
        Fixed::from_raw(sample_between(min.raw, max.raw)),
    )
}

} // verus!
