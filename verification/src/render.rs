//! The path-tracing kernel: the colour that arrives along a ray, and the
//! colour of a pixel.

use crate::camera::Camera;
use crate::hit::Hittable;
use crate::ray::Ray;
use crate::sampling::{spec_unit_interval, uniform};
use crate::scalar::{isqrt, lemma_mul_unit, lemma_sqrt_range, tdiv, Fixed, SCALE};
use crate::util::{component_mult, length, spec_component_mult, unit_vector};
use crate::vec3::{Color, Vec3};
use vstd::prelude::*;

verus! {

/// The nearest that a hit may lie to the origin of its ray, in raw units: one
/// thousandth. It keeps a scattered ray from meeting the surface it leaves.
pub const NEAREST: i64 = 1_000_000;

/// One half, in raw units.
pub const HALF: i64 = 500_000_000;

pub open spec fn spec_black() -> Color {
    Vec3::spec_zero()
}

pub open spec fn spec_white() -> Color {
    Vec3::spec_new(Fixed::spec_one(), Fixed::spec_one(), Fixed::spec_one())
}

/// The tint of the sky straight up.
pub open spec fn spec_bluish() -> Color {
    Vec3::spec_new(Fixed { raw: HALF }, Fixed { raw: HALF }, Fixed::spec_one())
}

/// How far up a direction points, from 0 for straight down to 1 for straight
/// up: `(y + 1) / 2` for the `y` of its unit vector.
pub open spec fn spec_height(direction: Vec3) -> Fixed {
    (Fixed { raw: HALF }).spec_mul(direction.spec_unit_vector().y.spec_add(Fixed::spec_one()))
}

/// The sky in a direction: white blended into the bluish tint by height.
pub open spec fn spec_background(direction: Vec3) -> Color {
    let t = spec_height(direction);
    spec_white().spec_mul(Fixed::spec_one().spec_sub(t)).spec_add(spec_bluish().spec_mul(t))
}

/// `c` is a colour that can arrive along `r` when at most `depth` surfaces
/// are met. It is black when no depth is left, and along a ray whose direction
/// is the zero vector, which points nowhere. Else, where `r` meets nothing
/// farther than `NEAREST`, it is
/// the sky in the direction of `r`. Where `r` meets a surface, it is black if
/// the material absorbs, and else a colour that can arrive along the
/// scattered ray at one depth less, multiplied channel by channel by what the
/// material lets through.
pub open spec fn spec_path_color<H: Hittable>(world: &H, r: Ray, depth: nat, c: Color) -> bool
    decreases depth,
{
    if depth == 0 || r.direction.spec_length().raw == 0 {
        c == spec_black()
    } else {
        match world.spec_hit(r, Fixed { raw: NEAREST }, Fixed::spec_max_value()) {
            Some(hit) => {
                ||| hit.material.spec_scatters(r, hit, None) && c == spec_black()
                ||| exists|attenuation: Color, scattered: Ray, rest: Color|
                    #[trigger] hit.material.spec_scatters(r, hit, Some((attenuation, scattered)))
                        && spec_path_color(world, scattered, (depth - 1) as nat, rest) && c
                        == #[trigger] spec_component_mult(rest, attenuation)
            },
            None => c == spec_background(r.direction),
        }
    }
}

/// The sky in a direction.
pub fn background(direction: &Vec3) -> (c: Color)
    requires
        direction.spec_length().raw != 0,
    ensures
        c == spec_background(*direction),
        HALF <= c.x.raw <= SCALE,
        c.y == c.x,
        c.z.raw == SCALE,
{
    let unit_direction = unit_vector(direction);
    let t = Fixed::from_raw(HALF) * (unit_direction.y + Fixed::one());
    let white = Color::new(Fixed::one(), Fixed::one(), Fixed::one());
    let bluish = Color::new(Fixed::from_raw(HALF), Fixed::from_raw(HALF), Fixed::one());
    proof {
        lemma_blend(unit_direction.y);
    }
    white * (Fixed::one() - t) + bluish * t
}

/// The blend for a height between -1 and 1: red and green are equal and lie
/// from one half to 1, and blue is 1.
pub proof fn lemma_blend(y: Fixed)
    requires
        -SCALE <= y.raw <= SCALE,
    ensures
        ({
            let t = (Fixed { raw: HALF }).spec_mul(y.spec_add(Fixed::spec_one()));
            let c = spec_white().spec_mul(Fixed::spec_one().spec_sub(t)).spec_add(
                spec_bluish().spec_mul(t),
            );
            &&& 0 <= t.raw <= SCALE
            &&& HALF <= c.x.raw <= SCALE
            &&& c.y == c.x
            &&& c.z.raw == SCALE
        }),
{
    let w = y.spec_add(Fixed::spec_one());
    let t = (Fixed { raw: HALF }).spec_mul(w);
    assert(tdiv(500_000_000 * w.raw, 1_000_000_000) == w.raw / 2);
    let rest = Fixed::spec_one().spec_sub(t);
    lemma_mul_unit(rest);
    lemma_mul_unit(t);
    assert(tdiv(500_000_000 * t.raw, 1_000_000_000) == t.raw / 2);
}

/// Along a ray that meets nothing the colour is the sky in the ray's
/// direction, whatever depth is left and however long the direction is: red
/// and green are equal and lie from one half to 1, and blue is 1.
pub proof fn lemma_sky<H: Hittable>(world: &H, r: Ray, depth: nat, c: Color)
    requires
        depth >= 1,
        r.direction.spec_length().raw != 0,
        world.spec_hit(r, Fixed { raw: NEAREST }, Fixed::spec_max_value()) is None,
        spec_path_color(world, r, depth, c),
    ensures
        c == spec_background(r.direction),
        HALF <= c.x.raw <= SCALE,
        c.y == c.x,
        c.z.raw == SCALE,
{
    crate::precision::lemma_unit_vector(r.direction);
    lemma_blend(r.direction.spec_unit_vector().y);
}

/// A colour that arrives along `r`, following the light through at most
/// `recurse_depth` scatterings.
pub fn ray_color<H: Hittable>(world: &H, r: &Ray, recurse_depth: usize) -> (c: Color)
    requires
        world.wf(),
    ensures
        spec_path_color(world, *r, recurse_depth as nat, c),
        recurse_depth == 0 ==> c == spec_black(),
    decreases recurse_depth,
{
    if recurse_depth == 0 || length(&r.direction).raw == 0 {
        return Vec3::zero();
    }
    let nearest = Fixed::from_raw(NEAREST);
    match world.hit(r, nearest, Fixed::max_value()) {
        Some(hit) => {
            proof {
                world.lemma_window(*r, nearest, Fixed::spec_max_value(), Fixed::spec_max_value());
            }
            match hit.material.scatter(r, &hit) {
                Some((attenuation, scattered)) => {
                    let rc = ray_color(world, &scattered, recurse_depth - 1);
                    let c = component_mult(rc, attenuation);
                    proof {
                        assert(hit.material.spec_scatters(*r, hit, Some((attenuation, scattered))));
                    }
                    c
                },
                None => Vec3::zero(),
            }
        },
        None => background(&r.direction),
    }
}

/// Where in the image, from 0 to 1, a sample of the pixel with the given index
/// lies: `(index + draw) / extent`.
pub open spec fn spec_pixel_coordinate(index: u32, draw: Fixed, extent: u32) -> Fixed
    recommends
        extent > 0,
{
    Fixed::spec_from_count(index).spec_add(draw).spec_div(Fixed::spec_from_count(extent))
}

/// Where in the image a sample of the pixel with the given index lies.
pub fn pixel_coordinate(index: u32, draw: Fixed, extent: u32) -> (r: Fixed)
    requires
        extent > 0,
    ensures
        r == spec_pixel_coordinate(index, draw, extent),
{
    (Fixed::from_count(index) + draw) / Fixed::from_count(extent)
}

/// The mean of `samples` colours, given their sum.
pub open spec fn spec_average(sum: Color, samples: u32) -> Color
    recommends
        samples > 0,
{
    sum.spec_div(Fixed::spec_from_count(samples))
}

/// The mean of `samples` colours, given their sum.
pub fn average(sum: Color, samples: u32) -> (r: Color)
    requires
        samples > 0,
    ensures
        r == spec_average(sum, samples),
{
    sum / Fixed::from_count(samples)
}

/// Gamma correction with exponent one half: the square root of every channel.
pub open spec fn spec_gamma_correct(c: Color) -> Color {
    Vec3 { x: c.x.spec_sqrt(), y: c.y.spec_sqrt(), z: c.z.spec_sqrt() }
}

/// The square root of every channel.
pub fn gamma_correct(c: Color) -> (r: Color)
    ensures
        r == spec_gamma_correct(c),
{
    Vec3::new(c.x.sqrt(), c.y.sqrt(), c.z.sqrt())
}

/// `sum` can be the sum of `n` colours, each arriving along a ray that the
/// camera sends through a point drawn within the pixel `(x, y)`.
pub open spec fn spec_sample_sum<H: Hittable>(
    camera: Camera,
    world: &H,
    x: u32,
    y: u32,
    width: u32,
    height: u32,
    depth: nat,
    n: nat,
    sum: Color,
) -> bool
    decreases n,
{
    if n == 0 {
        sum == spec_black()
    } else {
        exists|before: Color, du: Fixed, dv: Fixed, ray: Ray, c: Color|
            spec_sample_sum(camera, world, x, y, width, height, depth, (n - 1) as nat, before)
                && spec_unit_interval(du) && spec_unit_interval(dv)
                && #[trigger] camera.spec_gets_ray(
                spec_pixel_coordinate(x, du, width),
                spec_pixel_coordinate(y, dv, height),
                ray,
            ) && spec_path_color(world, ray, depth, c) && sum == #[trigger] before.spec_add(c)
    }
}

/// `c` can be the colour of the pixel `(x, y)`: the mean of `samples` colours,
/// each arriving along a ray through a point drawn within the pixel, gamma
/// corrected.
pub open spec fn spec_pixel_color<H: Hittable>(
    camera: Camera,
    world: &H,
    x: u32,
    y: u32,
    width: u32,
    height: u32,
    samples: u32,
    depth: nat,
    c: Color,
) -> bool {
    exists|sum: Color| #[trigger]
        spec_sample_sum(camera, world, x, y, width, height, depth, samples as nat, sum) && c
            == spec_gamma_correct(spec_average(sum, samples))
}

/// The colour of the pixel `(x, y)` of an image of the given size, `y` counted
/// from the bottom.
pub fn pixel_color<H: Hittable>(
    camera: &Camera,
    world: &H,
    x: u32,
    y: u32,
    width: u32,
    height: u32,
    samples: u32,
    depth: usize,
) -> (c: Color)
    requires
        world.wf(),
        width > 0,
        height > 0,
        samples > 0,
    ensures
        spec_pixel_color(*camera, world, x, y, width, height, samples, depth as nat, c),
{
    let mut color = Vec3::zero();
    let mut done: u32 = 0;
    while done < samples
        invariant
            done <= samples,
            world.wf(),
            width > 0,
            height > 0,
            spec_sample_sum(*camera, world, x, y, width, height, depth as nat, done as nat, color),
        decreases samples - done,
    {
        let du = uniform();
        let dv = uniform();
        let u = pixel_coordinate(x, du, width);
        let v = pixel_coordinate(y, dv, height);
        let r = camera.get_ray(u, v);
        let c = ray_color(world, &r, depth);
        let ghost before = color;
        color = color + c;
        done = done + 1;
        proof {
            assert(camera.spec_gets_ray(
                spec_pixel_coordinate(x, du, width),
                spec_pixel_coordinate(y, dv, height),
                r,
            ));
        }
    }
    gamma_correct(average(color, samples))
}

/// The eight-bit value of a channel: the channel times 256, rounded toward
/// zero, and held within 0 and 255.
pub open spec fn spec_quantize(channel: Fixed) -> u8 {
    let whole = tdiv(channel.raw * 256, SCALE as int);
    if whole < 0 {
        0
    } else if whole > 255 {
        255
    } else {
        whole as u8
    }
}

/// The eight-bit value of a channel.
pub fn quantize(channel: Fixed) -> (r: u8)
    ensures
        r == spec_quantize(channel),
{
    let scaled: i128 = channel.raw as i128 * 256;
    let whole: i128 = scaled / (SCALE as i128);
    if whole < 0 {
        0
    } else if whole > 255 {
        255
    } else {
        whole as u8
    }
}

/// The eight-bit red, green and blue of a colour.
pub fn to_rgb(c: Color) -> (r: (u8, u8, u8))
    ensures
        r == (spec_quantize(c.x), spec_quantize(c.y), spec_quantize(c.z)),
{
    (quantize(c.x), quantize(c.y), quantize(c.z))
}

/// The row of the image, counted from the top, that holds the row `y` counted
/// from the bottom.
pub fn sink_row(y: usize, height: usize) -> (r: usize)
    requires
        y < height,
    ensures
        r == height - y - 1,
        r < height,
{
    height - y - 1
}

/// A number from 0 to 255 held at most at 255.
pub open spec fn spec_at_most_255(n: int) -> int {
    if n > 255 {
        255
    } else {
        n
    }
}

/// The eight-bit value of a gamma-corrected channel `c` between 0 and 1 is
/// the root of `c` times 256, rounded toward zero and held at most at 255.
/// Where that product lies less than one half above a whole number, this is
/// also the product rounded to the nearest whole number.
pub proof fn lemma_gamma_quantize(c: Fixed)
    requires
        0 <= c.raw <= SCALE,
    ensures
        spec_quantize(c.spec_sqrt()) == spec_at_most_255(isqrt(c.raw * SCALE) * 256 / (SCALE as int)),
        2 * ((isqrt(c.raw * SCALE) * 256) % (SCALE as int)) < SCALE ==> spec_quantize(
            c.spec_sqrt(),
        ) == spec_at_most_255((2 * isqrt(c.raw * SCALE) * 256 + SCALE) / (2 * SCALE)),
{
    lemma_sqrt_range(c);
    let root = isqrt(c.raw * SCALE);
    let n = root * 256;
    let q = n / 1_000_000_000;
    let m = n % 1_000_000_000;
    assert(n == q * 1_000_000_000 + m);
    if 2 * m < 1_000_000_000 {
        vstd::arithmetic::div_mod::lemma_fundamental_div_mod_converse(
            2 * n + 1_000_000_000,
            2_000_000_000,
            q,
            2 * m + 1_000_000_000,
        );
    }
}

} // verus!
