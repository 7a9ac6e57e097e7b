//! The image: pixels of a `geefr_ppm::Ppm`.
//!
//! A `Ppm` is a buffer of bytes, three to a pixel, row after row from the top.
//! Verus does not look inside it. The contracts speak of the buffer through
//! `ppm_data` and of the length of a row through `ppm_width`.

use crate::camera::Camera;
use crate::hit::Hittable;
use crate::render::{pixel_color, sink_row, spec_pixel_color, spec_quantize, to_rgb};
use crate::vec3::Color;
use geefr_ppm::Ppm;
use vstd::prelude::*;

verus! {

/// Declares `geefr_ppm::Ppm` as a type whose inside is not looked at.
#[verifier::external_type_specification]
#[verifier::external_body]
pub struct ExPpm(geefr_ppm::Ppm);

/// The bytes of the image: the field `data`.
pub uninterp spec fn ppm_data(ppm: Ppm) -> Seq<u8>;

/// The pixels in a row of the image: the field `width`.
pub uninterp spec fn ppm_width(ppm: Ppm) -> nat;

/// Calls `geefr_ppm::Ppm::new`, which stores the width and allocates
/// `width * height * 3` bytes, all 0. The product has to fit an allocation.
#[verifier::external_body]
fn ppm_new(width: usize, height: usize) -> (ppm: Ppm)
    requires
        width * height * 3 <= isize::MAX,
    ensures
        ppm_width(ppm) == width,
        ppm_data(ppm) == Seq::new((width * height * 3) as nat, |i: int| 0u8),
{
    Ppm::new(width, height)
}

/// Calls `geefr_ppm::Ppm::set_pixel`, which writes the three bytes at
/// `y * width * 3 + x * 3` and at the two places after it, and panics where
/// those lie outside the buffer. It does not compare `x` with the width.
#[verifier::external_body]
fn ppm_set_pixel(ppm: &mut Ppm, x: usize, y: usize, r: u8, g: u8, b: u8)
    requires
        spec_offset(*old(ppm), x, y) + 2 < ppm_data(*old(ppm)).len(),
    ensures
        ppm_width(*final(ppm)) == ppm_width(*old(ppm)),
        ppm_data(*final(ppm)) == ppm_data(*old(ppm)).update(spec_offset(*old(ppm), x, y), r).update(
            spec_offset(*old(ppm), x, y) + 1,
            g,
        ).update(spec_offset(*old(ppm), x, y) + 2, b),
{
    ppm.set_pixel(x, y, r, g, b)
}

/// A black image of the given size.
pub fn new_image(width: usize, height: usize) -> (ppm: Ppm)
    requires
        width * height * 3 <= isize::MAX,
    ensures
        ppm_width(ppm) == width,
        ppm_data(ppm) == Seq::new((width * height * 3) as nat, |i: int| 0u8),
{
    ppm_new(width, height)
}

/// Where in the buffer the pixel `(x, y)` begins.
pub open spec fn spec_offset(ppm: Ppm, x: usize, y: usize) -> int {
    y * ppm_width(ppm) * 3 + x * 3
}

/// Sets the pixel `(x, y)` of the image, `y` counted from the top, to the
/// eight-bit values of the colour `c`.
pub fn set_pixel(ppm: &mut Ppm, x: usize, y: usize, c: Color)
    requires
        spec_offset(*old(ppm), x, y) + 2 < ppm_data(*old(ppm)).len(),
    ensures
        ppm_width(*final(ppm)) == ppm_width(*old(ppm)),
        ppm_data(*final(ppm)) == ppm_data(*old(ppm)).update(
            spec_offset(*old(ppm), x, y),
            spec_quantize(c.x),
        ).update(spec_offset(*old(ppm), x, y) + 1, spec_quantize(c.y)).update(
            spec_offset(*old(ppm), x, y) + 2,
            spec_quantize(c.z),
        ),
{
    let (r, g, b) = to_rgb(c);
    ppm_set_pixel(ppm, x, y, r, g, b);
}

/// The pixel `(x, row)` of the image, `row` counted from the top, holds the
/// eight-bit values of `c`.
pub open spec fn spec_shows(ppm: Ppm, x: int, row: int, c: Color) -> bool {
    let at = row * ppm_width(ppm) * 3 + x * 3;
    &&& 0 <= at
    &&& at + 2 < ppm_data(ppm).len()
    &&& ppm_data(ppm)[at] == spec_quantize(c.x)
    &&& ppm_data(ppm)[at + 1] == spec_quantize(c.y)
    &&& ppm_data(ppm)[at + 2] == spec_quantize(c.z)
}

/// The image holds, where the pixel `(x, y)` belongs, `y` counted from the
/// bottom, a colour that the kernel can find for that pixel.
pub open spec fn spec_rendered<H: Hittable>(
    ppm: Ppm,
    camera: Camera,
    world: &H,
    x: u32,
    y: u32,
    width: u32,
    height: u32,
    samples: u32,
    depth: nat,
) -> bool {
    exists|c: Color| #[trigger]
        spec_pixel_color(camera, world, x, y, width, height, samples, depth, c) && spec_shows(
            ppm,
            x as int,
            height - y - 1,
            c,
        )
}

/// The bytes of two different pixels lie apart.
proof fn lemma_pixels_apart(width: int, x1: int, row1: int, x2: int, row2: int)
    requires
        0 <= x1 < width,
        0 <= x2 < width,
        0 <= row1,
        0 <= row2,
        x1 != x2 || row1 != row2,
    ensures
        row1 * width * 3 + x1 * 3 + 3 <= row2 * width * 3 + x2 * 3 || row2 * width * 3 + x2 * 3 + 3
            <= row1 * width * 3 + x1 * 3,
{
    if row1 < row2 {
        assert(row1 * width + width <= row2 * width) by (nonlinear_arith)
            requires
                row1 + 1 <= row2,
                width > 0,
        ;
    } else if row2 < row1 {
        assert(row2 * width + width <= row1 * width) by (nonlinear_arith)
            requires
                row2 + 1 <= row1,
                width > 0,
        ;
    }
}

/// Setting one pixel leaves what every other pixel shows.
proof fn lemma_shows_kept(
    before: Ppm,
    after: Ppm,
    width: int,
    x: int,
    row: int,
    set: Color,
    i: int,
    other: int,
    c: Color,
)
    requires
        ppm_width(before) == width,
        ppm_width(after) == width,
        0 <= x < width,
        0 <= i < width,
        0 <= row,
        0 <= other,
        x != i || row != other,
        row * width * 3 + x * 3 + 2 < ppm_data(before).len(),
        ppm_data(after) == ppm_data(before).update(
            row * width * 3 + x * 3,
            spec_quantize(set.x),
        ).update(row * width * 3 + x * 3 + 1, spec_quantize(set.y)).update(
            row * width * 3 + x * 3 + 2,
            spec_quantize(set.z),
        ),
        spec_shows(before, i, other, c),
    ensures
        spec_shows(after, i, other, c),
        spec_shows(after, x, row, set),
{
    lemma_pixels_apart(width, i, other, x, row);
    assert(0 <= row * width * 3) by (nonlinear_arith)
        requires
            0 <= row,
            0 < width,
    ;
}

/// Setting one pixel leaves every other pixel rendered.
proof fn lemma_rendered_kept<H: Hittable>(
    before: Ppm,
    after: Ppm,
    camera: Camera,
    world: &H,
    width: u32,
    height: u32,
    samples: u32,
    depth: nat,
    x: u32,
    y: u32,
    set: Color,
    i: u32,
    j: u32,
)
    requires
        ppm_width(before) == width,
        ppm_width(after) == width,
        x < width,
        i < width,
        y < height,
        j < height,
        x != i || y != j,
        (height - y - 1) * width * 3 + x * 3 + 2 < ppm_data(before).len(),
        ppm_data(after) == ppm_data(before).update(
            (height - y - 1) * width * 3 + x * 3,
            spec_quantize(set.x),
        ).update((height - y - 1) * width * 3 + x * 3 + 1, spec_quantize(set.y)).update(
            (height - y - 1) * width * 3 + x * 3 + 2,
            spec_quantize(set.z),
        ),
        spec_rendered(before, camera, world, i, j, width, height, samples, depth),
    ensures
        spec_rendered(after, camera, world, i, j, width, height, samples, depth),
{
    let c = choose|c: Color| #[trigger]
        spec_pixel_color(camera, world, i, j, width, height, samples, depth, c) && spec_shows(
            before,
            i as int,
            height - j - 1,
            c,
        );
    lemma_shows_kept(
        before,
        after,
        width as int,
        x as int,
        height - y - 1,
        set,
        i as int,
        height - j - 1,
        c,
    );
}

/// Renders one row of the image: the row `y`, counted from the bottom. Every
/// pixel of the row then holds a colour that the kernel can find for it, and
/// every pixel that was rendered in another row stays so.
pub fn render_row<H: Hittable>(
    ppm: &mut Ppm,
    camera: &Camera,
    world: &H,
    y: u32,
    width: u32,
    height: u32,
    samples: u32,
    depth: usize,
)
    requires
        world.wf(),
        width > 0,
        samples > 0,
        y < height,
        ppm_width(*old(ppm)) == width,
        ppm_data(*old(ppm)).len() == width * height * 3,
    ensures
        ppm_width(*final(ppm)) == width,
        ppm_data(*final(ppm)).len() == width * height * 3,
        forall|i: u32|
            i < width ==> #[trigger] spec_rendered(
                *final(ppm),
                *camera,
                world,
                i,
                y,
                width,
                height,
                samples,
                depth as nat,
            ),
        forall|i: u32, j: u32|
            i < width && j < height && j != y && spec_rendered(
                *old(ppm),
                *camera,
                world,
                i,
                j,
                width,
                height,
                samples,
                depth as nat,
            ) ==> #[trigger] spec_rendered(
                *final(ppm),
                *camera,
                world,
                i,
                j,
                width,
                height,
                samples,
                depth as nat,
            ),
{
    let mut x: u32 = 0;
    while x < width
        invariant
            world.wf(),
            width > 0,
            samples > 0,
            y < height,
            x <= width,
            ppm_width(*ppm) == width,
            ppm_data(*ppm).len() == width * height * 3,
            forall|i: u32|
                i < x ==> #[trigger] spec_rendered(
                    *ppm,
                    *camera,
                    world,
                    i,
                    y,
                    width,
                    height,
                    samples,
                    depth as nat,
                ),
            forall|i: u32, j: u32|
                i < width && j < height && j != y && spec_rendered(
                    *old(ppm),
                    *camera,
                    world,
                    i,
                    j,
                    width,
                    height,
                    samples,
                    depth as nat,
                ) ==> #[trigger] spec_rendered(
                    *ppm,
                    *camera,
                    world,
                    i,
                    j,
                    width,
                    height,
                    samples,
                    depth as nat,
                ),
        decreases width - x,
    {
        let color = pixel_color(camera, world, x, y, width, height, samples, depth);
        let row = sink_row(y as usize, height as usize);
        assert(row * width * 3 + x * 3 + 2 < width * height * 3) by (nonlinear_arith)
            requires
                0 <= row < height,
                0 <= x < width,
        ;
        let ghost before = *ppm;
        set_pixel(ppm, x as usize, row, color);
        proof {
            assert(0 <= row * width * 3) by (nonlinear_arith)
                requires
                    0 <= row,
                    0 < width,
            ;
            assert(spec_shows(*ppm, x as int, height - y - 1, color));
            assert(spec_rendered(
                *ppm,
                *camera,
                world,
                x,
                y,
                width,
                height,
                samples,
                depth as nat,
            ));
            assert forall|i: u32| i < x implies #[trigger] spec_rendered(
                *ppm,
                *camera,
                world,
                i,
                y,
                width,
                height,
                samples,
                depth as nat,
            ) by {
                lemma_rendered_kept(
                    before,
                    *ppm,
                    *camera,
                    world,
                    width,
                    height,
                    samples,
                    depth as nat,
                    x,
                    y,
                    color,
                    i,
                    y,
                );
            }
            assert forall|i: u32, j: u32|
                i < width && j < height && j != y && spec_rendered(
                    *old(ppm),
                    *camera,
                    world,
                    i,
                    j,
                    width,
                    height,
                    samples,
                    depth as nat,
                ) implies #[trigger] spec_rendered(
                *ppm,
                *camera,
                world,
                i,
                j,
                width,
                height,
                samples,
                depth as nat,
            ) by {
                lemma_rendered_kept(
                    before,
                    *ppm,
                    *camera,
                    world,
                    width,
                    height,
                    samples,
                    depth as nat,
                    x,
                    y,
                    color,
                    i,
                    j,
                );
            }
        }
        x = x + 1;
    }
}

/// The image of the scene `world` as `camera` sees it: every pixel holds the
/// mean of `samples` colours, each followed through at most `depth`
/// scatterings. The kernel counts rows upward from the bottom; the image holds
/// the top row first.
pub fn render<H: Hittable>(
    camera: &Camera,
    world: &H,
    width: u32,
    height: u32,
    samples: u32,
    depth: usize,
) -> (ppm: Ppm)
    requires
        world.wf(),
        width > 0,
        height > 0,
        samples > 0,
        width * height * 3 <= isize::MAX,
    ensures
        ppm_width(ppm) == width,
        ppm_data(ppm).len() == width * height * 3,
        forall|x: u32, y: u32|
            x < width && y < height ==> #[trigger] spec_rendered(
                ppm,
                *camera,
                world,
                x,
                y,
                width,
                height,
                samples,
                depth as nat,
            ),
{
    let mut ppm = new_image(width as usize, height as usize);
    let mut y: u32 = 0;
    while y < height
        invariant
            world.wf(),
            width > 0,
            height > 0,
            samples > 0,
            y <= height,
            ppm_width(ppm) == width,
            ppm_data(ppm).len() == width * height * 3,
            forall|i: u32, j: u32|
                i < width && j < y ==> #[trigger] spec_rendered(
                    ppm,
                    *camera,
                    world,
                    i,
                    j,
                    width,
                    height,
                    samples,
                    depth as nat,
                ),
        decreases height - y,
    {
        render_row(&mut ppm, camera, world, y, width, height, samples, depth);
        y = y + 1;
    }
    ppm
}

} // verus!
