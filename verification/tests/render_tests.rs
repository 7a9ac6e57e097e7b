use pathtracer::{
    average, background, gamma_correct, pixel_color, pixel_coordinate, quantize, ray_color,
    sink_row, to_rgb, Camera, Fixed, Hittables, Material, MatteFinish, MetallicFinish, Ray, Sphere,
    Vec3, SCALE,
};

fn fx(n: i32) -> Fixed {
    Fixed::from_int(n)
}

fn black() -> Vec3 {
    Vec3::zero()
}

fn sky_at_the_horizon() -> Vec3 {
    Vec3::new(Fixed::from_ratio(3, 4), Fixed::from_ratio(3, 4), fx(1))
}

fn white_matte_sphere() -> Hittables<Sphere> {
    let mut world = Hittables::new();
    world.add(Sphere::new(
        Vec3::from_ints(0, 0, -1),
        Fixed::from_ratio(1, 2),
        Material::Matte(MatteFinish { albedo: Vec3::from_ints(1, 1, 1) }),
    ));
    world
}

fn through_the_centre() -> Ray {
    Ray::new(Vec3::zero(), Vec3::from_ints(0, 0, -1))
}

fn camera() -> Camera {
    Camera::new(
        Vec3::from_ints(0, 0, 0),
        Vec3::from_ints(0, 0, -1),
        Vec3::from_ints(0, 1, 0),
        fx(1),
        fx(2),
        fx(0),
    )
}

#[test]
fn background_is_a_gradient_by_height() {
    assert_eq!(background(&Vec3::from_ints(0, 0, -1)), sky_at_the_horizon());
    assert_eq!(background(&Vec3::from_ints(0, 7, 0)), Vec3::new(
        Fixed::from_ratio(1, 2),
        Fixed::from_ratio(1, 2),
        fx(1),
    ));
    assert_eq!(background(&Vec3::from_ints(0, -3, 0)), Vec3::from_ints(1, 1, 1));
    assert_eq!(
        background(&Vec3::from_ints(3, 4, 0)),
        Vec3::new(Fixed::from_ratio(55, 100), Fixed::from_ratio(55, 100), fx(1))
    );
}

#[test]
fn background_does_not_depend_on_the_length_of_the_direction() {
    let up_short = Vec3::new(fx(0), Fixed::from_raw(40_000), fx(0));
    assert_eq!(background(&up_short), background(&Vec3::from_ints(0, 7, 0)));
    let level_short = Vec3::new(fx(0), fx(0), Fixed::from_raw(-1));
    assert_eq!(background(&level_short), sky_at_the_horizon());
    let slanted = Vec3::new(Fixed::from_raw(3), Fixed::from_raw(4), fx(0));
    assert_eq!(background(&slanted), background(&Vec3::from_ints(3, 4, 0)));
}

#[test]
fn background_is_between_half_and_one_in_red_and_green_and_one_in_blue() {
    let mut seed: u64 = 0x2545_f491_4f6c_dd1d;
    let mut next = move || {
        seed ^= seed << 13;
        seed ^= seed >> 7;
        seed ^= seed << 17;
        seed
    };
    for round in 0..2000 {
        let d = Vec3::new(
            Fixed::from_raw((next() as i64) >> (round % 63) as u32),
            Fixed::from_raw((next() as i64) >> ((round * 5) % 63) as u32),
            Fixed::from_raw((next() as i64) >> ((round * 3) % 63) as u32),
        );
        if d == Vec3::zero() {
            continue;
        }
        let c = background(&d);
        assert!(SCALE / 2 <= c.x.raw && c.x.raw <= SCALE);
        assert_eq!(c.x, c.y);
        assert_eq!(c.z.raw, SCALE);
    }
}

#[test]
fn ray_color_along_a_short_direction_is_the_background() {
    let empty: Hittables<Sphere> = Hittables::new();
    let short = Ray::new(Vec3::zero(), Vec3::new(fx(0), Fixed::from_raw(40_000), fx(0)));
    assert_eq!(
        ray_color(&empty, &short, 1),
        Vec3::new(Fixed::from_ratio(1, 2), Fixed::from_ratio(1, 2), fx(1))
    );
    let shortest = Ray::new(Vec3::zero(), Vec3::new(fx(0), fx(0), Fixed::from_raw(-1)));
    assert_eq!(ray_color(&empty, &shortest, 7), sky_at_the_horizon());
    assert_eq!(ray_color(&white_matte_sphere(), &shortest, 1), black());
}

#[test]
fn ray_color_at_depth_zero_is_black() {
    let empty: Hittables<Sphere> = Hittables::new();
    assert_eq!(ray_color(&empty, &through_the_centre(), 0), black());
    assert_eq!(ray_color(&white_matte_sphere(), &through_the_centre(), 0), black());
    let up = Ray::new(Vec3::from_ints(5, 5, 5), Vec3::from_ints(0, 1, 0));
    assert_eq!(ray_color(&white_matte_sphere(), &up, 0), black());
}

#[test]
fn ray_color_of_a_miss_is_the_background() {
    let empty: Hittables<Sphere> = Hittables::new();
    assert_eq!(ray_color(&empty, &through_the_centre(), 1), sky_at_the_horizon());
    assert_eq!(ray_color(&empty, &through_the_centre(), 50), sky_at_the_horizon());
    let up = Ray::new(Vec3::from_ints(5, 5, 5), Vec3::from_ints(0, 1, 0));
    assert_eq!(ray_color(&white_matte_sphere(), &up, 50), background(&up.direction));
}

#[test]
fn ray_color_along_the_zero_direction_is_black() {
    let empty: Hittables<Sphere> = Hittables::new();
    let still = Ray::new(Vec3::from_ints(1, 2, 3), Vec3::zero());
    assert_eq!(ray_color(&empty, &still, 10), black());
}

#[test]
fn a_sphere_in_the_way_hides_the_background() {
    let world = white_matte_sphere();
    let seen = ray_color(&world, &through_the_centre(), 1);
    assert_eq!(seen, black());
    assert_ne!(seen, sky_at_the_horizon());
}

#[test]
fn a_mirror_facing_the_ray_shows_the_sky_behind_the_eye() {
    let mut world = Hittables::new();
    world.add(Sphere::new(
        Vec3::from_ints(0, 0, -5),
        fx(1),
        Material::Metallic(MetallicFinish {
            albedo: Vec3::new(Fixed::from_ratio(1, 2), fx(1), Fixed::from_ratio(1, 4)),
            fuzz: fx(0),
        }),
    ));
    let seen = ray_color(&world, &through_the_centre(), 5);
    assert_eq!(
        seen,
        Vec3::new(Fixed::from_ratio(3, 8), Fixed::from_ratio(3, 4), Fixed::from_ratio(1, 4))
    );
    assert_eq!(ray_color(&world, &through_the_centre(), 1), black());
}

#[test]
fn a_matte_sphere_dims_by_its_albedo() {
    let mut world = Hittables::new();
    world.add(Sphere::new(
        Vec3::from_ints(0, 0, -1),
        Fixed::from_ratio(1, 2),
        Material::Matte(MatteFinish { albedo: Vec3::new(fx(0), Fixed::from_ratio(1, 2), fx(1)) }),
    ));
    for _ in 0..50 {
        let seen = ray_color(&world, &through_the_centre(), 50);
        assert_eq!(seen.x, fx(0));
        assert!(seen.y.raw <= SCALE / 2);
        assert!(seen.z.raw <= SCALE);
    }
}

#[test]
fn pixel_coordinate_places_the_sample_in_the_image() {
    assert_eq!(pixel_coordinate(3, Fixed::from_ratio(1, 2), 7), Fixed::from_ratio(1, 2));
    assert_eq!(pixel_coordinate(0, fx(0), 600), fx(0));
    assert_eq!(pixel_coordinate(599, Fixed::from_raw(SCALE - 1), 600).raw, 999_999_999);
    assert_eq!(pixel_coordinate(1, fx(0), 3).raw, 333_333_333);
}

#[test]
fn average_divides_the_sum() {
    assert_eq!(average(Vec3::from_ints(3, 6, 9), 3), Vec3::from_ints(1, 2, 3));
    assert_eq!(
        average(Vec3::from_ints(1, 0, 200), 200),
        Vec3::new(Fixed::from_ratio(1, 200), fx(0), fx(1))
    );
}

#[test]
fn gamma_correct_takes_the_root_of_each_channel() {
    assert_eq!(
        gamma_correct(Vec3::new(Fixed::from_ratio(1, 4), fx(1), fx(0))),
        Vec3::new(Fixed::from_ratio(1, 2), fx(1), fx(0))
    );
    assert_eq!(gamma_correct(Vec3::from_ints(4, 9, -1)), Vec3::from_ints(2, 3, 0));
}

#[test]
fn quantize_scales_truncates_and_clamps() {
    assert_eq!(quantize(fx(0)), 0);
    assert_eq!(quantize(Fixed::from_ratio(1, 2)), 128);
    assert_eq!(quantize(Fixed::from_ratio(99, 100)), 253);
    assert_eq!(quantize(Fixed::from_ratio(999, 1000)), 255);
    assert_eq!(quantize(Fixed::from_raw(996_093_749)), 254);
    assert_eq!(quantize(Fixed::from_raw(996_093_750)), 255);
    assert_eq!(quantize(Fixed::from_raw(3_906_249)), 0);
    assert_eq!(quantize(Fixed::from_raw(3_906_250)), 1);
}

#[test]
fn quantize_holds_one_and_above_at_255() {
    assert_eq!(quantize(fx(1)), 255);
    assert_eq!(quantize(fx(2)), 255);
    assert_eq!(quantize(Fixed::max_value()), 255);
}

#[test]
fn quantize_holds_negative_channels_at_zero() {
    assert_eq!(quantize(Fixed::from_ratio(-3, 10)), 0);
    assert_eq!(quantize(fx(-5)), 0);
    assert_eq!(quantize(Fixed::from_raw(i64::MIN)), 0);
}

#[test]
fn to_rgb_quantizes_each_channel() {
    assert_eq!(to_rgb(Vec3::new(fx(1), Fixed::from_ratio(1, 2), fx(0))), (255, 128, 0));
}

#[test]
fn gamma_then_quantize_is_the_truncated_root_times_256() {
    let cases: [(Fixed, u8); 6] = [
        (fx(0), 0),
        (Fixed::from_ratio(1, 4), 128),
        (Fixed::from_ratio(1, 10_000), 2),
        (Fixed::from_ratio(1, 2), 181),
        (Fixed::from_ratio(9, 10), 242),
        (fx(1), 255),
    ];
    for (c, expected) in cases.iter() {
        let out = gamma_correct(Vec3::new(*c, *c, *c));
        assert_eq!(to_rgb(out), (*expected, *expected, *expected));
        let root = (c.raw as f64 / SCALE as f64).sqrt();
        let by_float = ((root * 256.0) as i64).min(255);
        assert_eq!(*expected as i64, by_float);
    }
}

#[test]
fn sink_row_counts_from_the_top() {
    assert_eq!(sink_row(0, 400), 399);
    assert_eq!(sink_row(399, 400), 0);
    assert_eq!(sink_row(0, 1), 0);
    assert_eq!(sink_row(4, 10), 5);
}

#[test]
fn pixel_color_of_an_empty_scene_is_sky() {
    let empty: Hittables<Sphere> = Hittables::new();
    let cam = camera();
    for x in 0..8 {
        for y in 0..4 {
            let c = pixel_color(&cam, &empty, x, y, 8, 4, 4, 10);
            assert_eq!(c.z, fx(1));
            assert!(c.x.raw >= 707_106_000 && c.x.raw <= SCALE);
            assert_eq!(c.x, c.y);
        }
    }
}

#[test]
fn pixel_color_behind_a_sphere_at_depth_one_is_black() {
    let world = white_matte_sphere();
    let cam = camera();
    let c = pixel_color(&cam, &world, 4, 2, 9, 5, 8, 1);
    assert_eq!(c, black());
}
