use geefr_ppm::Ppm;
use pathtracer::{
    new_image, render, render_row, set_pixel, Camera, Fixed, Hittables, Material, MatteFinish, Sphere, Vec3,
};

fn fx(n: i32) -> Fixed {
    Fixed::from_int(n)
}

fn camera() -> Camera {
    Camera::new(
        Vec3::from_ints(0, 0, 0),
        Vec3::from_ints(0, 0, -1),
        Vec3::from_ints(0, 1, 0),
        fx(1),
        fx(2),
        fx(0),
    )
}

#[test]
fn set_pixel_writes_the_three_bytes_of_the_pixel() {
    let mut ppm = Ppm::new(2, 2);
    set_pixel(&mut ppm, 1, 0, Vec3::new(fx(1), Fixed::from_ratio(1, 2), fx(0)));
    assert_eq!(ppm.data, vec![0, 0, 0, 255, 128, 0, 0, 0, 0, 0, 0, 0]);
    assert_eq!(ppm.get_pixel(1, 0), (255, 128, 0));
    set_pixel(&mut ppm, 0, 1, Vec3::new(Fixed::from_ratio(1, 4), fx(5), fx(-1)));
    assert_eq!(ppm.data, vec![0, 0, 0, 255, 128, 0, 64, 255, 0, 0, 0, 0]);
    assert_eq!((ppm.width, ppm.height), (2, 2));
}

#[test]
fn set_pixel_overwrites() {
    let mut ppm = Ppm::new(1, 1);
    set_pixel(&mut ppm, 0, 0, Vec3::from_ints(1, 1, 1));
    assert_eq!(ppm.data, vec![255, 255, 255]);
    set_pixel(&mut ppm, 0, 0, Vec3::zero());
    assert_eq!(ppm.data, vec![0, 0, 0]);
}

#[test]
fn render_fills_an_image_of_the_asked_size() {
    let empty: Hittables<Sphere> = Hittables::new();
    let ppm = render(&camera(), &empty, 6, 3, 2, 5);
    assert_eq!((ppm.width, ppm.height), (6, 3));
    assert_eq!(ppm.data.len(), 6 * 3 * 3);
    for y in 0..3 {
        for x in 0..6 {
            let (r, g, b) = ppm.get_pixel(x, y);
            assert_eq!(b, 255);
            assert_eq!(r, g);
            assert!(r >= 181);
        }
    }
}

#[test]
fn render_puts_the_top_of_the_scene_in_the_first_row() {
    let empty: Hittables<Sphere> = Hittables::new();
    let ppm = render(&camera(), &empty, 3, 9, 4, 5);
    let (top, _, _) = ppm.get_pixel(1, 0);
    let (bottom, _, _) = ppm.get_pixel(1, 8);
    assert!(top < bottom);
}

#[test]
fn render_shows_a_sphere_in_the_middle_darker_than_the_sky() {
    let mut world = Hittables::new();
    world.add(Sphere::new(
        Vec3::from_ints(0, 0, -1),
        Fixed::from_ratio(1, 2),
        Material::Matte(MatteFinish { albedo: Vec3::new(fx(0), fx(0), fx(0)) }),
    ));
    let ppm = render(&camera(), &world, 9, 5, 4, 5);
    assert_eq!(ppm.get_pixel(4, 2), (0, 0, 0));
    let (_, _, corner_blue) = ppm.get_pixel(0, 0);
    assert_eq!(corner_blue, 255);
}

#[test]
fn new_image_is_black() {
    let mut ppm = new_image(3, 2);
    assert_eq!((ppm.width, ppm.height), (3, 2));
    assert_eq!(ppm.data, vec![0u8; 18]);
    set_pixel(&mut ppm, 2, 1, Vec3::from_ints(1, 1, 1));
    assert_eq!(ppm.get_pixel(2, 1), (255, 255, 255));
    assert_eq!(ppm.get_pixel(1, 1), (0, 0, 0));
}

#[test]
fn render_row_fills_one_row_and_leaves_the_others() {
    let empty: Hittables<Sphere> = Hittables::new();
    let mut ppm = new_image(4, 3);
    render_row(&mut ppm, &camera(), &empty, 0, 4, 3, 2, 5);
    for x in 0..4 {
        assert_eq!(ppm.get_pixel(x, 0), (0, 0, 0));
        assert_eq!(ppm.get_pixel(x, 1), (0, 0, 0));
        let (r, g, b) = ppm.get_pixel(x, 2);
        assert_eq!(b, 255);
        assert_eq!(r, g);
        assert!(r >= 181);
    }
    render_row(&mut ppm, &camera(), &empty, 2, 4, 3, 2, 5);
    for x in 0..4 {
        assert_eq!(ppm.get_pixel(x, 0).2, 255);
        assert_eq!(ppm.get_pixel(x, 1), (0, 0, 0));
        assert_eq!(ppm.get_pixel(x, 2).2, 255);
    }
}
