use pathtracer::{
    Fixed, Hit, Hittable, Hittables, Material, MatteFinish, MetallicFinish, Point3, Ray,
    Refractive, Sphere, Vec3,
};

fn fx(n: i32) -> Fixed {
    Fixed::from_int(n)
}

fn matte(r: i32, g: i32, b: i32) -> Material {
    Material::Matte(MatteFinish { albedo: Vec3::from_ints(r, g, b) })
}

fn metal() -> Material {
    Material::Metallic(MetallicFinish { albedo: Vec3::from_ints(1, 1, 1), fuzz: fx(0) })
}

fn down_z() -> Ray {
    Ray::new(Point3::zero(), Vec3::from_ints(0, 0, -1))
}

fn sphere_at_minus_five() -> Sphere {
    Sphere::new(Vec3::from_ints(0, 0, -5), fx(1), matte(1, 0, 0))
}

#[test]
fn ray_at_walks_along_the_direction() {
    let r = Ray::new(Vec3::from_ints(1, 2, 3), Vec3::from_ints(0, -1, 2));
    assert_eq!(r.at(fx(0)), Vec3::from_ints(1, 2, 3));
    assert_eq!(r.at(fx(2)), Vec3::from_ints(1, 0, 7));
    assert_eq!(
        r.at(Fixed::from_ratio(-1, 2)),
        Vec3::new(fx(1), Fixed::from_ratio(5, 2), fx(2))
    );
    assert_eq!(r.origin, Vec3::from_ints(1, 2, 3));
    assert_eq!(r.direction, Vec3::from_ints(0, -1, 2));
}

#[test]
fn front_face_when_the_ray_runs_against_the_outward_normal() {
    let r = down_z();
    let h = Hit::new_with_front_face(
        Vec3::from_ints(0, 0, -4),
        fx(4),
        &r,
        Vec3::from_ints(0, 0, 1),
        metal(),
    );
    assert!(h.front_face);
    assert_eq!(h.normal, Vec3::from_ints(0, 0, 1));
    assert_eq!(h.p, Vec3::from_ints(0, 0, -4));
    assert_eq!(h.t, fx(4));
    assert_eq!(h.material, metal());
}

#[test]
fn back_face_turns_the_normal_against_the_ray() {
    let r = down_z();
    let h = Hit::new_with_front_face(
        Vec3::from_ints(0, 0, -6),
        fx(6),
        &r,
        Vec3::from_ints(0, 0, -1),
        metal(),
    );
    assert!(!h.front_face);
    assert_eq!(h.normal, Vec3::from_ints(0, 0, 1));
}

#[test]
fn a_ray_along_the_surface_counts_as_back_face() {
    let r = down_z();
    let h = Hit::new_with_front_face(
        Vec3::from_ints(1, 0, -5),
        fx(5),
        &r,
        Vec3::from_ints(1, 0, 0),
        metal(),
    );
    assert!(!h.front_face);
    assert_eq!(h.normal, Vec3::from_ints(-1, 0, 0));
}

#[test]
fn ray_through_the_centre_hits_at_distance_minus_radius() {
    let h = sphere_at_minus_five().hit(&down_z(), Fixed::from_ratio(1, 1000), Fixed::max_value());
    let h = h.unwrap();
    assert_eq!(h.t, fx(4));
    assert_eq!(h.p, Vec3::from_ints(0, 0, -4));
    assert_eq!(h.normal, Vec3::from_ints(0, 0, 1));
    assert!(h.front_face);
    assert_eq!(h.material, matte(1, 0, 0));
}

#[test]
fn ray_through_the_centre_hits_the_far_side_at_distance_plus_radius() {
    let h = sphere_at_minus_five().hit(&down_z(), Fixed::from_ratio(9, 2), Fixed::max_value());
    let h = h.unwrap();
    assert_eq!(h.t, fx(6));
    assert_eq!(h.p, Vec3::from_ints(0, 0, -6));
    assert_eq!(h.normal, Vec3::from_ints(0, 0, 1));
    assert!(!h.front_face);
}

#[test]
fn the_window_is_closed_at_both_ends() {
    let s = sphere_at_minus_five();
    assert_eq!(s.hit(&down_z(), fx(4), fx(4)).unwrap().t, fx(4));
    assert_eq!(s.hit(&down_z(), fx(6), fx(6)).unwrap().t, fx(6));
    assert_eq!(s.hit(&down_z(), Fixed::from_raw(4_000_000_001), fx(6)).unwrap().t, fx(6));
    assert!(s.hit(&down_z(), Fixed::from_raw(4_000_000_001), Fixed::from_raw(5_999_999_999))
        .is_none());
    assert!(s.hit(&down_z(), fx(0), Fixed::from_raw(3_999_999_999)).is_none());
    assert!(s.hit(&down_z(), Fixed::from_raw(6_000_000_001), Fixed::max_value()).is_none());
}

#[test]
fn a_ray_that_passes_beside_the_sphere_misses() {
    let s = sphere_at_minus_five();
    let beside = Ray::new(Vec3::from_ints(2, 0, 0), Vec3::from_ints(0, 0, -1));
    assert!(s.hit(&beside, Fixed::from_ratio(1, 1000), Fixed::max_value()).is_none());
    let away = Ray::new(Point3::zero(), Vec3::from_ints(0, 1, 0));
    assert!(s.hit(&away, Fixed::from_ratio(1, 1000), Fixed::max_value()).is_none());
}

#[test]
fn a_sphere_behind_the_ray_is_not_hit() {
    let s = Sphere::new(Vec3::from_ints(0, 0, 5), fx(1), matte(1, 0, 0));
    assert!(s.hit(&down_z(), Fixed::from_ratio(1, 1000), Fixed::max_value()).is_none());
    assert_eq!(s.hit(&down_z(), fx(-10), fx(0)).unwrap().t, fx(-6));
}

#[test]
fn a_tangent_ray_hits_once() {
    let s = sphere_at_minus_five();
    let tangent = Ray::new(Vec3::from_ints(1, 0, 0), Vec3::from_ints(0, 0, -1));
    let h = s.hit(&tangent, Fixed::from_ratio(1, 1000), Fixed::max_value()).unwrap();
    assert_eq!(h.t, fx(5));
    assert_eq!(h.p, Vec3::from_ints(1, 0, -5));
}

#[test]
fn a_direction_that_is_not_of_unit_length_scales_the_parameter() {
    let s = sphere_at_minus_five();
    let r = Ray::new(Point3::zero(), Vec3::from_ints(0, 0, -2));
    let h = s.hit(&r, Fixed::from_ratio(1, 1000), Fixed::max_value()).unwrap();
    assert_eq!(h.t, fx(2));
    assert_eq!(h.p, Vec3::from_ints(0, 0, -4));
    let far = s.hit(&r, Fixed::from_ratio(5, 2), Fixed::max_value()).unwrap();
    assert_eq!(far.t, fx(3));
    assert_eq!(far.p, Vec3::from_ints(0, 0, -6));
}

#[test]
fn a_ray_without_direction_hits_nothing() {
    let s = sphere_at_minus_five();
    let still = Ray::new(Vec3::from_ints(0, 0, -5), Vec3::zero());
    assert!(s.hit(&still, fx(-10), Fixed::max_value()).is_none());
}

#[test]
fn a_ray_from_inside_hits_the_back_face() {
    let s = sphere_at_minus_five();
    let inside = Ray::new(Vec3::from_ints(0, 0, -5), Vec3::from_ints(0, 0, -1));
    let h = s.hit(&inside, Fixed::from_ratio(1, 1000), Fixed::max_value()).unwrap();
    assert_eq!(h.t, fx(1));
    assert!(!h.front_face);
    assert_eq!(h.normal, Vec3::from_ints(0, 0, 1));
}

#[test]
fn an_empty_group_is_never_hit() {
    let world: Hittables<Sphere> = Hittables::new();
    assert!(world.hit(&down_z(), Fixed::from_ratio(1, 1000), Fixed::max_value()).is_none());
    let other: Hittables<Sphere> = Hittables::default();
    assert!(other.hit(&down_z(), Fixed::from_ratio(1, 1000), Fixed::max_value()).is_none());
    assert_eq!(other.hittables.len(), 0);
}

#[test]
fn the_nearer_of_two_overlapping_spheres_is_reported() {
    let far = Sphere::new(Vec3::from_ints(0, 0, -5), fx(1), matte(1, 0, 0));
    let near = Sphere::new(
        Vec3::new(fx(0), fx(0), Fixed::from_ratio(-9, 2)),
        fx(1),
        metal(),
    );

    let mut world = Hittables::new();
    world.add(far);
    world.add(near);
    let h = world.hit(&down_z(), Fixed::from_ratio(1, 1000), Fixed::max_value()).unwrap();
    assert_eq!(h.material, metal());
    assert_eq!(h.t, Fixed::from_ratio(7, 2));

    let mut reversed = Hittables::new();
    reversed.add(near);
    reversed.add(far);
    let g = reversed.hit(&down_z(), Fixed::from_ratio(1, 1000), Fixed::max_value()).unwrap();
    assert_eq!(g, h);
}

#[test]
fn the_group_reports_what_the_nearest_member_reports() {
    let spheres = [
        Sphere::new(Vec3::from_ints(0, 0, -20), fx(2), matte(1, 0, 0)),
        Sphere::new(Vec3::from_ints(0, 0, -8), fx(1), matte(0, 1, 0)),
        Sphere::new(Vec3::from_ints(5, 0, -3), fx(1), matte(0, 0, 1)),
        Sphere::new(Vec3::from_ints(0, 0, -12), fx(3), metal()),
    ];
    let mut world = Hittables::new();
    for s in spheres.iter() {
        world.add(*s);
    }
    let t_min = Fixed::from_ratio(1, 1000);
    let found = world.hit(&down_z(), t_min, Fixed::max_value()).unwrap();
    assert_eq!(Some(found), spheres[1].hit(&down_z(), t_min, Fixed::max_value()));
    assert_eq!(found.t, fx(7));
    for s in spheres.iter() {
        if let Some(h) = s.hit(&down_z(), t_min, Fixed::max_value()) {
            assert!(found.t <= h.t);
        }
    }
}

#[test]
fn the_group_respects_the_window() {
    let mut world = Hittables::new();
    world.add(Sphere::new(Vec3::from_ints(0, 0, -8), fx(1), matte(0, 1, 0)));
    world.add(Sphere::new(Vec3::from_ints(0, 0, -20), fx(2), matte(1, 0, 0)));
    assert_eq!(world.hit(&down_z(), fx(10), Fixed::max_value()).unwrap().t, fx(18));
    assert!(world.hit(&down_z(), fx(10), fx(17)).is_none());
    assert_eq!(world.hit(&down_z(), fx(8), fx(17)).unwrap().t, fx(9));
}

#[test]
fn of_two_members_at_the_same_distance_the_later_is_reported() {
    let glass = Material::Refractive(Refractive { ir: Fixed::from_ratio(3, 2) });
    let mut world = Hittables::new();
    world.add(Sphere::new(Vec3::from_ints(0, 0, -5), fx(1), matte(1, 0, 0)));
    world.add(Sphere::new(Vec3::from_ints(0, 0, -5), fx(1), glass));
    let h = world.hit(&down_z(), Fixed::from_ratio(1, 1000), Fixed::max_value()).unwrap();
    assert_eq!(h.material, glass);
    assert_eq!(h.t, fx(4));
}

#[test]
fn a_group_of_groups_reports_the_nearest_of_all() {
    let mut back = Hittables::new();
    back.add(Sphere::new(Vec3::from_ints(0, 0, -20), fx(2), matte(1, 0, 0)));
    back.add(Sphere::new(Vec3::from_ints(0, 0, -12), fx(3), matte(0, 0, 1)));
    let mut front = Hittables::new();
    front.add(Sphere::new(Vec3::from_ints(0, 0, -8), fx(1), metal()));
    let mut world = Hittables::new();
    world.add(back);
    world.add(front);
    let h = world.hit(&down_z(), Fixed::from_ratio(1, 1000), Fixed::max_value()).unwrap();
    assert_eq!(h.material, metal());
    assert_eq!(h.t, fx(7));
}

#[test]
fn the_roots_lie_exactly_the_radius_from_the_centre() {
    let s = Sphere::new(Vec3::from_ints(0, 0, -5), Fixed::from_raw(333_333_333), matte(1, 0, 0));
    let near = s.hit(&down_z(), Fixed::from_ratio(1, 1000), Fixed::max_value()).unwrap();
    assert_eq!(near.t.raw, 5_000_000_000 - 333_333_333);
    let far = s.hit(&down_z(), fx(5), Fixed::max_value()).unwrap();
    assert_eq!(far.t.raw, 5_000_000_000 + 333_333_333);
}

#[test]
fn a_tiny_sphere_is_hit_on_its_front_and_from_inside_on_its_back() {
    let tiny = Sphere::new(Vec3::from_ints(0, 0, -1), Fixed::from_raw(10_000), matte(1, 0, 0));
    let near = tiny.hit(&down_z(), Fixed::from_ratio(1, 1000), Fixed::max_value()).unwrap();
    assert_eq!(near.t.raw, 1_000_000_000 - 10_000);
    assert_eq!(near.p, Vec3::new(fx(0), fx(0), Fixed::from_raw(-999_990_000)));
    assert_eq!(near.normal, Vec3::from_ints(0, 0, 1));
    assert!(near.front_face);
    let far = tiny.hit(&down_z(), fx(1), Fixed::max_value()).unwrap();
    assert_eq!(far.t.raw, 1_000_000_000 + 10_000);
    assert_eq!(far.normal, Vec3::from_ints(0, 0, 1));
    assert!(!far.front_face);
}

#[test]
fn a_ray_that_passes_a_tiny_sphere_at_twice_its_radius_misses() {
    let tiny = Sphere::new(Vec3::from_ints(0, 0, -1), Fixed::from_raw(10_000), matte(1, 0, 0));
    let beside = Ray::new(Vec3::new(Fixed::from_raw(20_000), fx(0), fx(0)), Vec3::from_ints(0, 0, -1));
    assert!(tiny.hit(&beside, fx(-10), Fixed::max_value()).is_none());
    let just_beside = Ray::new(Vec3::new(Fixed::from_raw(10_001), fx(0), fx(0)), Vec3::from_ints(0, 0, -1));
    assert!(tiny.hit(&just_beside, fx(-10), Fixed::max_value()).is_none());
    let grazing = Ray::new(Vec3::new(Fixed::from_raw(10_000), fx(0), fx(0)), Vec3::from_ints(0, 0, -1));
    assert_eq!(grazing_t(&tiny, &grazing), 1_000_000_000);
    let one_raw_unit = Sphere::new(Vec3::from_ints(0, 0, -1), Fixed::from_raw(1), matte(1, 0, 0));
    assert_eq!(grazing_t(&one_raw_unit, &down_z()), 999_999_999);
}

fn grazing_t(s: &Sphere, r: &Ray) -> i64 {
    s.hit(r, fx(-10), Fixed::max_value()).unwrap().t.raw
}

#[test]
fn a_short_direction_is_traced_like_a_long_one() {
    let s = sphere_at_minus_five();
    let short = Ray::new(Point3::zero(), Vec3::new(fx(0), fx(0), Fixed::from_raw(-40_000)));
    let h = s.hit(&short, Fixed::from_ratio(1, 1000), Fixed::max_value()).unwrap();
    assert_eq!(h.t, fx(100_000));
    assert_eq!(h.p, Vec3::from_ints(0, 0, -4));
    assert_eq!(h.normal, Vec3::from_ints(0, 0, 1));
    assert!(h.front_face);
    let one_raw_unit = Ray::new(Point3::zero(), Vec3::new(fx(0), fx(0), Fixed::from_raw(-1)));
    let g = s.hit(&one_raw_unit, fx(0), Fixed::max_value()).unwrap();
    assert_eq!(g.t.raw, 4_000_000_000_000_000_000);
}

#[test]
fn a_slanted_ray_aimed_at_the_centre_hits_at_distance_less_radius_within_tolerance() {
    let centres = [(5i32, 5i32, 5i32), (-3, 7, 2), (100, -250, 40), (1, 0, -1)];
    let radii = [1_000_000_000i64, 10_000, 333_333_333, 1];
    for c in centres.iter() {
        for radius in radii.iter() {
            for stretch in [1i64, 3, 1_000_000_000].iter() {
                let centre = Vec3::from_ints(c.0, c.1, c.2);
                let s = Sphere::new(centre, Fixed::from_raw(*radius), matte(1, 0, 0));
                let direction = Vec3::new(
                    Fixed::from_raw(centre.x.raw / stretch),
                    Fixed::from_raw(centre.y.raw / stretch),
                    Fixed::from_raw(centre.z.raw / stretch),
                );
                let r = Ray::new(Point3::zero(), direction);
                let h = s.hit(&r, fx(0), Fixed::max_value()).unwrap();
                let d = ((c.0 as f64).powi(2) + (c.1 as f64).powi(2) + (c.2 as f64).powi(2)).sqrt();
                let len = ((direction.x.raw as f64).powi(2)
                    + (direction.y.raw as f64).powi(2)
                    + (direction.z.raw as f64).powi(2))
                .sqrt()
                    / 1e9;
                let expected = (d - *radius as f64 / 1e9) / len;
                let got = h.t.raw as f64 / 1e9;
                assert!(
                    (got - expected).abs() <= 4e-9 * (1.0 + expected),
                    "{} against {}",
                    got,
                    expected
                );
                if *radius >= 10_000 {
                    assert!(h.front_face);
                    let n = h.normal.length().raw;
                    assert!(1_000_000_000 - 4 <= n && n <= 1_000_000_000);
                    assert!(h.normal.dot(&direction).raw <= 0);
                }
                let expected_far = (d + *radius as f64 / 1e9) / len;
                if (expected_far - expected) * 1e9 < 3.0 {
                    continue;
                }
                let far = s
                    .hit(&r, Fixed::from_raw(h.t.raw + 1), Fixed::max_value())
                    .unwrap();
                let got_far = far.t.raw as f64 / 1e9;
                assert!((got_far - expected_far).abs() <= 4e-9 * (1.0 + expected_far));
                if *radius >= 10_000 {
                    assert!(!far.front_face);
                }
            }
        }
    }
}

#[test]
fn a_hit_on_a_sphere_of_ordinary_size_has_a_unit_normal_against_the_ray() {
    let s = Sphere::new(Vec3::from_ints(2, -1, -7), Fixed::from_ratio(3, 2), matte(1, 0, 0));
    let directions = [
        Vec3::from_ints(2, -1, -7),
        Vec3::new(Fixed::from_ratio(5, 2), fx(-1), fx(-7)),
        Vec3::new(fx(2), Fixed::from_ratio(-1, 5), fx(-6)),
        Vec3::new(Fixed::from_raw(300_000), Fixed::from_raw(-150_000), Fixed::from_raw(-900_000)),
    ];
    for d in directions.iter() {
        let r = Ray::new(Point3::zero(), *d);
        for t_min in [fx(0), fx(1)].iter() {
            if let Some(h) = s.hit(&r, *t_min, Fixed::max_value()) {
                assert!(t_min.raw <= h.t.raw);
                assert_eq!(h.p, r.at(h.t));
                let off = (h.p - s.center).length().raw;
                assert!((off - s.radius.raw).abs() <= 2_000_000, "off {}", off);
                let n = h.normal.length().raw;
                assert!(1_000_000_000 - 4 <= n && n <= 1_000_000_000, "normal {}", n);
                assert!(h.normal.dot(d).raw <= 0);
            }
        }
        assert!(s.hit(&r, fx(0), Fixed::max_value()).is_some());
    }
}

#[test]
fn a_ray_along_an_axis_misses_when_its_line_passes_farther_than_the_radius() {
    let s = sphere_at_minus_five();
    let grazing = Ray::new(Vec3::new(Fixed::from_raw(1_000_000_001), fx(0), fx(0)), Vec3::from_ints(0, 0, -1));
    assert!(s.hit(&grazing, fx(-100), Fixed::max_value()).is_none());
    let touching = Ray::new(Vec3::new(Fixed::from_raw(999_999_999), fx(0), fx(0)), Vec3::from_ints(0, 0, -1));
    assert!(s.hit(&touching, fx(-100), Fixed::max_value()).is_some());
    let along_x = Ray::new(Vec3::from_ints(-9, 2, -5), Vec3::from_ints(1, 0, 0));
    assert!(s.hit(&along_x, fx(-100), Fixed::max_value()).is_none());
    let along_x_through = Ray::new(Vec3::from_ints(-9, 0, -5), Vec3::from_ints(1, 0, 0));
    assert_eq!(s.hit(&along_x_through, fx(0), Fixed::max_value()).unwrap().t, fx(8));
}
