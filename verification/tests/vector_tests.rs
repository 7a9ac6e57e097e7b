use pathtracer::{
    component_mult, length, length_squared, near_zero, reflect, refract, unit_vector, Color, Fixed,
    Point3, Vec3, SCALE,
};

fn fx(n: i32) -> Fixed {
    Fixed::from_int(n)
}

fn raw(x: i64, y: i64, z: i64) -> Vec3 {
    Vec3::new(Fixed::from_raw(x), Fixed::from_raw(y), Fixed::from_raw(z))
}

#[test]
fn add_vec3() {
    assert_eq!(
        Vec3::default() + Vec3::new(fx(1), fx(2), fx(3)),
        Vec3::new(fx(1), fx(2), fx(3))
    );
}

#[test]
fn add_point3() {
    assert_eq!(
        Point3::default() + Point3::new(fx(1), fx(2), fx(3)),
        Point3::new(fx(1), fx(2), fx(3))
    );
}

#[test]
fn getters_return_the_components() {
    let v = Vec3::from_ints(1, 2, 3);
    assert_eq!((v.x(), v.y(), v.z()), (fx(1), fx(2), fx(3)));
    let c = Color::new(Fixed::from_ratio(1, 2), fx(0), fx(1));
    assert_eq!((c.r(), c.g(), c.b()), (Fixed::from_ratio(1, 2), fx(0), fx(1)));
    assert_eq!(Vec3::zero(), Vec3::from_ints(0, 0, 0));
    assert_eq!(Vec3::default(), Vec3::zero());
}

#[test]
fn arithmetic_is_componentwise() {
    let a = Vec3::from_ints(1, 2, 3);
    let b = Vec3::from_ints(4, 5, 6);
    assert_eq!(a + b, Vec3::from_ints(5, 7, 9));
    assert_eq!(a - b, Vec3::from_ints(-3, -3, -3));
    assert_eq!(-a, Vec3::from_ints(-1, -2, -3));
    assert_eq!(a.neg(), Vec3::from_ints(-1, -2, -3));
    assert_eq!(a * fx(2), Vec3::from_ints(2, 4, 6));
    assert_eq!(b / fx(2), raw(2_000_000_000, 2_500_000_000, 3_000_000_000));
    assert_eq!(a.add(b), a + b);
    assert_eq!(a.sub(b), a - b);
    assert_eq!(a.mul(fx(2)), a * fx(2));
    assert_eq!(b.div(fx(2)), b / fx(2));
}

#[test]
fn dot_and_cross() {
    let a = Vec3::from_ints(1, 2, 3);
    let b = Vec3::from_ints(4, 5, 6);
    assert_eq!(a.dot(&b), fx(32));
    assert_eq!(a.cross(&b), Vec3::from_ints(-3, 6, -3));
    assert_eq!(
        Vec3::from_ints(1, 0, 0).cross(&Vec3::from_ints(0, 1, 0)),
        Vec3::from_ints(0, 0, 1)
    );
    assert_eq!(a.cross(&a), Vec3::zero());
}

#[test]
fn length_and_length_squared() {
    let v = Vec3::from_ints(3, 4, 0);
    assert_eq!(v.length_squared(), fx(25));
    assert_eq!(v.length(), fx(5));
    assert_eq!(length_squared(&v), fx(25));
    assert_eq!(length(&v), fx(5));
    assert_eq!(length(&Vec3::from_ints(1, 2, 3)).raw, 3_741_657_386);
    assert_eq!(length(&Vec3::zero()), fx(0));
}

#[test]
fn length_of_a_tiny_vector_is_the_root_of_the_exact_sum_of_squares() {
    let v = raw(20_000, 10_000, 5_000);
    assert_eq!(length_squared(&v).raw, 0);
    assert_eq!(length(&v).raw, 22_912);
    assert_eq!(length(&raw(0, 0, 40_000)).raw, 40_000);
    assert_eq!(length(&raw(3, 4, 0)).raw, 5);
    assert_eq!(length(&raw(1, 1, 1)).raw, 1);
}

#[test]
fn length_of_a_huge_vector_is_clamped() {
    assert_eq!(length(&raw(i64::MAX, i64::MAX, i64::MIN)).raw, i64::MAX);
    assert_eq!(length(&raw(i64::MIN, 0, 0)).raw, i64::MAX);
    assert_eq!(length(&raw(i64::MAX, 0, 0)).raw, i64::MAX);
    assert_eq!(length(&raw(3_000_000_000_000_000_000, 4_000_000_000_000_000_000, 0)).raw,
        5_000_000_000_000_000_000);
}

#[test]
fn unit_vector_exact_cases() {
    assert_eq!(unit_vector(&Vec3::from_ints(0, 0, -5)), Vec3::from_ints(0, 0, -1));
    assert_eq!(
        unit_vector(&Vec3::from_ints(3, 4, 0)),
        raw(600_000_000, 800_000_000, 0)
    );
    assert_eq!(
        Vec3::from_ints(1, 2, 3).unit_vector(),
        raw(267_261_241, 534_522_483, 801_783_725)
    );
}

#[test]
fn unit_vector_has_length_one_within_tolerance() {
    let vectors = [
        Vec3::from_ints(3, 4, 0),
        Vec3::from_ints(1, 2, 3),
        Vec3::from_ints(-7, 1, 12),
        Vec3::from_ints(1000, -1000, 1000),
        raw(1_000_000, 2_000_000, 2_000_000),
        raw(123_456_789, -987_654_321, 555_555_555),
    ];
    for v in vectors.iter() {
        let len = length(&unit_vector(v));
        assert!((len.raw - SCALE).abs() <= 10, "length {} for {:?}", len.raw, v);
    }
}

#[test]
fn near_zero_compares_magnitudes() {
    assert!(near_zero(Vec3::zero()));
    assert!(near_zero(raw(9, -9, 9)));
    assert!(!near_zero(raw(10, 0, 0)));
    assert!(!near_zero(raw(0, -10, 0)));
    assert!(!near_zero(raw(0, 0, 10)));
    assert!(!near_zero(raw(-1_000_000_000, 0, 0)));
    assert!(!near_zero(raw(0, i64::MIN, 0)));
}

#[test]
fn component_mult_multiplies_channels() {
    assert_eq!(
        component_mult(Vec3::from_ints(1, 2, 3), Vec3::from_ints(4, 5, 6)),
        Vec3::from_ints(4, 10, 18)
    );
    let half = Fixed::from_ratio(1, 2);
    assert_eq!(
        component_mult(Vec3::new(half, half, fx(1)), Vec3::new(half, fx(0), half)),
        Vec3::new(Fixed::from_ratio(1, 4), fx(0), half)
    );
}

#[test]
fn reflect_mirrors_in_the_plane() {
    assert_eq!(
        reflect(Vec3::from_ints(1, -1, 0), Vec3::from_ints(0, 1, 0)),
        Vec3::from_ints(1, 1, 0)
    );
    assert_eq!(
        reflect(Vec3::from_ints(0, 0, -1), Vec3::from_ints(0, 0, 1)),
        Vec3::from_ints(0, 0, 1)
    );
    assert_eq!(
        reflect(Vec3::from_ints(2, 3, 4), Vec3::from_ints(1, 0, 0)),
        Vec3::from_ints(-2, 3, 4)
    );
}

#[test]
fn reflect_twice_in_an_axis_gives_the_vector_back() {
    let normals = [
        Vec3::from_ints(1, 0, 0),
        Vec3::from_ints(-1, 0, 0),
        Vec3::from_ints(0, 1, 0),
        Vec3::from_ints(0, -1, 0),
        Vec3::from_ints(0, 0, 1),
        Vec3::from_ints(0, 0, -1),
    ];
    let v = raw(3_000_000_001, -2_123_456_789, 5_000_000_000);
    for n in normals.iter() {
        let twice = reflect(reflect(v, *n), *n);
        assert_eq!(twice, v);
        assert_eq!(twice.dot(n), v.dot(n));
    }
}

#[test]
fn reflect_twice_in_a_rounded_unit_normal_keeps_the_normal_component_nearly() {
    let n = unit_vector(&Vec3::from_ints(1, 1, 0));
    let v = Vec3::from_ints(3, -2, 5);
    let twice = reflect(reflect(v, n), n);
    assert_eq!(v.dot(&n).raw, 707_106_781);
    assert_eq!(twice.dot(&n).raw, 707_106_780);
}

#[test]
fn refract_straight_through_at_ratio_one() {
    assert_eq!(
        refract(Vec3::from_ints(0, 0, -1), Vec3::from_ints(0, 0, 1), fx(1)),
        Vec3::from_ints(0, 0, -1)
    );
}

#[test]
fn refract_bends_toward_the_normal_when_entering() {
    let d = unit_vector(&Vec3::from_ints(1, 0, -1));
    assert_eq!(d, raw(707_106_781, 0, -707_106_781));
    let bent = refract(d, Vec3::from_ints(0, 0, 1), Fixed::from_ratio(2, 3));
    assert_eq!(bent, raw(471_404_520, 0, -881_917_104));
}

#[test]
fn unit_vector_length_stays_within_five_below_and_forty_thousand_above() {
    let vectors = [
        raw(10_000_000, 0, 0),
        raw(5_773_600, 5_773_600, 5_773_600),
        raw(-7_000_000, 7_200_000, 1),
        raw(12_345_678, -9_876_543, 23_456_789),
        raw(30_000_000_000_000, 30_000_000_000_000, -30_000_000_000_000),
        raw(999_999_999, 1, -1),
        raw(1, 2_000_000_000, 3),
    ];
    for v in vectors.iter() {
        assert!(length(v).raw >= 10_000_000);
        let len = length(&unit_vector(v)).raw;
        assert!(SCALE - 5 <= len && len <= SCALE + 40_000, "length {} for {:?}", len, v);
    }
}

#[test]
fn unit_vector_of_a_very_short_vector_is_as_exact_as_of_a_long_one() {
    assert_eq!(unit_vector(&raw(40_000, 0, 0)), raw(1_000_000_000, 0, 0));
    assert_eq!(unit_vector(&raw(0, 0, -40_000)), raw(0, 0, -1_000_000_000));
    assert_eq!(unit_vector(&raw(0, 1, 0)), raw(0, 1_000_000_000, 0));
    assert_eq!(unit_vector(&raw(1, 1, 0)), raw(707_106_781, 707_106_781, 0));
    assert_eq!(unit_vector(&raw(3, -4, 0)), raw(600_000_000, -800_000_000, 0));
    assert_eq!(unit_vector(&raw(-1, 2, 2)), raw(-333_333_333, 666_666_666, 666_666_666));
}

#[test]
fn unit_vector_of_a_huge_vector_is_not_clamped() {
    assert_eq!(unit_vector(&raw(i64::MAX, 0, 0)), raw(1_000_000_000, 0, 0));
    assert_eq!(unit_vector(&raw(i64::MIN, 0, 0)), raw(-1_000_000_000, 0, 0));
    let u = unit_vector(&raw(i64::MAX, i64::MAX, i64::MIN));
    assert_eq!((u.x.raw, u.y.raw), (577_350_269, 577_350_269));
    assert!(u.z.raw == -577_350_269 || u.z.raw == -577_350_270);
}

#[test]
fn unit_vector_has_length_one_or_at_most_four_raw_units_less_for_every_vector() {
    let mut seed: u64 = 0x9e37_79b9_7f4a_7c15;
    let mut next = move || {
        seed ^= seed << 13;
        seed ^= seed >> 7;
        seed ^= seed << 17;
        seed
    };
    for round in 0..3000 {
        let shift = (round % 63) as u32;
        let v = raw(
            (next() as i64) >> shift,
            (next() as i64) >> ((round * 7) % 63) as u32,
            (next() as i64) >> ((round * 11) % 63) as u32,
        );
        if v == Vec3::zero() {
            continue;
        }
        let u = unit_vector(&v);
        let len = length(&u).raw;
        assert!(SCALE - 4 <= len && len <= SCALE, "length {} for {:?}", len, v);
        for c in [u.x.raw, u.y.raw, u.z.raw].iter() {
            assert!(-SCALE <= *c && *c <= SCALE);
        }
        assert!(u.x.raw.signum() * v.x.raw.signum() >= 0);
        assert!(u.y.raw.signum() * v.y.raw.signum() >= 0);
        assert!(u.z.raw.signum() * v.z.raw.signum() >= 0);
    }
}

#[test]
fn reflect_twice_in_a_unit_vector_keeps_the_normal_component_within_tolerance() {
    let normals = [
        unit_vector(&Vec3::from_ints(1, 2, 3)),
        unit_vector(&Vec3::from_ints(-5, 1, 0)),
        unit_vector(&raw(12_345_678, -9_876_543, 23_456_789)),
    ];
    let vectors = [
        Vec3::from_ints(30_000, -20_000, 5),
        Vec3::from_ints(1, 1, 1),
        raw(-999_999_999, 123_456_789_012, 7),
    ];
    for n in normals.iter() {
        for v in vectors.iter() {
            let before = v.dot(n).raw;
            let after = reflect(reflect(*v, *n), *n).dot(n).raw;
            assert!(
                30_000_000 * (after - before).abs() <= before.abs() + 750_000_000,
                "{} became {}",
                before,
                after
            );
        }
    }
}
