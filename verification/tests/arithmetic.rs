use diorama::fixed::{isqrt, times, ONE};
use diorama::trig::{cos, sin, wrap, HALF_PI, PI, TAU};
use diorama::vector::{Vec3, Wide3};

#[test]
fn products_round_toward_zero() {
    assert_eq!(times(1_500_000, 2 * ONE), 3 * ONE);
    assert_eq!(times(-1_500_000, 2 * ONE), -3 * ONE);
    assert_eq!(times(1, 500_000), 0);
    assert_eq!(times(-1, 500_000), 0);
    assert_eq!(times(3, 500_000), 1);
    assert_eq!(times(-3, 500_000), -1);
    assert_eq!(times(3, -500_000), -1);
    assert_eq!(times(16_000, 2 * ONE), 32_000);
    assert_eq!(times(1_099_511_627_776, 1_099_511_627_776), 1_208_925_819_614_629_174);
    assert_eq!(times(i64::MAX, ONE), i64::MAX);
    assert_eq!(times(i64::MIN, ONE), i64::MIN);
}

#[test]
fn square_roots_round_down() {
    assert_eq!(isqrt(0), 0);
    assert_eq!(isqrt(1), 1);
    assert_eq!(isqrt(3), 1);
    assert_eq!(isqrt(4), 2);
    assert_eq!(isqrt(15), 3);
    assert_eq!(isqrt(16), 4);
    assert_eq!(isqrt(1_000_000_000_000), 1_000_000);
    assert_eq!(isqrt(999_999_999_999), 999_999);
    assert_eq!(isqrt(u128::MAX), 18_446_744_073_709_551_615);
    assert_eq!(isqrt(18_446_744_073_709_551_615u128 * 18_446_744_073_709_551_615u128 - 1), 18_446_744_073_709_551_614);
}

#[test]
fn sine_at_its_landmarks() {
    assert_eq!(sin(0), 0);
    assert_eq!(sin(HALF_PI), ONE);
    assert_eq!(sin(PI), 0);
    assert_eq!(sin(PI + HALF_PI), -ONE);
    assert_eq!(sin(TAU), 0);
    assert_eq!(cos(0), ONE);
    assert_eq!(cos(HALF_PI), 0);
    assert_eq!(cos(PI), -ONE);
    assert_eq!(sin(523_599), 500_000);
}

#[test]
fn sine_and_cosine_in_between() {
    let expected = [
        (1, 1, 999_999),
        (785_398, 705_882, 705_882),
        (1_000_000, 840_218, 540_001),
        (2_000_000, 908_385, -416_785),
        (3_000_000, 142_635, -989_864),
        (4_000_000, -755_472, -652_634),
        (5_235_988, -864_864, 500_001),
        (-1, -1, 999_999),
        (-1_000_000, -840_218, 540_001),
        (100_000_000, -506_299, 861_152),
        (-100_000_000, 506_299, 861_152),
    ];
    for (x, s, c) in expected {
        assert_eq!(sin(x), s, "sin {}", x);
        assert_eq!(cos(x), c, "cos {}", x);
    }
}

#[test]
fn sine_is_close_to_the_circular_sine() {
    for i in -3000..3000i64 {
        let x = i * 2_111;
        let ours = sin(x) as f64 / ONE as f64;
        let theirs = (x as f64 / ONE as f64).sin();
        assert!((ours - theirs).abs() < 0.002, "{} {} {}", x, ours, theirs);
        let ours = cos(x) as f64 / ONE as f64;
        let theirs = (x as f64 / ONE as f64).cos();
        assert!((ours - theirs).abs() < 0.002, "{} {} {}", x, ours, theirs);
    }
}

#[test]
fn sine_is_odd_and_periodic_and_bounded() {
    for i in 0..5000i64 {
        let x = i * 7_333 - 9_000_000;
        assert_eq!(sin(-x), -sin(x));
        assert_eq!(sin(x + TAU), sin(x));
        assert_eq!(sin(x - 3 * TAU), sin(x));
        assert!(-ONE <= sin(x) && sin(x) <= ONE);
        assert_eq!(cos(x), sin(x + HALF_PI));
    }
    assert_eq!(sin(i64::MAX), -sin(-i64::MAX));
    assert!(-ONE <= sin(i64::MIN) && sin(i64::MIN) <= ONE);
    assert!(-ONE <= cos(i64::MAX) && cos(i64::MAX) <= ONE);
}

#[test]
fn angles_wrap_into_one_turn() {
    assert_eq!(wrap(0), 0);
    assert_eq!(wrap(TAU), 0);
    assert_eq!(wrap(TAU - 1), TAU - 1);
    assert_eq!(wrap(-1), TAU - 1);
    assert_eq!(wrap(-TAU), 0);
    assert_eq!(wrap(2 * TAU + 7), 7);
    assert_eq!(wrap(-2 * TAU - 7), TAU - 7);
}

#[test]
fn vectors_are_brought_to_a_length() {
    let v = |x, y, z| Vec3::new(x, y, z);
    assert_eq!(v(3 * ONE, 4 * ONE, 0).with_length(10 * ONE), v(6 * ONE, 8 * ONE, 0));
    assert_eq!(v(1, 1, 1).with_length(ONE), v(577_350, 577_350, 577_350));
    assert_eq!(v(-3, 4, -12).with_length(13 * ONE), v(-3 * ONE, 4 * ONE, -12 * ONE));
    assert_eq!(v(0, 0, 0).with_length(ONE), v(0, 0, 0));
    assert_eq!(v(0, -5, 0).with_length(0), v(0, 0, 0));
    let big = 2_147_483_648;
    assert_eq!(v(big, big, big).with_length(big), v(1_239_850_262, 1_239_850_262, 1_239_850_262));
    assert_eq!(v(-big, 0, 0).with_length(big), v(-big, 0, 0));
}

#[test]
fn a_vector_brought_to_a_length_is_never_longer_and_hardly_shorter() {
    let mut seed: i64 = 99;
    let mut next = || {
        seed = (seed * 1_103_515_245 + 12_345) % 2_147_483_648;
        seed
    };
    for _ in 0..3000 {
        let v = Vec3::new(next() % 2_001 - 1_000, next() % 2_001 - 1_000, next() - 1_073_741_824);
        let s = next() % (20 * ONE);
        let r = v.with_length(s);
        let n = (r.x as i128).pow(2) + (r.y as i128).pow(2) + (r.z as i128).pow(2);
        assert!(n <= (s as i128).pow(2));
        if s >= 2 && (v.x != 0 || v.y != 0 || v.z != 0) {
            assert!(n >= ((s - 2) as i128).pow(2));
        }
        assert!((r.x as i128) * (v.x as i128) >= 0);
        assert!((r.y as i128) * (v.y as i128) >= 0);
        assert!((r.z as i128) * (v.z as i128) >= 0);
    }
}

#[test]
fn vectors_are_interpolated() {
    let a = Vec3::new(ONE, 2 * ONE, 3 * ONE);
    let b = Vec3::new(3 * ONE, -2 * ONE, 3 * ONE);
    assert_eq!(a.lerp(&b, 0), a);
    assert_eq!(a.lerp(&b, ONE), b);
    assert_eq!(a.lerp(&b, 250_000), Vec3::new(1_500_000, ONE, 3 * ONE));
    assert_eq!(Vec3::new(0, 0, 0).lerp(&Vec3::new(10, -10, 7), 500_000), Vec3::new(5, -5, 3));
}

#[test]
fn lengths_are_squared_exactly() {
    assert_eq!(Vec3::new(3, -4, 12).len_sq(), 169);
    assert_eq!(Vec3::new(0, 0, 0).len_sq(), 0);
    let far = 1_099_511_627_776i64;
    assert_eq!(Vec3::new(far, -far, far).len_sq(), 3 * (far as u128) * (far as u128));
    assert!(Vec3::new(far, -far, 0).fits(far));
    assert!(!Vec3::new(far, -far - 1, 0).fits(far));
    assert!(!Vec3::new(0, 0, 1).fits(0));
    assert_eq!(Vec3::zero(), Vec3::new(0, 0, 0));
}

#[test]
fn wide_vectors_add_subtract_and_divide() {
    let a = Wide3::from_vec(Vec3::new(7, -7, 1));
    let b = Wide3::from_vec(Vec3::new(1, 2, 3));
    assert_eq!(a.plus(b).narrow(), Vec3::new(8, -5, 4));
    assert_eq!(a.minus(b).narrow(), Vec3::new(6, -9, -2));
    assert_eq!(a.ratio(3, 2).narrow(), Vec3::new(10, -10, 1));
    assert_eq!(a.ratio(-1, 2).narrow(), Vec3::new(-3, 3, 0));
    assert_eq!(a.len_sq(), 99);
    assert_eq!(Wide3::zero().narrow(), Vec3::new(0, 0, 0));
}

#[test]
fn wide_vectors_are_halved_until_they_fit() {
    let w = Wide3 { x: 1 << 40, y: -(1 << 35), z: 7 };
    assert_eq!(w.shrink(), Vec3::new(2_147_483_648, -67_108_864, 0));
    let small = Wide3 { x: 2_147_483_648, y: -2_147_483_648, z: 5 };
    assert_eq!(small.shrink(), Vec3::new(2_147_483_648, -2_147_483_648, 5));
    let over = Wide3 { x: 2_147_483_649, y: -3, z: 5 };
    assert_eq!(over.shrink(), Vec3::new(1_073_741_824, -1, 2));
    let huge = Wide3 { x: i128::MAX, y: i128::MIN, z: 0 };
    let r = huge.shrink();
    assert!(r.fits(2_147_483_648));
    assert!(r.x > 0 && r.y < 0 && r.z == 0);
}
