use systems_critical::fixed::{ceil_sqrt, fx_mul, COORD_MAX, ONE};
use systems_critical::trig::{vec_from_angle, HALF_PI, PI, THREE_HALF_PI, TWO_PI};
use systems_critical::vector::Vector;

fn len2(v: Vector) -> i64 {
    v.x * v.x + v.y * v.y
}

#[test]
fn fx_mul_rounds_toward_zero() {
    assert_eq!(fx_mul(ONE, ONE), ONE);
    assert_eq!(fx_mul(90_000, 30_000), 45_000);
    assert_eq!(fx_mul(-90_000, 30_000), -45_000);
    assert_eq!(fx_mul(1, 59_999), 0);
    assert_eq!(fx_mul(-1, 59_999), 0);
    assert_eq!(fx_mul(-1, 60_000), -1);
    assert_eq!(fx_mul(7, -60_001), -7);
    assert_eq!(fx_mul(0, 123), 0);
}

#[test]
fn ceil_sqrt_small_values() {
    assert_eq!(ceil_sqrt(0), 0);
    assert_eq!(ceil_sqrt(1), 1);
    assert_eq!(ceil_sqrt(2), 2);
    assert_eq!(ceil_sqrt(4), 2);
    assert_eq!(ceil_sqrt(5), 3);
    assert_eq!(ceil_sqrt(9), 3);
    assert_eq!(ceil_sqrt(10), 4);
}

#[test]
fn ceil_sqrt_large_values() {
    assert_eq!(ceil_sqrt(3_600_000_000), 60_000);
    assert_eq!(ceil_sqrt(3_600_000_001), 60_001);
    assert_eq!(ceil_sqrt(3_599_999_999), 60_000);
    assert_eq!(ceil_sqrt(1_000_000_000_000_000_000), 1_000_000_000);
    assert_eq!(ceil_sqrt(i64::MAX as u64), 3_037_000_500);
}

#[test]
fn ceil_sqrt_is_least_root() {
    let mut n: u64 = 0;
    while n < 5_000 {
        let r = ceil_sqrt(n);
        assert!(r * r >= n);
        assert!(r == 0 || (r - 1) * (r - 1) < n);
        n += 1;
    }
}

#[test]
fn vector_sum_and_scale() {
    let a = Vector::new(3, -4);
    let b = Vector::new(10, 20);
    assert_eq!(a.plus(b), Vector::new(13, 16));
    assert_eq!(Vector::zero(), Vector::new(0, 0));
    assert_eq!(Vector::new(120_000, -90_000).scale(30_000), Vector::new(60_000, -45_000));
    assert_eq!(Vector::new(1, -1).scale(59_999), Vector::new(0, 0));
}

#[test]
fn vector_lengths() {
    assert_eq!(Vector::new(3, -4).len2(), 25);
    assert_eq!(Vector::new(0, 0).len2(), 0);
    assert_eq!(Vector::new(1, 2).dist2(Vector::new(4, 6)), 25);
    assert_eq!(
        Vector::new(COORD_MAX, COORD_MAX).dist2(Vector::new(-COORD_MAX, -COORD_MAX)),
        8_000_000_000_000_000_000
    );
}

#[test]
fn with_len_keeps_direction() {
    assert_eq!(Vector::new(3, 4).with_len(10), Vector::new(6, 8));
    assert_eq!(Vector::new(-3, 4).with_len(10), Vector::new(-6, 8));
    assert_eq!(Vector::new(30_000_000, 40_000_000).with_len(12_000_000), Vector::new(7_200_000, 9_600_000));
    assert_eq!(Vector::new(13_000_000, 1).with_len(12_000_000), Vector::new(11_999_999, 0));
    assert_eq!(Vector::new(-20_000_000, 5).with_len(12_000_000), Vector::new(-11_999_999, 2));
    assert_eq!(Vector::new(9_000_000, -9_000_000).with_len(12_000_000), Vector::new(8_485_280, -8_485_280));
    assert_eq!(Vector::new(0, 7).with_len(0), Vector::new(0, 0));
}

#[test]
fn heading_of_zero_points_up() {
    assert_eq!(vec_from_angle(0), Vector::new(0, ONE));
    assert_eq!(vec_from_angle(TWO_PI), Vector::new(0, ONE));
    assert_eq!(vec_from_angle(PI), Vector::new(0, -ONE));
}

#[test]
fn heading_table() {
    assert_eq!(vec_from_angle(1), Vector::new(0, 59_999));
    assert_eq!(vec_from_angle(30_000), Vector::new(28_765, 52_654));
    assert_eq!(vec_from_angle(47_124), Vector::new(42_425, 42_426));
    assert_eq!(vec_from_angle(60_000), Vector::new(50_488, 32_417));
    assert_eq!(vec_from_angle(HALF_PI), Vector::new(59_999, 1));
    assert_eq!(vec_from_angle(HALF_PI + 1), Vector::new(59_999, -1));
    assert_eq!(vec_from_angle(100_000), Vector::new(59_724, -5_744));
    assert_eq!(vec_from_angle(PI + 1), Vector::new(0, -59_999));
    assert_eq!(vec_from_angle(250_000), Vector::new(-51_284, -31_142));
    assert_eq!(vec_from_angle(THREE_HALF_PI), Vector::new(-59_999, -1));
    assert_eq!(vec_from_angle(THREE_HALF_PI + 1), Vector::new(-59_999, 1));
    assert_eq!(vec_from_angle(300_000), Vector::new(-57_535, 17_020));
    assert_eq!(vec_from_angle(TWO_PI - 1), Vector::new(0, 59_999));
}

#[test]
fn heading_of_negative_and_large_angles() {
    assert_eq!(vec_from_angle(-1), Vector::new(0, 59_999));
    assert_eq!(vec_from_angle(-HALF_PI), Vector::new(-59_999, -1));
    assert_eq!(vec_from_angle(1_000_000), Vector::new(-49_106, -34_475));
    assert_eq!(vec_from_angle(-1_000_000), Vector::new(49_106, -34_474));
    assert_eq!(vec_from_angle(30_000 + 5 * TWO_PI), vec_from_angle(30_000));
    assert_eq!(vec_from_angle(30_000 - 5 * TWO_PI), vec_from_angle(30_000));
    let _ = vec_from_angle(i64::MAX);
    let _ = vec_from_angle(i64::MIN);
}

#[test]
fn every_heading_is_unit() {
    let mut a: i64 = -400_000;
    while a < 800_000 {
        let n = len2(vec_from_angle(a));
        assert!(n <= ONE * ONE);
        assert!(n >= (ONE - 4) * (ONE - 4));
        a += 13;
    }
}

#[test]
fn heading_is_sine_and_cosine() {
    let mut a: i64 = 0;
    while a < TWO_PI {
        let v = vec_from_angle(a);
        let t = a as f64 / ONE as f64;
        assert!((v.x as f64 - t.sin() * ONE as f64).abs() < 4.0);
        assert!((v.y as f64 - t.cos() * ONE as f64).abs() < 4.0);
        a += 101;
    }
}
