use rustling::math::{clamp, directed, displacement, isqrt, narrow, Rect, Vec2, SCALE};

fn from_origin(x: i32, y: i32, speed: i32) -> Vec2 {
    directed(Vec2::new(0, 0), Vec2::new(x, y), speed)
}

#[test]
fn scale_is_a_thousand() {
    assert_eq!(SCALE, 1000);
}

#[test]
fn isqrt_of_small_numbers() {
    let expected = [0u64, 1, 1, 1, 2, 2, 2, 2, 2, 3, 3];
    for (n, root) in expected.iter().enumerate() {
        assert_eq!(isqrt(n as u128), *root, "isqrt({})", n);
    }
}

#[test]
fn isqrt_rounds_down() {
    assert_eq!(isqrt(15), 3);
    assert_eq!(isqrt(16), 4);
    assert_eq!(isqrt(17), 4);
    assert_eq!(isqrt(1_000_000_000_000), 1_000_000);
    assert_eq!(isqrt(999_999_999_999), 999_999);
    assert_eq!(isqrt(410_112_008), 20_251);
}

#[test]
fn isqrt_of_the_largest_number() {
    assert_eq!(isqrt(u128::MAX), u64::MAX);
    assert_eq!(isqrt((u64::MAX as u128) * (u64::MAX as u128)), u64::MAX);
    assert_eq!(isqrt((u64::MAX as u128) * (u64::MAX as u128) - 1), u64::MAX - 1);
}

#[test]
fn isqrt_brackets_its_argument() {
    let mut n: u128 = 1;
    for _ in 0..120 {
        let root = isqrt(n) as u128;
        assert!(root * root <= n);
        assert!((root + 1) * (root + 1) > n);
        n = n * 2 + 1;
    }
}

#[test]
fn displacement_rounds_toward_zero() {
    assert_eq!(displacement(24_000, 16), 384);
    assert_eq!(displacement(-24_000, 16), -384);
    assert_eq!(displacement(1, 999), 0);
    assert_eq!(displacement(-1, 999), 0);
    assert_eq!(displacement(1_500, 1), 1);
    assert_eq!(displacement(-1_500, 1), -1);
    assert_eq!(displacement(90_509, 16), 1_448);
    assert_eq!(displacement(-90_509, 16), -1_448);
    assert_eq!(displacement(0, u32::MAX), 0);
}

#[test]
fn displacement_of_extreme_values() {
    assert_eq!(displacement(i32::MAX, u32::MAX), 9_223_372_030_412_324);
    assert_eq!(displacement(i32::MIN, u32::MAX), -9_223_372_034_707_292);
}

#[test]
fn narrow_saturates() {
    assert_eq!(narrow(0), 0);
    assert_eq!(narrow(-17), -17);
    assert_eq!(narrow(i32::MAX as i128), i32::MAX);
    assert_eq!(narrow(i32::MAX as i128 + 1), i32::MAX);
    assert_eq!(narrow(i32::MIN as i128), i32::MIN);
    assert_eq!(narrow(i32::MIN as i128 - 1), i32::MIN);
    assert_eq!(narrow(i128::MAX), i32::MAX);
    assert_eq!(narrow(i128::MIN), i32::MIN);
}

#[test]
fn clamp_limits_to_the_interval() {
    assert_eq!(clamp(5, 0, 10), 5);
    assert_eq!(clamp(-5, 0, 10), 0);
    assert_eq!(clamp(15, 0, 10), 10);
    assert_eq!(clamp(0, 0, 10), 0);
    assert_eq!(clamp(10, 0, 10), 10);
}

#[test]
fn clamp_on_an_empty_interval() {
    assert_eq!(clamp(-1, 0, -10), 0);
    assert_eq!(clamp(5, 0, -10), -10);
}

#[test]
fn rects_that_share_an_area_overlap() {
    let a = Rect::new(0, 0, 10, 10);
    let b = Rect::new(5, 5, 10, 10);
    assert!(a.overlaps(&b));
    assert!(b.overlaps(&a));
}

#[test]
fn rects_that_touch_overlap() {
    let a = Rect::new(0, 0, 10, 10);
    assert!(a.overlaps(&Rect::new(10, 0, 5, 5)));
    assert!(a.overlaps(&Rect::new(10, 10, 5, 5)));
    assert!(a.overlaps(&Rect::new(-5, -5, 5, 5)));
    assert!(a.overlaps(&Rect::new(0, 10, 10, 1)));
}

#[test]
fn rects_apart_do_not_overlap() {
    let a = Rect::new(0, 0, 10, 10);
    assert!(!a.overlaps(&Rect::new(11, 0, 5, 5)));
    assert!(!a.overlaps(&Rect::new(0, 11, 5, 5)));
    assert!(!a.overlaps(&Rect::new(-6, 0, 5, 5)));
    assert!(!a.overlaps(&Rect::new(0, -6, 5, 5)));
}

#[test]
fn rects_with_extreme_corners_do_not_overflow() {
    let a = Rect::new(i64::MAX, i64::MAX, i64::MAX, i64::MAX);
    let b = Rect::new(i64::MIN, i64::MIN, i64::MIN, i64::MIN);
    assert!(a.overlaps(&a));
    assert!(!a.overlaps(&b));
}

#[test]
fn rect_new_keeps_its_arguments() {
    assert_eq!(Rect::new(1, 2, 3, 4), Rect { x: 1, y: 2, w: 3, h: 4 });
    assert_eq!(Vec2::new(5, -6), Vec2 { x: 5, y: -6 });
}

#[test]
fn directed_scales_to_the_speed() {
    assert_eq!(from_origin(3_000, 4_000, 5_000), Vec2 { x: 3_000, y: 4_000 });
    assert_eq!(from_origin(-3_000, 4_000, 10_000), Vec2 { x: -6_000, y: 8_000 });
    assert_eq!(from_origin(128_000, 128_000, 128_000), Vec2 { x: 90_509, y: 90_509 });
    assert_eq!(from_origin(1, 1, 1_000), Vec2 { x: 707, y: 707 });
    assert_eq!(directed(Vec2::new(128_000, 0), Vec2::new(0, 0), 128_000), Vec2 { x: -128_000, y: 0 });
    assert_eq!(directed(Vec2::new(30_000, 40_000), Vec2::new(0, 0), 50_000), Vec2 { x: -30_000, y: -40_000 });
}

#[test]
fn directed_goes_from_the_one_point_to_the_other() {
    let a = Vec2::new(250_000, -17_000);
    let b = Vec2::new(253_000, -13_000);
    assert_eq!(directed(a, b, 5_000), Vec2 { x: 3_000, y: 4_000 });
    assert_eq!(directed(b, a, 5_000), Vec2 { x: -3_000, y: -4_000 });
}

#[test]
fn directed_of_no_direction_is_zero() {
    assert_eq!(from_origin(0, 0, 5_000), Vec2 { x: 0, y: 0 });
    assert_eq!(directed(Vec2::new(7, 9), Vec2::new(7, 9), 5_000), Vec2 { x: 0, y: 0 });
    assert_eq!(from_origin(7, 9, 0), Vec2 { x: 0, y: 0 });
}

#[test]
fn directed_with_a_negative_speed_points_back() {
    assert_eq!(from_origin(3_000, 4_000, -5_000), Vec2 { x: -3_000, y: -4_000 });
}

#[test]
fn directed_rounds_toward_zero() {
    assert_eq!(from_origin(-19_000, -23_000, 96_000), Vec2 { x: -61_140, y: -74_012 });
    assert_eq!(from_origin(773_010_453, 634_393_284, 24_000), Vec2 { x: 18_552, y: 15_225 });
}

#[test]
fn directed_is_never_longer_than_the_speed() {
    let mut x: i64 = 1;
    let mut y: i64 = -7;
    for round in 0..200 {
        x = (x * 48_271 + 11) % 2_000_003;
        y = (y * 69_621 - 5) % 1_999_993;
        let speed = 1 + (round * 997) % 200_000;
        let v = from_origin(x as i32, y as i32, speed);
        let norm = (v.x as i64) * (v.x as i64) + (v.y as i64) * (v.y as i64);
        let longer = ((v.x.abs() + 1) as i64) * ((v.x.abs() + 1) as i64)
            + ((v.y.abs() + 1) as i64) * ((v.y.abs() + 1) as i64);
        let asked = (speed as i64) * (speed as i64);
        assert!(norm <= asked && asked < longer, "({}, {}) at {}", x, y, speed);
    }
}

#[test]
fn directed_of_extreme_values_saturates() {
    assert_eq!(
        directed(Vec2::new(i32::MAX, 0), Vec2::new(i32::MIN, 0), i32::MIN),
        Vec2 { x: i32::MAX, y: 0 }
    );
    assert_eq!(
        directed(Vec2::new(i32::MIN, i32::MIN), Vec2::new(i32::MAX, i32::MAX), i32::MAX),
        Vec2 { x: 1_518_500_249, y: 1_518_500_249 }
    );
}
