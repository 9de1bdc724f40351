use swj::geometry::{ceil_sqrt_u128, move_transform_to, AnimationFaceDir, Point};

#[test]
fn ceil_sqrt_rounds_up() {
    assert_eq!(ceil_sqrt_u128(0), 0);
    assert_eq!(ceil_sqrt_u128(1), 1);
    assert_eq!(ceil_sqrt_u128(2), 2);
    assert_eq!(ceil_sqrt_u128(4), 2);
    assert_eq!(ceil_sqrt_u128(5), 3);
    assert_eq!(ceil_sqrt_u128(25_000_000), 5000);
    assert_eq!(ceil_sqrt_u128(25_000_001), 5001);
    assert_eq!(ceil_sqrt_u128(u128::MAX), 1u128 << 64);
}

#[test]
fn distance_squared_is_exact() {
    let a = Point { x: -3000, y: 1000 };
    let b = Point { x: 0, y: 5000 };
    assert_eq!(a.distance_squared(&b), 25_000_000);
    assert_eq!(b.distance_squared(&a), 25_000_000);
    let far = Point { x: i32::MIN, y: i32::MIN };
    let other = Point { x: i32::MAX, y: i32::MAX };
    let side = (u32::MAX as u128) * (u32::MAX as u128);
    assert_eq!(far.distance_squared(&other), 2 * side);
}

#[test]
fn is_within_is_strict() {
    let a = Point { x: 0, y: 0 };
    let b = Point { x: 3000, y: 4000 };
    assert!(a.is_within(&b, 5001));
    assert!(!a.is_within(&b, 5000));
    assert!(!a.is_within(&a, 0));
    assert!(!a.is_within(&a, -5));
    assert!(a.is_within(&a, 1));
}

#[test]
fn step_is_clamped_to_the_remaining_way() {
    let mut pos = Point { x: 0, y: 0 };
    let face = move_transform_to(&mut pos, &Point { x: 3000, y: 4000 }, 10_000);
    assert_eq!(pos, Point { x: 3000, y: 4000 });
    assert_eq!(face, Some(AnimationFaceDir::Right));
}

#[test]
fn step_has_the_length_of_the_speed() {
    let mut pos = Point { x: 0, y: 0 };
    let face = move_transform_to(&mut pos, &Point { x: 30_000, y: 40_000 }, 5000);
    assert_eq!(pos, Point { x: 3000, y: 4000 });
    assert_eq!(face, Some(AnimationFaceDir::Right));
    let face = move_transform_to(&mut pos, &Point { x: -27_000, y: -36_000 }, 5000);
    assert_eq!(pos, Point { x: 0, y: 0 });
    assert_eq!(face, Some(AnimationFaceDir::Left));
}

#[test]
fn step_straight_up_turns_nobody() {
    let mut pos = Point { x: 7, y: 0 };
    let face = move_transform_to(&mut pos, &Point { x: 7, y: 9000 }, 1000);
    assert_eq!(pos, Point { x: 7, y: 1000 });
    assert_eq!(face, None);
}

#[test]
fn step_on_the_spot_stays() {
    let mut pos = Point { x: 12, y: -12 };
    let face = move_transform_to(&mut pos, &Point { x: 12, y: -12 }, 5000);
    assert_eq!(pos, Point { x: 12, y: -12 });
    assert_eq!(face, None);
}

#[test]
fn step_of_speed_zero_stays() {
    let mut pos = Point { x: 0, y: 0 };
    let face = move_transform_to(&mut pos, &Point { x: 100, y: 0 }, 0);
    assert_eq!(pos, Point { x: 0, y: 0 });
    assert_eq!(face, None);
}

#[test]
fn step_never_overshoots_on_the_way() {
    let dest = Point { x: 20_100, y: 700 };
    let mut pos = Point { x: -1234, y: 9999 };
    let mut last = pos.distance_squared(&dest);
    for _ in 0..100 {
        let before = pos;
        move_transform_to(&mut pos, &dest, 777);
        let now = pos.distance_squared(&dest);
        assert!(now <= last);
        assert!(before.distance_squared(&pos) <= 777 * 777);
        last = now;
    }
    assert_eq!(pos, dest);
}

#[test]
fn step_across_the_whole_field_does_not_wrap() {
    let dest = Point { x: i32::MAX, y: i32::MAX };
    let mut pos = Point { x: i32::MIN, y: i32::MIN };
    move_transform_to(&mut pos, &dest, i32::MAX);
    assert!(pos.x > i32::MIN && pos.x < 0);
    assert_eq!(pos.x, pos.y);
}

#[test]
fn approach_point_stops_at_the_range() {
    let me = Point { x: 0, y: 0 };
    let target = Point { x: 40_000, y: 0 };
    assert_eq!(me.approach(&target, 19_900), Point { x: 20_100, y: 0 });
    let diagonal = Point { x: 30_000, y: 40_000 };
    assert_eq!(me.approach(&diagonal, 10_000), Point { x: 24_000, y: 32_000 });
}

#[test]
fn approach_point_of_a_unit_in_range_is_its_own_place() {
    let me = Point { x: 1000, y: 1000 };
    let target = Point { x: 4000, y: 5000 };
    assert_eq!(me.approach(&target, 5001), me);
    assert_eq!(me.approach(&target, 5000), me);
}

#[test]
fn approach_point_for_a_range_below_zero_lies_behind_the_target() {
    let me = Point { x: 0, y: 0 };
    let target = Point { x: 40_000, y: 0 };
    assert_eq!(me.approach(&target, -100), Point { x: 40_100, y: 0 });
}
