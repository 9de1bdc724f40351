use swj::geometry::Point;
use swj::resource::action::melee::{MeleeAct, MeleeDamageCenterType};
use swj::resource::action::projectile::{
    get_unit_aim_body_offset, projectile_finish_fly, projectile_miss, shoot, unit_aim_point,
    FlightEnd, Projectile, ProjectileAct, ProjectileMiss, ProjectileToFixedTarget, TargetType,
};
use swj::resource::action::DamageEvent;
use swj::unit::perform::{find_position, resolve_melee};
use swj::unit::{FluctuationRange, Unit, UnitDamage, UnitHealth};

fn combat_act(center: MeleeDamageCenterType, radius: i32, factor: i32) -> MeleeAct {
    MeleeAct {
        damage_factor: factor,
        damage_center: center,
        damage_radius: radius,
        effect_animation: None,
        effect_sound: None,
        perform_sound: vec![],
    }
}

fn combat_damage(base: i64) -> UnitDamage {
    UnitDamage { damage: base, damage_fluctuation_range: FluctuationRange { start: 0, end: 1 } }
}

fn combat_line() -> Vec<(u64, Point)> {
    vec![
        (10, Point { x: 90_000, y: 0 }),
        (11, Point { x: 100_000, y: 0 }),
        (12, Point { x: 105_000, y: 5_000 }),
        (13, Point { x: 130_000, y: 0 }),
        (14, Point { x: 400_000, y: 0 }),
    ]
}

#[test]
fn point_attack_hits_the_target_alone() {
    let act = combat_act(MeleeDamageCenterType::Target, 0, 1_000);
    let events = resolve_melee(
        &act,
        1,
        Point { x: 80_000, y: 0 },
        &combat_damage(10_000),
        11,
        &combat_line(),
        true,
        0,
    );
    assert_eq!(events, vec![DamageEvent { src: 1, target: 11, damage: 100_000 }]);
}

#[test]
fn point_attack_needs_no_place_of_its_target() {
    let act = combat_act(MeleeDamageCenterType::Target, 100, 1_000);
    let events = resolve_melee(
        &act,
        1,
        Point { x: 0, y: 0 },
        &combat_damage(10_000),
        999,
        &combat_line(),
        true,
        0,
    );
    assert_eq!(events, vec![DamageEvent { src: 1, target: 999, damage: 100_000 }]);
}

#[test]
fn area_attack_hits_all_in_its_radius_around_the_target() {
    let act = combat_act(MeleeDamageCenterType::Target, 20_000, 1_000);
    let events = resolve_melee(
        &act,
        1,
        Point { x: 0, y: 0 },
        &combat_damage(10_000),
        11,
        &combat_line(),
        true,
        0,
    );
    let targets: Vec<u64> = events.iter().map(|e| e.target).collect();
    assert_eq!(targets, vec![10, 11, 12]);
    for event in events.iter() {
        assert_eq!(event.src, 1);
        assert_eq!(event.damage, 100_000);
    }
}

#[test]
fn area_attack_around_the_performer_still_hits_its_target() {
    let act = combat_act(MeleeDamageCenterType::Src, 20_000, 1_000);
    let events = resolve_melee(
        &act,
        1,
        Point { x: 95_000, y: 0 },
        &combat_damage(10_000),
        14,
        &combat_line(),
        true,
        0,
    );
    let targets: Vec<u64> = events.iter().map(|e| e.target).collect();
    assert_eq!(targets, vec![10, 11, 12, 14]);
}

#[test]
fn area_attack_on_a_target_that_is_gone_hits_the_target_alone() {
    let act = combat_act(MeleeDamageCenterType::Target, 20_000, 1_000);
    let events = resolve_melee(
        &act,
        1,
        Point { x: 95_000, y: 0 },
        &combat_damage(10_000),
        77,
        &combat_line(),
        true,
        0,
    );
    assert_eq!(events, vec![DamageEvent { src: 1, target: 77, damage: 100_000 }]);
}

#[test]
fn area_attack_gathers_no_more_than_a_hundred_and_its_target() {
    let mut line: Vec<(u64, Point)> = Vec::new();
    for i in 0..150u64 {
        line.push((100 + i, Point { x: i as i32, y: 0 }));
    }
    let act = combat_act(MeleeDamageCenterType::Src, 50_000, 1_000);
    let events =
        resolve_melee(&act, 1, Point { x: 0, y: 0 }, &combat_damage(1), 249, &line, true, 0);
    assert_eq!(events.len(), 101);
    assert_eq!(events[0].target, 100);
    assert_eq!(events[99].target, 199);
    assert_eq!(events[100].target, 249);
    let inside =
        resolve_melee(&act, 1, Point { x: 0, y: 0 }, &combat_damage(1), 150, &line, true, 0);
    assert_eq!(inside.len(), 100);
}

#[test]
fn melee_damage_is_base_and_roll_times_factor_times_ten() {
    let line = combat_line();
    let at = Point { x: 0, y: 0 };
    let hit = |base: i64, roll: i64, factor: i32| -> i64 {
        let act = combat_act(MeleeDamageCenterType::Src, 0, factor);
        resolve_melee(&act, 1, at, &combat_damage(base), 11, &line, true, roll)[0].damage
    };
    assert_eq!(hit(10_000, 0, 1_000), 100_000);
    assert_eq!(hit(10_000, 2_000, 1_500), 180_000);
    assert_eq!(hit(10_000, -2_000, 1_500), 120_000);
    assert_eq!(hit(7, 0, 333), 23);
    assert_eq!(hit(-7, 0, 333), -23);
    assert_eq!(hit(0, 0, 1_000), 0);
    assert_eq!(hit(5, 5, 0), 0);
    assert_eq!(hit(i64::MAX, i64::MAX, i32::MAX), i64::MAX);
    assert_eq!(hit(i64::MIN, i64::MIN, i32::MAX), i64::MIN);
    assert_eq!(hit(i64::MAX, i64::MAX, i32::MIN), i64::MIN);
}

#[test]
fn random_part_of_the_damage_comes_from_its_range() {
    let range = FluctuationRange { start: -500, end: 1_500 };
    assert!(range.has_room());
    let mut low = i64::MAX;
    let mut high = i64::MIN;
    for _ in 0..2_000 {
        let amount = range.draw();
        assert!(amount >= -500 && amount < 1_500);
        low = low.min(amount);
        high = high.max(amount);
    }
    assert!(low < high);
    let single = FluctuationRange { start: 41, end: 42 };
    assert!(single.has_room());
    assert_eq!(single.draw(), 41);
    assert!(!FluctuationRange { start: 5, end: 5 }.has_room());
    assert!(!FluctuationRange { start: 6, end: 5 }.has_room());
}

#[test]
fn index_gives_the_place_of_a_unit() {
    let line = combat_line();
    assert_eq!(find_position(&line, 12), Some(Point { x: 105_000, y: 5_000 }));
    assert_eq!(find_position(&line, 15), None);
    assert_eq!(find_position(&Vec::new(), 12), None);
}

#[test]
fn health_takes_damage_and_healing() {
    let mut health = UnitHealth { health: 100_000, health_recovery_speed: 7 };
    health.take_damage(30_000);
    assert_eq!(health.health, 70_000);
    health.take_heal(5_000);
    assert_eq!(health.health, 75_000);
    health.take_damage(80_000);
    assert_eq!(health.health, -5_000);
    health.take_damage(-10_000);
    assert_eq!(health.health, 5_000);
    assert_eq!(health.health_recovery_speed, 7);
    let mut edge = UnitHealth { health: i64::MIN + 1, health_recovery_speed: 0 };
    edge.take_damage(i64::MAX);
    assert_eq!(edge.health, i64::MIN);
    edge.take_heal(i64::MIN);
    assert_eq!(edge.health, i64::MIN);
    let mut top = UnitHealth { health: i64::MAX - 1, health_recovery_speed: 0 };
    top.take_heal(5);
    assert_eq!(top.health, i64::MAX);
}

fn combat_flight(duration: u32) -> ProjectileToFixedTarget {
    ProjectileToFixedTarget::launch(
        Point { x: 0, y: 0 },
        Point { x: 100_000, y: 0 },
        100_000_000 / duration as i32,
        Point { x: 0, y: 0 },
        1_000,
    )
    .unwrap()
}

#[test]
fn straight_flight_is_half_way_at_half_time() {
    let flight = combat_flight(2_000);
    assert_eq!(flight.fly_duration, 2_000);
    assert_eq!(flight.init_velocity, Point { x: 50_000, y: 0 });
    assert_eq!(flight.start_time, 1_000);
    assert_eq!(
        flight.projectile_fly_to_fixed_target(1_000),
        (Point { x: 0, y: 0 }, false)
    );
    assert_eq!(
        flight.projectile_fly_to_fixed_target(2_000),
        (Point { x: 50_000, y: 0 }, false)
    );
    assert_eq!(
        flight.projectile_fly_to_fixed_target(2_999),
        (Point { x: 99_950, y: 0 }, false)
    );
}

#[test]
fn flight_is_over_from_its_duration_on() {
    let flight = combat_flight(2_000);
    assert_eq!(
        flight.projectile_fly_to_fixed_target(3_000),
        (Point { x: 100_000, y: 0 }, true)
    );
    assert_eq!(
        flight.projectile_fly_to_fixed_target(3_001),
        (Point { x: 100_000, y: 0 }, true)
    );
    assert_eq!(
        flight.projectile_fly_to_fixed_target(u64::MAX),
        (Point { x: 100_000, y: 0 }, true)
    );
}

#[test]
fn flight_has_not_begun_before_its_start() {
    let flight = combat_flight(2_000);
    assert_eq!(flight.projectile_fly_to_fixed_target(0), (Point { x: 0, y: 0 }, false));
    assert_eq!(flight.projectile_fly_to_fixed_target(999), (Point { x: 0, y: 0 }, false));
}

#[test]
fn flight_under_acceleration_rises_and_comes_down_on_its_end() {
    let flight = ProjectileToFixedTarget::launch(
        Point { x: 0, y: 0 },
        Point { x: 100_000, y: 0 },
        50_000,
        Point { x: 0, y: -20_000 },
        0,
    )
    .unwrap();
    assert_eq!(flight.fly_duration, 2_000);
    assert_eq!(flight.init_velocity, Point { x: 50_000, y: 20_000 });
    assert_eq!(flight.projectile_fly_to_fixed_target(1_000).0, Point { x: 50_000, y: 10_000 });
    assert_eq!(flight.projectile_fly_to_fixed_target(500).0, Point { x: 25_000, y: 7_500 });
    assert_eq!(flight.projectile_fly_to_fixed_target(2_000), (Point { x: 100_000, y: 0 }, true));
}

#[test]
fn flight_needs_a_speed_above_zero() {
    let src = Point { x: 0, y: 0 };
    let dest = Point { x: 100_000, y: 0 };
    let still = Point { x: 0, y: 0 };
    assert!(ProjectileToFixedTarget::launch(src, dest, 0, still, 0).is_none());
    assert!(ProjectileToFixedTarget::launch(src, dest, -5, still, 0).is_none());
    let far = Point { x: i32::MAX, y: 0 };
    assert!(ProjectileToFixedTarget::launch(src, far, 1, still, 0).is_none());
    let slow = ProjectileToFixedTarget::launch(src, dest, 1, still, 0).unwrap();
    assert_eq!(slow.fly_duration, 100_000_000);
    let on_the_spot = ProjectileToFixedTarget::launch(src, src, 10, still, 9).unwrap();
    assert_eq!(on_the_spot.fly_duration, 0);
    assert_eq!(on_the_spot.init_velocity, still);
    assert_eq!(on_the_spot.projectile_fly_to_fixed_target(9), (src, true));
}

#[test]
fn flight_time_is_rounded_up() {
    let src = Point { x: 0, y: 0 };
    let still = Point { x: 0, y: 0 };
    let flight =
        ProjectileToFixedTarget::launch(src, Point { x: 100_000, y: 0 }, 30_000, still, 0).unwrap();
    assert_eq!(flight.fly_duration, 3_334);
    let diagonal =
        ProjectileToFixedTarget::launch(src, Point { x: 3_000, y: 4_000 }, 1_000, still, 0).unwrap();
    assert_eq!(diagonal.fly_duration, 5_000);
}

fn combat_projectile(tolerance: i32) -> Projectile {
    Projectile { damage: 12_345, target: TargetType::Unit(9), src: 3, tolerance }
}

#[test]
fn landing_within_tolerance_hits() {
    let landing = Point { x: 100_000, y: 0 };
    let end = projectile_finish_fly(
        &combat_projectile(5_000),
        landing,
        Some(Point { x: 103_000, y: 4_000 }),
        10,
    );
    assert_eq!(end, FlightEnd::Hit(DamageEvent { src: 3, target: 9, damage: 12_345 }));
    let exact = projectile_finish_fly(&combat_projectile(0), landing, Some(landing), 10);
    assert_eq!(exact, FlightEnd::Hit(DamageEvent { src: 3, target: 9, damage: 12_345 }));
}

#[test]
fn landing_beyond_tolerance_misses() {
    let landing = Point { x: 100_000, y: 0 };
    let moved = Some(Point { x: 103_000, y: 4_001 });
    assert_eq!(projectile_finish_fly(&combat_projectile(5_000), landing, moved, 10), FlightEnd::Miss);
    assert_eq!(
        projectile_finish_fly(&combat_projectile(5_000), landing, moved, 2_000),
        FlightEnd::Miss
    );
    assert_eq!(
        projectile_finish_fly(&combat_projectile(5_000), landing, moved, 2_001),
        FlightEnd::MissAndGo
    );
    assert_eq!(
        projectile_finish_fly(&combat_projectile(-1), landing, Some(landing), 10),
        FlightEnd::Miss
    );
}

#[test]
fn landing_for_a_target_that_is_gone_is_a_miss() {
    let end = projectile_finish_fly(&combat_projectile(5_000), Point { x: 100_000, y: 0 }, None, 10);
    assert_eq!(end, FlightEnd::Miss);
    let at_origin =
        projectile_finish_fly(&combat_projectile(5_000), Point { x: 3_000, y: -4_000 }, None, 10);
    assert_eq!(at_origin, FlightEnd::Miss);
    let on_the_origin =
        projectile_finish_fly(&combat_projectile(i32::MAX), Point { x: 0, y: 0 }, None, 2_001);
    assert_eq!(on_the_origin, FlightEnd::MissAndGo);
}

#[test]
fn melee_gathers_by_the_damage_radius_alone() {
    let act = combat_act(MeleeDamageCenterType::Src, 20_000, 1_000);
    let events = resolve_melee(
        &act,
        1,
        Point { x: 95_000, y: 0 },
        &combat_damage(10_000),
        11,
        &combat_line(),
        true,
        0,
    );
    let targets: Vec<u64> = events.iter().map(|e| e.target).collect();
    assert_eq!(targets, vec![10, 11, 12]);
    let edge = combat_act(MeleeDamageCenterType::Src, 5_000, 1_000);
    let at_the_edge = resolve_melee(
        &edge,
        1,
        Point { x: 95_000, y: 0 },
        &combat_damage(10_000),
        13,
        &combat_line(),
        true,
        0,
    );
    let targets: Vec<u64> = at_the_edge.iter().map(|e| e.target).collect();
    assert_eq!(targets, vec![13]);
}

#[test]
fn missed_projectile_lies_five_and_a_half_seconds() {
    let mut miss = ProjectileMiss(0);
    assert!(!projectile_miss(&mut miss, 5_499));
    assert_eq!(miss, ProjectileMiss(5_499));
    assert!(projectile_miss(&mut miss, 1));
    assert_eq!(miss, ProjectileMiss(5_500));
    assert!(!projectile_miss(&mut miss, 1));
    assert!(!projectile_miss(&mut miss, u64::MAX));
    assert_eq!(miss, ProjectileMiss(u64::MAX));
    let mut late = ProjectileMiss(0);
    assert!(projectile_miss(&mut late, 60_000));
}

fn combat_unit(body_height: i32) -> Unit {
    Unit {
        actions: vec![],
        view_range: 0,
        move_speed: 0,
        body_radius: 0,
        body_width: 0,
        body_height,
    }
}

#[test]
fn aim_point_is_the_middle_of_the_body() {
    assert_eq!(get_unit_aim_body_offset(&combat_unit(60_000)), Point { x: 0, y: 30_000 });
    assert_eq!(get_unit_aim_body_offset(&combat_unit(-3)), Point { x: 0, y: -1 });
    assert_eq!(
        unit_aim_point(&combat_unit(60_000), Point { x: 5, y: 7 }),
        Point { x: 5, y: 30_007 }
    );
    assert_eq!(
        unit_aim_point(&combat_unit(i32::MAX), Point { x: 5, y: i32::MAX }),
        Point { x: 5, y: i32::MAX }
    );
}

fn combat_bullet(fly_speed: i32, height_base: i32, height_factor: i32) -> ProjectileAct {
    ProjectileAct {
        base_damage: 4_000,
        damage_factor: 1_500,
        bullet_animation_name: "Resources/Animations/a.ExportJson".to_string(),
        fly_speed,
        bullet_height_factor: height_factor,
        bullet_height_base: height_base,
        bullet_damage_radius: 15_000,
        shot_num: 1,
        perform_sound: vec![],
    }
}

#[test]
fn shot_carries_its_damage_and_flies_an_arc() {
    let src = Point { x: 0, y: 0 };
    let aim = Point { x: 100_000, y: 0 };
    let (projectile, flight) =
        shoot(&combat_bullet(50_000, 10_000, 0), 3, src, 9, aim, 10_000, 2_000, 500).unwrap();
    assert_eq!(
        projectile,
        Projectile { damage: 22_000, target: TargetType::Unit(9), src: 3, tolerance: 15_000 }
    );
    assert_eq!(flight.src_pos, src);
    assert_eq!(flight.dest_pos, aim);
    assert_eq!(flight.start_time, 500);
    assert_eq!(flight.fly_duration, 2_000);
    assert_eq!(flight.acceleration, Point { x: 0, y: -20_000 });
    assert_eq!(flight.init_velocity, Point { x: 50_000, y: 20_000 });
    assert_eq!(flight.projectile_fly_to_fixed_target(1_500).0, Point { x: 50_000, y: 10_000 });
    assert_eq!(flight.projectile_fly_to_fixed_target(2_500), (aim, true));
}

#[test]
fn shot_rises_higher_over_a_longer_way() {
    let src = Point { x: 0, y: 0 };
    let aim = Point { x: 100_000, y: 0 };
    let (_, flight) =
        shoot(&combat_bullet(50_000, 0, 100), 3, src, 9, aim, 0, 0, 0).unwrap();
    assert_eq!(flight.acceleration, Point { x: 0, y: -20_000 });
    let (_, flat) = shoot(&combat_bullet(50_000, 0, 0), 3, src, 9, aim, 0, 0, 0).unwrap();
    assert_eq!(flat.acceleration, Point { x: 0, y: 0 });
    assert_eq!(flat.projectile_fly_to_fixed_target(1_000).0, Point { x: 50_000, y: 0 });
}

#[test]
fn shot_without_speed_is_not_made() {
    let src = Point { x: 0, y: 0 };
    let aim = Point { x: 100_000, y: 0 };
    assert!(shoot(&combat_bullet(0, 0, 0), 3, src, 9, aim, 0, 0, 0).is_none());
}

#[test]
fn health_recovers_up_to_its_cap() {
    let mut health = UnitHealth { health: 10_000, health_recovery_speed: 500 };
    health.recover(1_000, 11_000);
    assert_eq!(health.health, 10_500);
    health.recover(999, 11_000);
    assert_eq!(health.health, 10_999);
    health.recover(1, 11_000);
    assert_eq!(health.health, 10_999);
    health.recover(2, 11_000);
    assert_eq!(health.health, 11_000);
    health.recover(60_000, 11_000);
    assert_eq!(health.health, 11_000);
    let mut over = UnitHealth { health: 12_000, health_recovery_speed: 500 };
    over.recover(1_000, 11_000);
    assert_eq!(over.health, 12_000);
    let mut ebbing = UnitHealth { health: 5_000, health_recovery_speed: -500 };
    ebbing.recover(1_000, 11_000);
    assert_eq!(ebbing.health, 5_000);
    let mut fast = UnitHealth { health: i64::MIN, health_recovery_speed: i64::MAX };
    fast.recover(u64::MAX, i64::MAX);
    assert_eq!(fast.health, i64::MAX);
    assert_eq!(fast.health_recovery_speed, i64::MAX);
}
