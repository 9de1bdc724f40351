use swj::battle::{Battle, SpawnError};
use swj::cocos2d_anim::{AnimEvent, AnimationFaceDir, AnimationMode, EventType};
use swj::geometry::Point;
use swj::resource::action::melee::{MeleeDamageCenterType, MeleeInfo};
use swj::resource::action::projectile::{ProjectileInfo, ProjectileMiss};
use swj::resource::action::{DamageEvent, HealEvent};
use swj::resource::ConfigResource;
use swj::unit::info::{UnitActionRule, UnitBundle, UnitInfo};
use swj::unit::search::Team;
use swj::unit::{
    Enemy, FluctuationRange, SearchEnemy, UnitAttackType, UnitIntent, UnitState, UnitType,
    WhoAttackMe,
};

fn battle_melee(name: &str, cd_time: u64, radius: i32, center: MeleeDamageCenterType) -> MeleeInfo {
    MeleeInfo {
        effect_name: name.to_string(),
        perform_sound: vec![],
        effect_level: 1,
        cd_time,
        type_allow: vec![UnitType::Ground],
        damage_factor: 1_000,
        damage_center: center,
        damage_radius: radius,
        buff_level: vec![],
        buff_list: vec![],
        effect_animation: String::new(),
        effect_sound: vec![],
    }
}

fn battle_projectile(name: &str) -> ProjectileInfo {
    ProjectileInfo {
        effect_name: name.to_string(),
        perform_sound: vec![],
        bomb_sound: vec![],
        effect_level: 1,
        cd_time: 1_000,
        type_allow: vec![UnitType::Ground],
        base_damage: 1_000,
        damage_factor: 1_000,
        distance_min: 0,
        distance_max: 200_000,
        bullet_animation_name: "arrow".to_string(),
        fly_speed: 100_000,
        bullet_height_factor: 0,
        bullet_height_base: 0,
        bullet_damage_radius: 5_000,
        buff_level: vec![],
        buff_list: vec![],
        fly_effect: String::new(),
        shot_num: 1,
    }
}

fn battle_unit(name: &str, health: i32, actions: Vec<(&str, &str)>) -> UnitInfo {
    UnitInfo {
        unit_name: name.to_string(),
        moving_sound: String::new(),
        attack_type: UnitAttackType::Melee,
        can_change: false,
        unit_type: UnitType::Ground,
        body_width: 40_000,
        body_height: 0,
        animation_name: name.to_string(),
        body_radius: 20_000,
        move_speed: 250_000,
        health_base: health,
        health_factor: 0,
        health_recovery_speed: 0,
        view: 50_000,
        damage_base: 10_000,
        damage_factor: 0,
        damage_min_bias: 0,
        damage_max_bias: 1,
        level_max: 1,
        die_skill: String::new(),
        run_skill: String::new(),
        decoration: String::new(),
        actions: actions
            .iter()
            .map(|(rule, effect)| UnitActionRule {
                name: rule.to_string(),
                action: effect.to_string(),
                level_rule: vec![],
            })
            .collect(),
    }
}

fn battle_config() -> ConfigResource {
    let mut config = ConfigResource::new();
    config.insert_melee(
        "stab".to_string(),
        vec![battle_melee("stab", 1_000, 0, MeleeDamageCenterType::Target)],
    );
    config.insert_melee(
        "sweep".to_string(),
        vec![battle_melee("sweep", 1_000, 30_000, MeleeDamageCenterType::Target)],
    );
    config.insert_projectile("arrow".to_string(), vec![battle_projectile("arrow")]);
    config.insert_unit(battle_unit("soldier", 150_000, vec![("attack1", "stab")]));
    config.insert_unit(battle_unit("sweeper", 150_000, vec![("attack1", "sweep")]));
    config.insert_unit(battle_unit("archer", 150_000, vec![("shoot", "arrow")]));
    config.insert_unit(battle_unit("dummy", 150_000, vec![]));
    config
}

fn battle_spawn(battle: &mut Battle, kind: &str, team: Team, x: i32, intent: Option<UnitIntent>) -> u64 {
    let mut bundle = UnitBundle::new(kind, 1, &battle_config()).unwrap();
    if let Some(intent) = intent {
        bundle.intent = intent;
    }
    battle.spawn_unit(bundle, team, Point { x, y: 0 }).unwrap()
}

fn battle_report(entity: u64, channel: i32, custom: Option<&str>) -> AnimEvent {
    AnimEvent {
        entity,
        channel,
        evt_type: match custom {
            Some(text) => EventType::Custom(text.to_string()),
            None => EventType::End,
        },
    }
}

fn battle_attack_to(x: i32) -> Option<UnitIntent> {
    Some(UnitIntent::AttackTo(Point { x, y: 0 }))
}

#[test]
fn spawned_unit_is_born_facing_the_enemy() {
    let mut battle = Battle::new();
    let a = battle_spawn(&mut battle, "soldier", Team::Left, 0, None);
    let b = battle_spawn(&mut battle, "soldier", Team::Right, 40_000, battle_attack_to(0));
    assert_eq!((a, b), (0, 1));
    assert_eq!(battle.next_entity, 2);
    let first = &battle.units[0];
    assert_eq!(first.entity, 0);
    assert_eq!(first.team, Team::Left);
    assert_eq!(first.position, Point { x: 0, y: 0 });
    assert_eq!(first.animator.new_anim, Some("born".to_string()));
    assert_eq!(first.animator.mode, AnimationMode::Once);
    assert_eq!(first.animator.event_channel, Some(0));
    assert_eq!(first.animator.face_dir, AnimationFaceDir::Right);
    assert_eq!(first.player.anim_name, "");
    let living = first.living.as_ref().unwrap();
    assert_eq!(living.state, UnitState::Idle);
    assert_eq!(living.intent, UnitIntent::StandAt(Point { x: 0, y: 0 }));
    assert_eq!(living.enemy, None);
    assert_eq!(living.search_enemy, None);
    assert!(living.perform_action.is_none());
    let second = &battle.units[1];
    assert_eq!(second.animator.face_dir, AnimationFaceDir::Left);
    let living = second.living.as_ref().unwrap();
    assert_eq!(living.state, UnitState::Moving);
    assert_eq!(living.search_enemy, Some(SearchEnemy));
    assert_eq!(battle.health(a), Some(150_000));
    assert_eq!(battle.team(a), Some(Team::Left));
    assert_eq!(battle.team(b), Some(Team::Right));
    assert_eq!(battle.health(7), None);
    assert_eq!(battle.team(7), None);
}

#[test]
fn spawn_refuses_a_unit_whose_damage_cannot_be_drawn() {
    let mut battle = Battle::new();
    let mut bundle = UnitBundle::new("soldier", 1, &battle_config()).unwrap();
    bundle.damage.damage_fluctuation_range = FluctuationRange { start: 3, end: 3 };
    assert_eq!(
        battle.spawn_unit(bundle, Team::Left, Point { x: 0, y: 0 }),
        Err(SpawnError::EmptyDamageFluctuation)
    );
    assert!(battle.units.is_empty());
    assert_eq!(battle.next_entity, 0);
    battle.next_entity = u64::MAX;
    let bundle = UnitBundle::new("soldier", 1, &battle_config()).unwrap();
    assert_eq!(
        battle.spawn_unit(bundle, Team::Left, Point { x: 0, y: 0 }),
        Err(SpawnError::OutOfEntities)
    );
    assert!(battle.units.is_empty());
}

#[test]
fn intent_change_sets_a_unit_going() {
    let mut battle = Battle::new();
    let a = battle_spawn(&mut battle, "soldier", Team::Left, 0, None);
    assert!(battle.set_intent(a, UnitIntent::AttackTo(Point { x: 9, y: 9 })));
    {
        let living = battle.units[0].living.as_ref().unwrap();
        assert_eq!(living.intent, UnitIntent::AttackTo(Point { x: 9, y: 9 }));
        assert_eq!(living.state, UnitState::Moving);
        assert_eq!(living.search_enemy, Some(SearchEnemy));
    }
    battle.units[0].living.as_mut().unwrap().enemy = Some(Enemy { target: 5, attack_range: 1 });
    assert!(battle.set_intent(a, UnitIntent::MoveTo(Point { x: 1, y: 2 })));
    {
        let living = battle.units[0].living.as_ref().unwrap();
        assert_eq!(living.intent, UnitIntent::MoveTo(Point { x: 1, y: 2 }));
        assert_eq!(living.state, UnitState::Moving);
        assert_eq!(living.search_enemy, None);
        assert_eq!(living.enemy, None);
    }
    battle.units[0].living.as_mut().unwrap().state = UnitState::Idle;
    assert!(battle.set_intent(a, UnitIntent::StandAt(Point { x: 3, y: 4 })));
    {
        let living = battle.units[0].living.as_ref().unwrap();
        assert_eq!(living.intent, UnitIntent::StandAt(Point { x: 3, y: 4 }));
        assert_eq!(living.state, UnitState::Idle);
    }
    assert!(!battle.set_intent(99, UnitIntent::MoveTo(Point { x: 1, y: 2 })));
    battle.units[0].living = None;
    assert!(!battle.set_intent(a, UnitIntent::MoveTo(Point { x: 1, y: 2 })));
    assert!(battle.units[0].living.is_none());
}

#[test]
fn free_unit_walks_to_where_it_was_sent_and_stands() {
    let mut battle = Battle::new();
    let a = battle_spawn(
        &mut battle,
        "soldier",
        Team::Left,
        0,
        Some(UnitIntent::MoveTo(Point { x: 12_050, y: 0 })),
    );
    battle.anim_cfg_change();
    assert_eq!(battle.units[0].player.anim_name, "born");
    assert_eq!(battle.units[0].animator.new_anim, None);
    battle.tick(2_000, 20, &Vec::new());
    assert_eq!(battle.units[0].position, Point { x: 5_000, y: 0 });
    assert_eq!(battle.units[0].animator.new_anim, Some("run".to_string()));
    assert_eq!(battle.units[0].animator.mode, AnimationMode::Loop);
    assert_eq!(battle.units[0].animator.face_dir, AnimationFaceDir::Right);
    battle.anim_cfg_change();
    battle.tick(2_020, 20, &Vec::new());
    assert_eq!(battle.units[0].position, Point { x: 10_000, y: 0 });
    assert_eq!(battle.units[0].animator.new_anim, None);
    assert_eq!(battle.units[0].living.as_ref().unwrap().state, UnitState::Moving);
    battle.tick(2_040, 20, &Vec::new());
    assert_eq!(battle.units[0].position, Point { x: 12_050, y: 0 });
    assert_eq!(battle.units[0].living.as_ref().unwrap().state, UnitState::Idle);
    battle.tick(2_060, 20, &Vec::new());
    assert_eq!(battle.units[0].position, Point { x: 12_050, y: 0 });
    assert_eq!(battle.units[0].animator.new_anim, Some("stand".to_string()));
    assert_eq!(battle.units[0].animator.mode, AnimationMode::Loop);
    assert_eq!(battle.health(a), Some(150_000));
}

#[test]
fn attacker_finds_and_approaches_until_in_range() {
    let mut battle = Battle::new();
    let a = battle_spawn(&mut battle, "soldier", Team::Left, 0, battle_attack_to(200_000));
    let b = battle_spawn(&mut battle, "dummy", Team::Right, 40_000, None);
    battle.anim_cfg_change();
    let mut now = 2_000;
    battle.tick(now, 20, &Vec::new());
    assert_eq!(battle.search_map.lefts, vec![(a, Point { x: 0, y: 0 })]);
    assert_eq!(battle.search_map.rights, vec![(b, Point { x: 40_000, y: 0 })]);
    assert_eq!(
        battle.units[0].living.as_ref().unwrap().enemy,
        Some(Enemy { target: b, attack_range: 20_000 })
    );
    assert_eq!(battle.units[0].position, Point { x: 5_000, y: 0 });
    assert_eq!(battle.who_attack_me(b), WhoAttackMe(1));
    let mut seen = vec![5_000];
    for _ in 0..3 {
        now += 20;
        battle.tick(now, 20, &Vec::new());
        seen.push(battle.units[0].position.x);
        assert_eq!(battle.units[0].living.as_ref().unwrap().state, UnitState::Moving);
    }
    assert_eq!(seen, vec![5_000, 10_000, 15_000, 20_000]);
    now += 20;
    battle.tick(now, 20, &Vec::new());
    assert_eq!(battle.units[0].position, Point { x: 20_000, y: 0 });
    assert_eq!(battle.units[0].living.as_ref().unwrap().state, UnitState::Attacking);
    assert_eq!(battle.units[0].animator.face_dir, AnimationFaceDir::Right);
    assert_eq!(battle.units[1].position, Point { x: 40_000, y: 0 });
}

#[test]
fn attacker_that_has_closed_in_starts_its_action() {
    let mut battle = Battle::new();
    battle_spawn(&mut battle, "soldier", Team::Left, 0, battle_attack_to(200_000));
    let b = battle_spawn(&mut battle, "dummy", Team::Right, 30_000, None);
    battle.units[1].position = Point { x: 30_000, y: 40_001 };
    let mut now = 2_000;
    let mut ticks = 0;
    while battle.units[0].living.as_ref().unwrap().state != UnitState::Attacking {
        battle.tick(now, 20, &Vec::new());
        now += 20;
        ticks += 1;
        assert!(ticks < 20);
    }
    assert_eq!(battle.units[0].position, Point { x: 18_001, y: 24_002 });
    assert_eq!(
        battle.units[0].living.as_ref().unwrap().enemy,
        Some(Enemy { target: b, attack_range: 20_000 })
    );
    assert!(battle.units[0].living.as_ref().unwrap().perform_action.is_none());
    battle.tick(now, 20, &Vec::new());
    let living = battle.units[0].living.as_ref().unwrap();
    assert_eq!(living.state, UnitState::Attacking);
    let performing = living.perform_action.as_ref().unwrap();
    assert_eq!(performing.idx, 0);
    assert_eq!(performing.name, "attack1");
    assert_eq!(battle.units[0].unit.actions[0].1.last_use_time, now);
    assert_eq!(battle.units[0].animator.new_anim, Some("attack1".to_string()));
    assert_eq!(battle.units[0].animator.mode, AnimationMode::Once);
    assert_eq!(battle.units[0].animator.event_channel, Some(2));
    assert_eq!(battle.units[0].animator.face_dir, AnimationFaceDir::Right);
    assert_eq!(battle.units[0].position, Point { x: 18_001, y: 24_002 });
}

#[test]
fn performed_action_deals_its_damage_and_ends() {
    let mut battle = Battle::new();
    let a = battle_spawn(&mut battle, "soldier", Team::Left, 20_100, battle_attack_to(200_000));
    let b = battle_spawn(&mut battle, "dummy", Team::Right, 40_000, None);
    let mut now = 2_000;
    for _ in 0..3 {
        battle.tick(now, 20, &Vec::new());
        now += 20;
    }
    assert!(battle.units[0].living.as_ref().unwrap().perform_action.is_some());
    let used_at = battle.units[0].unit.actions[0].1.last_use_time;
    battle.tick(now, 20, &vec![battle_report(a, 2, Some("perform"))]);
    assert_eq!(battle.health(b), Some(50_000));
    assert!(battle.damage_events.is_empty());
    assert!(battle.units[0].living.as_ref().unwrap().perform_action.is_some());
    assert_eq!(battle.units[0].unit.actions[0].1.last_use_time, used_at);
    now += 20;
    battle.tick(now, 20, &vec![battle_report(a, 2, Some("step"))]);
    assert_eq!(battle.health(b), Some(50_000));
    now += 20;
    battle.tick(now, 20, &vec![battle_report(a, 2, None)]);
    assert!(battle.units[0].living.as_ref().unwrap().perform_action.is_none());
    now += 20;
    battle.tick(now, 20, &Vec::new());
    let living = battle.units[0].living.as_ref().unwrap();
    assert_eq!(living.state, UnitState::Moving);
    assert!(living.perform_action.is_none());
    assert_eq!(living.enemy, Some(Enemy { target: b, attack_range: 0 }));
}

#[test]
fn reports_on_unknown_channels_or_for_unknown_units_change_nothing() {
    let mut battle = Battle::new();
    let a = battle_spawn(&mut battle, "soldier", Team::Left, 20_100, battle_attack_to(200_000));
    let b = battle_spawn(&mut battle, "dummy", Team::Right, 40_000, None);
    let mut now = 2_000;
    for _ in 0..3 {
        battle.tick(now, 20, &Vec::new());
        now += 20;
    }
    battle.anim_event(&battle_report(a, 1, Some("perform")), now);
    battle.anim_event(&battle_report(a, 7, Some("perform")), now);
    battle.anim_event(&battle_report(a, 0, Some("perform")), now);
    battle.anim_event(&battle_report(99, 2, Some("perform")), now);
    battle.anim_event(&battle_report(b, 2, Some("perform")), now);
    battle.anim_event(&battle_report(99, 2, None), now);
    battle.anim_event(&battle_report(99, 0, None), now);
    assert!(battle.damage_events.is_empty());
    assert!(battle.despawn_queue.is_empty());
    assert!(battle.units[0].living.as_ref().unwrap().perform_action.is_some());
}

#[test]
fn unit_without_health_dies_once_and_leaves_after_its_death() {
    let mut battle = Battle::new();
    let a = battle_spawn(&mut battle, "soldier", Team::Left, 0, battle_attack_to(200_000));
    let b = battle_spawn(&mut battle, "dummy", Team::Right, 40_000, None);
    battle.anim_cfg_change();
    battle.tick(2_000, 20, &Vec::new());
    assert_eq!(battle.who_attack_me(b), WhoAttackMe(1));
    battle.damage_events.push(DamageEvent { src: a, target: b, damage: 100_000 });
    battle.damage_events.push(DamageEvent { src: a, target: b, damage: 50_000 });
    battle.damage_events.push(DamageEvent { src: a, target: 99, damage: 50_000 });
    battle.tick(2_020, 20, &Vec::new());
    assert_eq!(battle.health(b), Some(0));
    assert_eq!(battle.health(a), Some(150_000));
    assert!(battle.units[1].living.is_none());
    assert_eq!(battle.units[1].animator.new_anim, Some("die".to_string()));
    assert_eq!(battle.units[1].animator.mode, AnimationMode::Once);
    assert_eq!(battle.units[1].animator.event_channel, Some(0));
    battle.anim_cfg_change();
    assert_eq!(battle.units[1].player.anim_name, "die");
    assert_eq!(battle.units[1].animator.new_anim, None);
    battle.damage_events.push(DamageEvent { src: a, target: b, damage: 1 });
    battle.tick(2_040, 20, &Vec::new());
    assert_eq!(battle.health(b), Some(-1));
    assert!(battle.units[1].living.is_none());
    assert_eq!(battle.units[1].animator.new_anim, None);
    assert!(battle.search_map.rights.is_empty());
    assert_eq!(battle.units[0].living.as_ref().unwrap().enemy, None);
    assert_eq!(battle.units.len(), 2);
    battle.tick(2_060, 20, &vec![battle_report(b, 0, None)]);
    assert_eq!(battle.units.len(), 1);
    assert_eq!(battle.units[0].entity, a);
    assert_eq!(battle.health(b), None);
    assert!(battle.despawn_queue.is_empty());
}

#[test]
fn healing_is_given_in_the_tick() {
    let mut battle = Battle::new();
    let a = battle_spawn(&mut battle, "soldier", Team::Left, 0, None);
    battle.heal_events.push(HealEvent { src: a, target: a, heal: 25_000 });
    battle.damage_events.push(DamageEvent { src: a, target: a, damage: 160_000 });
    battle.tick(2_000, 20, &Vec::new());
    assert_eq!(battle.health(a), Some(15_000));
    assert!(battle.units[0].living.is_some());
    assert!(battle.heal_events.is_empty());
}

#[test]
fn end_of_birth_sets_a_unit_moving() {
    let mut battle = Battle::new();
    let a = battle_spawn(&mut battle, "soldier", Team::Left, 0, battle_attack_to(200_000));
    let b = battle_spawn(&mut battle, "soldier", Team::Left, 0, None);
    battle.anim_cfg_change();
    battle.units[0].living.as_mut().unwrap().state = UnitState::Idle;
    battle.anim_event(&battle_report(a, 0, None), 0);
    battle.anim_event(&battle_report(b, 0, None), 0);
    assert_eq!(battle.units[0].living.as_ref().unwrap().state, UnitState::Moving);
    assert_eq!(battle.units[1].living.as_ref().unwrap().state, UnitState::Idle);
    assert!(battle.despawn_queue.is_empty());
}

#[test]
fn two_attackers_of_one_defender_are_counted() {
    let mut battle = Battle::new();
    let a1 = battle_spawn(&mut battle, "soldier", Team::Left, 0, battle_attack_to(200_000));
    let a2 = battle_spawn(&mut battle, "soldier", Team::Left, 10_000, battle_attack_to(200_000));
    let d1 = battle_spawn(&mut battle, "dummy", Team::Right, 45_000, None);
    let d2 = battle_spawn(&mut battle, "dummy", Team::Right, 49_000, None);
    assert_eq!(battle.who_attack_me(d1), WhoAttackMe(0));
    battle.tick(2_000, 20, &Vec::new());
    assert_eq!(battle.units[0].living.as_ref().unwrap().enemy.unwrap().target, d1);
    assert_eq!(battle.units[1].living.as_ref().unwrap().enemy.unwrap().target, d1);
    assert_eq!(battle.who_attack_me(d1), WhoAttackMe(2));
    assert_eq!(battle.who_attack_me(d2), WhoAttackMe(0));
    assert_eq!(battle.who_attack_me(a1), WhoAttackMe(0));
    let a3 = battle_spawn(&mut battle, "soldier", Team::Left, 0, battle_attack_to(200_000));
    battle.tick(2_020, 20, &Vec::new());
    let order: Vec<u64> = battle.search_map.rights.iter().map(|e| e.0).collect();
    assert_eq!(order, vec![d2, d1]);
    assert_eq!(battle.units[4].entity, a3);
    assert_eq!(battle.units[4].living.as_ref().unwrap().enemy.unwrap().target, d2);
    assert_eq!(battle.who_attack_me(d1), WhoAttackMe(2));
    assert_eq!(battle.who_attack_me(d2), WhoAttackMe(1));
    assert!(battle.set_intent(a2, UnitIntent::MoveTo(Point { x: 0, y: 0 })));
    assert_eq!(battle.who_attack_me(d1), WhoAttackMe(1));
}

#[test]
fn units_of_one_team_do_not_fight_each_other() {
    let mut battle = Battle::new();
    battle_spawn(&mut battle, "soldier", Team::Left, 0, battle_attack_to(200_000));
    battle_spawn(&mut battle, "soldier", Team::Left, 10_000, battle_attack_to(200_000));
    battle.tick(2_000, 20, &Vec::new());
    assert_eq!(battle.units[0].living.as_ref().unwrap().enemy, None);
    assert_eq!(battle.units[1].living.as_ref().unwrap().enemy, None);
    assert_eq!(battle.units[0].position, Point { x: 5_000, y: 0 });
}

#[test]
fn area_attack_in_the_battle_hits_the_neighbours() {
    let mut battle = Battle::new();
    let a = battle_spawn(&mut battle, "sweeper", Team::Left, 20_100, battle_attack_to(200_000));
    let b = battle_spawn(&mut battle, "dummy", Team::Right, 40_000, None);
    let c = battle_spawn(&mut battle, "dummy", Team::Right, 60_000, None);
    let d = battle_spawn(&mut battle, "dummy", Team::Right, 70_000, None);
    let mut now = 2_000;
    for _ in 0..3 {
        battle.tick(now, 20, &Vec::new());
        now += 20;
    }
    assert!(battle.units[0].living.as_ref().unwrap().perform_action.is_some());
    battle.anim_event(&battle_report(a, 2, Some("perform")), now);
    assert_eq!(
        battle.damage_events,
        vec![
            DamageEvent { src: a, target: c, damage: 100_000 },
            DamageEvent { src: a, target: b, damage: 100_000 },
        ]
    );
    let order: Vec<u64> = battle.search_map.rights.iter().map(|e| e.0).collect();
    assert_eq!(order, vec![c, d, b]);
    battle.tick(now, 20, &Vec::new());
    assert_eq!(battle.health(b), Some(50_000));
    assert_eq!(battle.health(c), Some(50_000));
    assert_eq!(battle.health(d), Some(150_000));
}

#[test]
fn archer_shoots_and_the_arrow_hits() {
    let mut battle = Battle::new();
    let a = battle_spawn(&mut battle, "archer", Team::Left, 0, battle_attack_to(200_000));
    let b = battle_spawn(&mut battle, "dummy", Team::Right, 40_000, None);
    battle.units[0].position = Point { x: 0, y: 0 };
    battle.units[0].unit.view_range = 300_000;
    battle.units[1].position = Point { x: 199_000, y: 0 };
    let mut now = 2_000;
    let mut ticks = 0;
    while battle.units[0].living.as_ref().unwrap().perform_action.is_none() {
        battle.tick(now, 20, &Vec::new());
        now += 20;
        ticks += 1;
        assert!(ticks < 100);
    }
    let at = battle.units[0].position;
    assert_eq!(at, Point { x: 0, y: 0 });
    battle.tick(now, 20, &vec![battle_report(a, 2, Some("perform"))]);
    assert_eq!(battle.projectiles.len(), 1);
    let arrow = &battle.projectiles[0];
    assert_eq!(arrow.entity, 2);
    assert_eq!(arrow.projectile.src, a);
    assert_eq!(arrow.projectile.damage, 11_000);
    assert_eq!(arrow.projectile.tolerance, 5_000);
    assert_eq!(arrow.flight.src_pos, at);
    assert_eq!(arrow.flight.dest_pos, Point { x: 199_000, y: 0 });
    assert_eq!(arrow.flight.fly_duration, 1_990);
    assert_eq!(arrow.flight.start_time, now);
    assert!(arrow.fly.is_some());
    assert_eq!(arrow.animator.new_anim, Some("fly".to_string()));
    assert_eq!(arrow.animator.event_channel, Some(1));
    assert_eq!(battle.next_entity, 3);
    let shot_at = now;
    now = shot_at + 1_000;
    battle.tick(now, 1_000, &Vec::new());
    assert_eq!(battle.projectiles.len(), 1);
    assert!(battle.projectiles[0].fly.is_some());
    assert!(battle.projectiles[0].position.x > at.x);
    assert!(battle.projectiles[0].position.x < 199_000);
    assert_eq!(battle.health(b), Some(150_000));
    now = shot_at + 1_990;
    battle.tick(now, 990, &Vec::new());
    assert!(battle.projectiles.is_empty());
    assert_eq!(battle.health(b), Some(139_000));
}

#[test]
fn arrow_misses_a_target_that_has_moved_and_lies_for_a_while() {
    let mut battle = Battle::new();
    let a = battle_spawn(&mut battle, "archer", Team::Left, 0, battle_attack_to(200_000));
    let b = battle_spawn(&mut battle, "dummy", Team::Right, 40_000, None);
    battle.units[0].unit.view_range = 300_000;
    battle.units[1].position = Point { x: 199_000, y: 0 };
    let mut now = 2_000;
    let mut ticks = 0;
    while battle.units[0].living.as_ref().unwrap().perform_action.is_none() {
        battle.tick(now, 20, &Vec::new());
        now += 20;
        ticks += 1;
        assert!(ticks < 100);
    }
    battle.tick(now, 20, &vec![battle_report(a, 2, Some("perform"))]);
    assert_eq!(battle.projectiles.len(), 1);
    battle.units[1].position = Point { x: 199_000, y: 50_000 };
    now += 5_000;
    battle.tick(now, 5_000, &Vec::new());
    assert_eq!(battle.health(b), Some(150_000));
    assert_eq!(battle.projectiles.len(), 1);
    let arrow = &battle.projectiles[0];
    assert!(arrow.fly.is_none());
    assert_eq!(arrow.position, Point { x: 199_000, y: 0 });
    assert_eq!(arrow.animator.new_anim, Some("missEnd".to_string()));
    assert_eq!(arrow.animator.mode, AnimationMode::Once);
    assert!(arrow.miss.is_some());
    now += 5_000;
    battle.tick(now, 5_000, &Vec::new());
    assert_eq!(battle.projectiles.len(), 1);
    assert_eq!(battle.projectiles[0].miss, Some(ProjectileMiss(5_000)));
    now += 499;
    battle.tick(now, 499, &Vec::new());
    assert_eq!(battle.projectiles.len(), 1);
    now += 1;
    battle.tick(now, 1, &Vec::new());
    assert!(battle.projectiles.is_empty());
    assert_eq!(battle.health(b), Some(150_000));
}

#[test]
fn wrong_place_of_performing_action_is_passed_over() {
    let mut battle = Battle::new();
    let a = battle_spawn(&mut battle, "soldier", Team::Left, 20_100, battle_attack_to(200_000));
    battle_spawn(&mut battle, "dummy", Team::Right, 40_000, None);
    let mut now = 2_000;
    for _ in 0..3 {
        battle.tick(now, 20, &Vec::new());
        now += 20;
    }
    battle.units[0].living.as_mut().unwrap().perform_action.as_mut().unwrap().idx = 5;
    battle.anim_event(&battle_report(a, 2, Some("perform")), now);
    assert!(battle.damage_events.is_empty());
}

#[test]
fn engaged_unit_whose_enemy_is_gone_gives_it_up() {
    let mut battle = Battle::new();
    let a = battle_spawn(&mut battle, "soldier", Team::Left, 0, battle_attack_to(200_000));
    battle.units[0].living.as_mut().unwrap().enemy = Some(Enemy { target: 77, attack_range: 5 });
    battle.tick(2_000, 20, &Vec::new());
    let living = battle.units[0].living.as_ref().unwrap();
    assert_eq!(living.enemy, None);
    assert_eq!(living.state, UnitState::Moving);
    assert_eq!(battle.units[0].position, Point { x: 0, y: 0 });
    assert_eq!(battle.units[0].animator.new_anim, Some("run".to_string()));
    battle.units[0].living.as_mut().unwrap().enemy = Some(Enemy { target: 77, attack_range: 5 });
    battle.units[0].living.as_mut().unwrap().state = UnitState::Attacking;
    battle.tick(2_020, 20, &Vec::new());
    let living = battle.units[0].living.as_ref().unwrap();
    assert_eq!(living.enemy, None);
    assert_eq!(living.state, UnitState::Moving);
    battle.units[0].living.as_mut().unwrap().enemy = Some(Enemy { target: 77, attack_range: 5 });
    battle.units[0].living.as_mut().unwrap().state = UnitState::Idle;
    battle.tick(2_040, 20, &Vec::new());
    let living = battle.units[0].living.as_ref().unwrap();
    assert_eq!(living.enemy, None);
    assert_eq!(living.state, UnitState::Idle);
    assert_eq!(battle.health(a), Some(150_000));
}

#[test]
fn engaged_unit_does_not_take_a_team_mate_for_its_enemy() {
    let mut battle = Battle::new();
    battle_spawn(&mut battle, "soldier", Team::Left, 0, battle_attack_to(200_000));
    let mate = battle_spawn(&mut battle, "soldier", Team::Left, 30_000, None);
    battle.units[0].living.as_mut().unwrap().enemy = Some(Enemy { target: mate, attack_range: 5 });
    battle.unit_attack_enemy(Team::Left, 2_000);
    assert_eq!(battle.units[0].living.as_ref().unwrap().enemy, None);
    assert_eq!(battle.units[0].position, Point { x: 0, y: 0 });
}

#[test]
fn systems_of_one_team_leave_the_other_alone() {
    let mut battle = Battle::new();
    battle_spawn(&mut battle, "soldier", Team::Left, 0, battle_attack_to(200_000));
    battle_spawn(&mut battle, "soldier", Team::Right, 40_000, battle_attack_to(0));
    battle.unit_search_prepare_sys();
    battle.find_enemy(Team::Right, 2_000);
    assert_eq!(battle.units[0].living.as_ref().unwrap().enemy, None);
    assert_eq!(
        battle.units[1].living.as_ref().unwrap().enemy,
        Some(Enemy { target: 0, attack_range: 20_000 })
    );
    battle.unit_no_attack_sys(Team::Right);
    assert_eq!(battle.units[0].position, Point { x: 0, y: 0 });
    assert_eq!(battle.units[1].position, Point { x: 40_000, y: 0 });
    battle.unit_no_attack_sys(Team::Left);
    assert_eq!(battle.units[0].position, Point { x: 5_000, y: 0 });
    battle.unit_attack_enemy(Team::Left, 2_000);
    assert_eq!(battle.units[1].position, Point { x: 40_000, y: 0 });
    battle.unit_attack_enemy(Team::Right, 2_000);
    assert_eq!(battle.units[1].position, Point { x: 35_000, y: 0 });
    assert_eq!(battle.units[1].animator.face_dir, AnimationFaceDir::Left);
}

#[test]
fn unit_that_performs_is_not_stepped() {
    let mut battle = Battle::new();
    let a = battle_spawn(&mut battle, "soldier", Team::Left, 20_100, battle_attack_to(200_000));
    battle_spawn(&mut battle, "dummy", Team::Right, 40_000, None);
    let mut now = 2_000;
    for _ in 0..3 {
        battle.tick(now, 20, &Vec::new());
        now += 20;
    }
    let used_at = battle.units[0].unit.actions[0].1.last_use_time;
    battle.units[1].position = Point { x: 400_000, y: 0 };
    for _ in 0..5 {
        now += 2_000;
        battle.tick(now, 2_000, &Vec::new());
    }
    assert_eq!(battle.units[0].position, Point { x: 20_100, y: 0 });
    assert_eq!(battle.units[0].unit.actions[0].1.last_use_time, used_at);
    assert!(battle.units[0].living.as_ref().unwrap().perform_action.is_some());
    battle.tick(now, 20, &vec![battle_report(a, 2, None)]);
    now += 20;
    battle.tick(now, 20, &Vec::new());
    assert_eq!(battle.units[0].living.as_ref().unwrap().state, UnitState::Moving);
    assert_eq!(
        battle.units[0].living.as_ref().unwrap().enemy.unwrap().attack_range,
        20_000
    );
}

#[test]
fn reports_are_heard_in_their_order() {
    let mut battle = Battle::new();
    let a = battle_spawn(&mut battle, "soldier", Team::Left, 20_100, battle_attack_to(200_000));
    let b = battle_spawn(&mut battle, "dummy", Team::Right, 40_000, None);
    let mut now = 2_000;
    for _ in 0..3 {
        battle.tick(now, 20, &Vec::new());
        now += 20;
    }
    battle.anim_events(
        &vec![
            battle_report(a, 2, Some("perform")),
            battle_report(a, 2, None),
            battle_report(a, 2, Some("perform")),
        ],
        now,
    );
    assert_eq!(battle.damage_events, vec![DamageEvent { src: a, target: b, damage: 100_000 }]);
    assert!(battle.units[0].living.as_ref().unwrap().perform_action.is_none());
}

#[test]
fn dead_unit_is_not_found_and_does_not_act() {
    let mut battle = Battle::new();
    let a = battle_spawn(&mut battle, "soldier", Team::Left, 0, battle_attack_to(200_000));
    let b = battle_spawn(&mut battle, "soldier", Team::Right, 40_000, battle_attack_to(0));
    battle.damage_events.push(DamageEvent { src: a, target: b, damage: 150_000 });
    battle.damage_system();
    battle.health_system();
    assert!(battle.units[1].living.is_none());
    battle.health_system();
    assert_eq!(battle.units[1].animator.new_anim, Some("die".to_string()));
    battle.tick(2_000, 20, &Vec::new());
    assert!(battle.search_map.rights.is_empty());
    assert_eq!(battle.units[0].living.as_ref().unwrap().enemy, None);
    assert_eq!(battle.units[1].position, Point { x: 40_000, y: 0 });
    assert!(!battle.set_intent(b, UnitIntent::MoveTo(Point { x: 0, y: 0 })));
    assert_eq!(battle.who_attack_me(a), WhoAttackMe(0));
}

#[test]
fn leaving_the_field_takes_units_and_projectiles_alike() {
    let mut battle = Battle::new();
    let a = battle_spawn(&mut battle, "soldier", Team::Left, 0, None);
    let b = battle_spawn(&mut battle, "soldier", Team::Left, 1, None);
    let c = battle_spawn(&mut battle, "soldier", Team::Right, 2, None);
    battle.despawn_queue.push(b);
    battle.despawn_queue.push(99);
    battle.despawn_queue.push(b);
    battle.despawn();
    let left: Vec<u64> = battle.units.iter().map(|u| u.entity).collect();
    assert_eq!(left, vec![a, c]);
    assert!(battle.despawn_queue.is_empty());
    battle.despawn();
    assert_eq!(battle.units.len(), 2);
    battle.despawn_queue.push(a);
    battle.despawn_queue.push(c);
    battle.despawn();
    assert!(battle.units.is_empty());
}

#[test]
fn living_units_recover_when_asked() {
    let mut battle = Battle::new();
    let a = battle_spawn(&mut battle, "soldier", Team::Left, 0, None);
    let b = battle_spawn(&mut battle, "soldier", Team::Right, 40_000, None);
    battle.units[0].health.health = 100_000;
    battle.units[0].health.health_recovery_speed = 2_000;
    battle.units[1].health.health = -5;
    battle.units[1].health.health_recovery_speed = 2_000;
    battle.health_system();
    battle.health_recovery_system(500, 150_000);
    assert_eq!(battle.health(a), Some(101_000));
    assert_eq!(battle.health(b), Some(-5));
    battle.tick(2_000, 500, &Vec::new());
    assert_eq!(battle.health(a), Some(101_000));
    battle.health_recovery_system(1_000_000, 150_000);
    assert_eq!(battle.health(a), Some(150_000));
}

#[test]
fn arrow_at_a_target_that_has_gone_misses() {
    let mut battle = Battle::new();
    let a = battle_spawn(&mut battle, "archer", Team::Left, 0, battle_attack_to(200_000));
    let b = battle_spawn(&mut battle, "dummy", Team::Right, 40_000, None);
    battle.units[0].unit.view_range = 300_000;
    battle.units[1].position = Point { x: 3_000, y: 0 };
    let mut now = 2_000;
    let mut ticks = 0;
    while battle.units[0].living.as_ref().unwrap().perform_action.is_none() {
        battle.tick(now, 20, &Vec::new());
        now += 20;
        ticks += 1;
        assert!(ticks < 100);
    }
    battle.tick(now, 20, &vec![battle_report(a, 2, Some("perform"))]);
    assert_eq!(battle.projectiles.len(), 1);
    assert_eq!(battle.projectiles[0].flight.dest_pos, Point { x: 3_000, y: 0 });
    battle.despawn_queue.push(b);
    battle.despawn();
    assert_eq!(battle.health(b), None);
    now += 1_000;
    battle.tick(now, 1_000, &Vec::new());
    assert!(battle.damage_events.is_empty());
    assert_eq!(battle.projectiles.len(), 1);
    assert!(battle.projectiles[0].fly.is_none());
    assert_eq!(battle.projectiles[0].position, Point { x: 3_000, y: 0 });
    assert!(battle.projectiles[0].miss.is_some());
    assert_eq!(battle.projectiles[0].animator.new_anim, Some("missEnd".to_string()));
}

#[test]
fn handles_on_the_field_are_all_different() {
    let mut battle = Battle::new();
    let mut given = Vec::new();
    for i in 0..6 {
        let team = if i % 2 == 0 { Team::Left } else { Team::Right };
        given.push(battle_spawn(&mut battle, "soldier", team, i * 1_000, None));
    }
    battle.despawn_queue.push(given[2]);
    battle.despawn();
    given.push(battle_spawn(&mut battle, "soldier", Team::Left, 0, None));
    battle.tick(2_000, 20, &Vec::new());
    let mut on_field: Vec<u64> = battle.units.iter().map(|u| u.entity).collect();
    on_field.sort();
    assert_eq!(on_field, vec![0, 1, 3, 4, 5, 6]);
    let mut lined_up: Vec<u64> = battle
        .search_map
        .lefts
        .iter()
        .chain(battle.search_map.rights.iter())
        .map(|e| e.0)
        .collect();
    lined_up.sort();
    assert_eq!(lined_up, vec![0, 1, 3, 4, 5, 6]);
}
