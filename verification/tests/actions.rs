use swj::resource::action::melee::{MeleeDamageCenterType, MeleeInfo};
use swj::resource::action::projectile::ProjectileInfo;
use swj::resource::action::{Action, ActionType, DistanceRange};
use swj::resource::ResourcePath;
use swj::unit::{UnitAttackType, UnitType};
use swj::cocos2d_anim::{
    anim_cfg_change, animate_sprite, report_frame, AnimationFaceDir, AnimationMode,
    Cocos2dAnimator, Cocos2dAnimatorPlayer, EventType, FrameStep, NOT_STARTED,
};
use swj::AnimChannel;

fn actions_melee_info() -> MeleeInfo {
    MeleeInfo {
        effect_name: "slash".to_string(),
        perform_sound: vec!["swing.mp3".to_string(), "hit.mp3".to_string()],
        effect_level: 3,
        cd_time: 1500,
        type_allow: vec![UnitType::Ground],
        damage_factor: 1200,
        damage_center: MeleeDamageCenterType::Src,
        damage_radius: 30_000,
        buff_level: vec![],
        buff_list: vec![],
        effect_animation: "slash_fx".to_string(),
        effect_sound: vec!["fx.mp3".to_string()],
    }
}

fn actions_projectile_info() -> ProjectileInfo {
    ProjectileInfo {
        effect_name: "arrow".to_string(),
        perform_sound: vec!["bow.mp3".to_string()],
        bomb_sound: vec![],
        effect_level: 1,
        cd_time: 800,
        type_allow: vec![UnitType::Ground, UnitType::Air],
        base_damage: 4000,
        damage_factor: 1000,
        distance_min: 50_000,
        distance_max: 300_000,
        bullet_animation_name: "ammu_arrow01".to_string(),
        fly_speed: 600_000,
        bullet_height_factor: 100,
        bullet_height_base: 20_000,
        bullet_damage_radius: 15_000,
        buff_level: vec![],
        buff_list: vec![],
        fly_effect: String::new(),
        shot_num: 1,
    }
}

#[test]
fn paths_are_built_from_names() {
    assert_eq!(
        "mohe".to_string().anim_path(),
        "Resources/Animations/mohe.ExportJson"
    );
    assert_eq!(
        "hit.mp3".to_string().skill_audio_path(),
        "Resources/SkillSounds/hit.mp3"
    );
    assert_eq!(String::new().anim_path(), "Resources/Animations/.ExportJson");
}

#[test]
fn melee_action_is_made_from_its_record() {
    let action = Action::from_melee(&actions_melee_info());
    assert_eq!(action.name, "slash");
    assert_eq!(action.action_level, 3);
    assert_eq!(action.cd_time, 1500);
    assert_eq!(action.last_use_time, 0);
    assert_eq!(action.range, DistanceRange { start: 0, end: 30_000 });
    match action.action_type {
        ActionType::Melee(act) => {
            assert_eq!(act.damage_factor, 1200);
            assert_eq!(act.damage_center, MeleeDamageCenterType::Src);
            assert_eq!(act.damage_radius, 30_000);
            assert_eq!(
                act.effect_animation,
                Some("Resources/Animations/slash_fx.ExportJson".to_string())
            );
            assert_eq!(
                act.effect_sound,
                Some(vec!["Resources/SkillSounds/fx.mp3".to_string()])
            );
            assert_eq!(
                act.perform_sound,
                vec![
                    "Resources/SkillSounds/swing.mp3".to_string(),
                    "Resources/SkillSounds/hit.mp3".to_string()
                ]
            );
        }
        ActionType::Projectile(_) => panic!("a melee record made a shooting action"),
    }
}

#[test]
fn melee_action_without_effect_has_no_effect_assets() {
    let mut info = actions_melee_info();
    info.effect_animation = String::new();
    let action = Action::from_melee(&info);
    match action.action_type {
        ActionType::Melee(act) => {
            assert_eq!(act.effect_animation, None);
            assert_eq!(act.effect_sound, None);
            assert_eq!(act.perform_sound.len(), 2);
        }
        ActionType::Projectile(_) => panic!("a melee record made a shooting action"),
    }
}

#[test]
fn projectile_action_is_made_from_its_record() {
    let action = Action::from_projectile(&actions_projectile_info());
    assert_eq!(action.name, "arrow");
    assert_eq!(action.action_level, 1);
    assert_eq!(action.cd_time, 800);
    assert_eq!(action.last_use_time, 0);
    assert_eq!(action.range, DistanceRange { start: 50_000, end: 300_000 });
    match action.action_type {
        ActionType::Projectile(act) => {
            assert_eq!(act.base_damage, 4000);
            assert_eq!(act.damage_factor, 1000);
            assert_eq!(
                act.bullet_animation_name,
                "Resources/Animations/ammu_arrow01.ExportJson"
            );
            assert_eq!(act.fly_speed, 600_000);
            assert_eq!(act.bullet_height_factor, 100);
            assert_eq!(act.bullet_height_base, 20_000);
            assert_eq!(act.bullet_damage_radius, 15_000);
            assert_eq!(act.shot_num, 1);
            assert_eq!(act.perform_sound, vec!["Resources/SkillSounds/bow.mp3".to_string()]);
        }
        ActionType::Melee(_) => panic!("a projectile record made a melee action"),
    }
}

#[test]
fn cooldown_is_over_only_after_more_than_its_length() {
    let mut action = Action::from_melee(&actions_melee_info());
    action.mark_used(10_000);
    assert_eq!(action.last_use_time, 10_000);
    assert!(!action.is_cd_over(0));
    assert!(!action.is_cd_over(9_999));
    assert!(!action.is_cd_over(10_000));
    assert!(!action.is_cd_over(10_001));
    assert!(!action.is_cd_over(11_499));
    assert!(!action.is_cd_over(11_500));
    assert!(action.is_cd_over(11_501));
    assert!(action.is_cd_over(u64::MAX));
}

#[test]
fn cooldown_of_a_new_action_runs_from_time_zero() {
    let action = Action::from_projectile(&actions_projectile_info());
    assert!(!action.is_cd_over(0));
    assert!(!action.is_cd_over(800));
    assert!(action.is_cd_over(801));
}

#[test]
fn cooldown_that_reaches_past_the_end_of_time_is_never_over() {
    let mut action = Action::from_melee(&actions_melee_info());
    action.cd_time = u64::MAX;
    action.mark_used(5);
    assert!(!action.is_cd_over(u64::MAX));
}

#[test]
fn distance_range_holds_its_start_and_not_its_end() {
    let range = DistanceRange { start: 3000, end: 5000 };
    assert!(!range.contains_distance_squared(8_999_999));
    assert!(range.contains_distance_squared(9_000_000));
    assert!(range.contains_distance_squared(24_999_999));
    assert!(!range.contains_distance_squared(25_000_000));
    let from_zero = DistanceRange { start: 0, end: 1 };
    assert!(from_zero.contains_distance_squared(0));
    assert!(!from_zero.contains_distance_squared(1));
    let empty = DistanceRange { start: 0, end: 0 };
    assert!(!empty.contains_distance_squared(0));
    let below_zero = DistanceRange { start: -10, end: 10 };
    assert!(below_zero.contains_distance_squared(0));
    assert!(below_zero.contains_distance_squared(99));
    assert!(!below_zero.contains_distance_squared(100));
}

#[test]
fn configuration_words_are_read() {
    assert_eq!(MeleeDamageCenterType::from_str("target"), Some(MeleeDamageCenterType::Target));
    assert_eq!(MeleeDamageCenterType::from_str("src"), Some(MeleeDamageCenterType::Src));
    assert_eq!(MeleeDamageCenterType::from_str("Target"), None);
    assert_eq!(MeleeDamageCenterType::from_str(""), None);
    assert_eq!(UnitType::from_str("ground"), Some(UnitType::Ground));
    assert_eq!(UnitType::from_str("air"), Some(UnitType::Air));
    assert_eq!(UnitType::from_str("sky"), Some(UnitType::Air));
    assert_eq!(UnitType::from_str("sea"), None);
    assert_eq!(UnitAttackType::from_int(1), UnitAttackType::Melee);
    assert_eq!(UnitAttackType::from_int(2), UnitAttackType::Ranger);
    assert_eq!(UnitAttackType::from_int(3), UnitAttackType::Magic);
    assert_eq!(UnitAttackType::from_int(0), UnitAttackType::Magic);
    assert_eq!(UnitAttackType::from_int(-1), UnitAttackType::Magic);
}

#[test]
fn animation_channels_have_their_numbers() {
    assert_eq!(AnimChannel::Unit.to_i32(), 0);
    assert_eq!(AnimChannel::Projectile.to_i32(), 1);
    assert_eq!(AnimChannel::UnitAction.to_i32(), 2);
    assert_eq!(AnimChannel::from(0), AnimChannel::Unit);
    assert_eq!(AnimChannel::from(1), AnimChannel::Projectile);
    assert_eq!(AnimChannel::from(2), AnimChannel::UnitAction);
    for value in 0..3 {
        assert_eq!(AnimChannel::from(value).to_i32(), value);
    }
    assert_eq!(AnimChannel::from_i32(0), Some(AnimChannel::Unit));
    assert_eq!(AnimChannel::from_i32(1), Some(AnimChannel::Projectile));
    assert_eq!(AnimChannel::from_i32(2), Some(AnimChannel::UnitAction));
    assert_eq!(AnimChannel::from_i32(3), None);
    assert_eq!(AnimChannel::from_i32(-1), None);
}

fn actions_orders(mode: AnimationMode, channel: Option<i32>) -> Cocos2dAnimator {
    let mut orders = Cocos2dAnimator::new();
    orders.mode = mode;
    orders.event_channel = channel;
    orders
}

#[test]
fn new_orders_ask_for_nothing() {
    let orders = Cocos2dAnimator::new();
    assert_eq!(orders.duration, None);
    assert_eq!(orders.new_anim, None);
    assert_eq!(orders.mode, AnimationMode::Once);
    assert_eq!(orders.event_channel, None);
    assert_eq!(orders.face_dir, AnimationFaceDir::Right);
}

#[test]
fn orders_are_given_unless_already_played() {
    let mut orders = Cocos2dAnimator::new();
    orders.switch_anim("run");
    assert_eq!(orders.new_anim, Some("run".to_string()));
    assert_eq!(orders.mode, AnimationMode::Once);
    let mut player = Cocos2dAnimatorPlayer { frame_idx: 4, anim_name: "stand".to_string() };
    assert!(anim_cfg_change(&mut orders, &mut player));
    assert_eq!(orders.new_anim, None);
    assert_eq!(player.anim_name, "run");
    assert_eq!(player.frame_idx, NOT_STARTED);
    player.frame_idx = 3;
    assert!(!anim_cfg_change(&mut orders, &mut player));
    assert_eq!(player.frame_idx, 3);
    orders.play_unless_playing(&player, "run", AnimationMode::Loop);
    assert_eq!(orders.new_anim, None);
    assert_eq!(orders.mode, AnimationMode::Once);
    orders.play_unless_playing(&player, "stand", AnimationMode::Loop);
    assert_eq!(orders.new_anim, Some("stand".to_string()));
    assert_eq!(orders.mode, AnimationMode::Loop);
    orders.turn(None);
    assert_eq!(orders.face_dir, AnimationFaceDir::Right);
    orders.turn(Some(AnimationFaceDir::Left));
    assert_eq!(orders.face_dir, AnimationFaceDir::Left);
}

#[test]
fn animation_played_once_runs_to_its_last_frame_and_ends() {
    let orders = actions_orders(AnimationMode::Once, Some(2));
    let mut player = Cocos2dAnimatorPlayer { frame_idx: NOT_STARTED, anim_name: "hit".to_string() };
    assert_eq!(animate_sprite(&mut player, &orders, 3), FrameStep::Shown { last: false });
    assert_eq!(player.frame_idx, 0);
    assert_eq!(animate_sprite(&mut player, &orders, 3), FrameStep::Shown { last: false });
    assert_eq!(player.frame_idx, 1);
    assert_eq!(animate_sprite(&mut player, &orders, 3), FrameStep::Shown { last: true });
    assert_eq!(player.frame_idx, 2);
    assert_eq!(animate_sprite(&mut player, &orders, 3), FrameStep::Ended);
    assert_eq!(player.frame_idx, 2);
    assert_eq!(animate_sprite(&mut player, &orders, 3), FrameStep::Ended);
    assert_eq!(player.anim_name, "hit");
}

#[test]
fn animation_played_in_a_loop_starts_over() {
    let orders = actions_orders(AnimationMode::Loop, None);
    let mut player = Cocos2dAnimatorPlayer { frame_idx: 1, anim_name: "run".to_string() };
    assert_eq!(animate_sprite(&mut player, &orders, 2), FrameStep::Shown { last: false });
    assert_eq!(player.frame_idx, 0);
    assert_eq!(animate_sprite(&mut player, &orders, 2), FrameStep::Shown { last: true });
    assert_eq!(player.frame_idx, 1);
    let mut single = Cocos2dAnimatorPlayer { frame_idx: NOT_STARTED, anim_name: "x".to_string() };
    assert_eq!(animate_sprite(&mut single, &orders, 1), FrameStep::Shown { last: true });
    assert_eq!(animate_sprite(&mut single, &orders, 1), FrameStep::Shown { last: true });
    assert_eq!(single.frame_idx, 0);
    let mut none = Cocos2dAnimatorPlayer { frame_idx: NOT_STARTED, anim_name: "x".to_string() };
    assert_eq!(animate_sprite(&mut none, &orders, 0), FrameStep::Shown { last: true });
    assert_eq!(none.frame_idx, 0);
}

#[test]
fn animation_to_be_removed_is_removed_at_its_last_frame() {
    let orders = actions_orders(AnimationMode::Remove, Some(1));
    let mut player = Cocos2dAnimatorPlayer { frame_idx: 0, anim_name: "puff".to_string() };
    assert_eq!(animate_sprite(&mut player, &orders, 2), FrameStep::Shown { last: true });
    assert_eq!(animate_sprite(&mut player, &orders, 2), FrameStep::Removed);
    assert_eq!(player.frame_idx, 1);
}

#[test]
fn frames_are_reported_on_the_channel_of_the_orders() {
    let orders = actions_orders(AnimationMode::Once, Some(2));
    let marks = vec!["perform".to_string(), "sound".to_string()];
    let middle = report_frame(9, &orders, FrameStep::Shown { last: false }, &marks);
    assert_eq!(middle.len(), 2);
    assert_eq!((middle[0].entity, middle[0].channel), (9, 2));
    assert!(matches!(&middle[0].evt_type, EventType::Custom(mark) if mark == "perform"));
    assert!(matches!(&middle[1].evt_type, EventType::Custom(mark) if mark == "sound"));
    let last = report_frame(9, &orders, FrameStep::Shown { last: true }, &marks);
    assert_eq!(last.len(), 3);
    assert!(matches!(last[0].evt_type, EventType::End));
    assert!(matches!(&last[1].evt_type, EventType::Custom(mark) if mark == "perform"));
    let removed = report_frame(9, &orders, FrameStep::Removed, &Vec::new());
    assert_eq!(removed.len(), 1);
    assert!(matches!(removed[0].evt_type, EventType::End));
    assert!(report_frame(9, &orders, FrameStep::Ended, &marks).is_empty());
    let silent = actions_orders(AnimationMode::Once, None);
    assert!(report_frame(9, &silent, FrameStep::Shown { last: true }, &marks).is_empty());
}
