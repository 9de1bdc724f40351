//! Actions: what a unit can do to an enemy, with cooldown and range.

pub mod melee;
pub mod projectile;

use vstd::prelude::*;
use crate::geometry::sq_below;
use crate::resource::{anim_path_of, skill_audio_paths, skill_audio_paths_of, ResourcePath};
use crate::resource::action::melee::{MeleeAct, MeleeInfo};
use crate::resource::action::projectile::{ProjectileAct, ProjectileInfo};

verus! {

/// The distances `d` with `start <= d < end`, in thousandths of a world unit.
#[derive(Clone, Copy, Debug, PartialEq, Eq, Structural)]
pub struct DistanceRange {
    pub start: i32,
    pub end: i32,
}

impl DistanceRange {
    /// Whether the range holds the distance whose square is `d_sq`.
    pub open spec fn contains_sq(self, d_sq: int) -> bool {
        &&& self.start <= 0 || self.start * self.start <= d_sq
        &&& sq_below(d_sq, self.end as int)
    }

    /// Whether the range holds the distance whose square is `d_sq`.
    pub fn contains_distance_squared(&self, d_sq: u128) -> (b: bool)
        ensures
            b == self.contains_sq(d_sq as int),
    {
        if self.end <= 0 {
            return false;
        }
        let end: u128 = self.end as u128;
        assert(end * end <= 0x7fff_ffff * 0x7fff_ffff) by (nonlinear_arith)
            requires
                0 <= end <= 0x7fff_ffff,
        ;
        if d_sq >= end * end {
            return false;
        }
        if self.start <= 0 {
            return true;
        }
        let start: u128 = self.start as u128;
        assert(start * start <= 0x7fff_ffff * 0x7fff_ffff) by (nonlinear_arith)
            requires
                0 <= start <= 0x7fff_ffff,
        ;
        start * start <= d_sq
    }
}

/// What an action does when it is performed.
#[derive(Debug)]
pub enum ActionType {
    Melee(MeleeAct),
    Projectile(ProjectileAct),
}

/// One capability of a unit: a named attack with its cooldown and range.
#[derive(Debug)]
pub struct Action {
    pub name: String,
    pub action_level: u32,
    /// Cooldown in milliseconds.
    pub cd_time: u64,
    /// When the action was last used, in milliseconds of battle time.
    pub last_use_time: u64,
    pub range: DistanceRange,
    pub action_type: ActionType,
}

/// An action last used at `last_use_time` is off cooldown at `now` when more
/// than `cd_time` has passed since.
pub open spec fn cd_over(last_use_time: int, cd_time: int, now: int) -> bool {
    now - last_use_time > cd_time
}

/// `action` is the melee action that the record `info` describes, never used.
pub open spec fn is_melee_action(info: MeleeInfo, action: Action) -> bool {
    &&& action.name@ == info.effect_name@
    &&& action.action_level == info.effect_level
    &&& action.cd_time == info.cd_time
    &&& action.last_use_time == 0
    &&& action.range == (DistanceRange { start: 0, end: info.damage_radius })
    &&& action.action_type matches ActionType::Melee(act)
    &&& act.damage_factor == info.damage_factor
    &&& act.damage_center == info.damage_center
    &&& act.damage_radius == info.damage_radius
    &&& skill_audio_paths_of(info.perform_sound@, act.perform_sound@)
    &&& if info.effect_animation@.len() == 0 {
        act.effect_animation is None && act.effect_sound is None
    } else {
        &&& act.effect_animation matches Some(path)
        &&& path@ == anim_path_of(info.effect_animation@)
        &&& act.effect_sound matches Some(sounds)
        &&& skill_audio_paths_of(info.effect_sound@, sounds@)
    }
}

/// `action` is the shooting action that the record `info` describes, never used.
pub open spec fn is_projectile_action(info: ProjectileInfo, action: Action) -> bool {
    &&& action.name@ == info.effect_name@
    &&& action.action_level == info.effect_level
    &&& action.cd_time == info.cd_time
    &&& action.last_use_time == 0
    &&& action.range == (DistanceRange { start: info.distance_min, end: info.distance_max })
    &&& action.action_type matches ActionType::Projectile(act)
    &&& act.base_damage == info.base_damage
    &&& act.damage_factor == info.damage_factor
    &&& act.bullet_animation_name@ == anim_path_of(info.bullet_animation_name@)
    &&& act.fly_speed == info.fly_speed
    &&& act.bullet_height_factor == info.bullet_height_factor
    &&& act.bullet_height_base == info.bullet_height_base
    &&& act.bullet_damage_radius == info.bullet_damage_radius
    &&& act.shot_num == info.shot_num
    &&& skill_audio_paths_of(info.perform_sound@, act.perform_sound@)
}

impl Action {
    /// The melee action that the record `info` describes, never used.
    pub fn from_melee(info: &MeleeInfo) -> (action: Action)
        ensures
            is_melee_action(*info, action),
    {
        let has_effect = !info.effect_animation.as_str().is_empty();
        let effect_animation = if has_effect {
            Some(info.effect_animation.anim_path())
        } else {
            None
        };
        let effect_sound = if has_effect {
            Some(skill_audio_paths(&info.effect_sound))
        } else {
            None
        };
        Action {
            name: info.effect_name.clone(),
            action_level: info.effect_level,
            cd_time: info.cd_time,
            last_use_time: 0,
            range: DistanceRange { start: 0, end: info.damage_radius },
            action_type: ActionType::Melee(
                MeleeAct {
                    damage_factor: info.damage_factor,
                    damage_center: info.damage_center,
                    damage_radius: info.damage_radius,
                    effect_animation,
                    effect_sound,
                    perform_sound: skill_audio_paths(&info.perform_sound),
                },
            ),
        }
    }

    /// The shooting action that the record `info` describes, never used.
    pub fn from_projectile(info: &ProjectileInfo) -> (action: Action)
        ensures
            is_projectile_action(*info, action),
    {
        Action {
            name: info.effect_name.clone(),
            action_level: info.effect_level,
            cd_time: info.cd_time,
            last_use_time: 0,
            range: DistanceRange { start: info.distance_min, end: info.distance_max },
            action_type: ActionType::Projectile(
                ProjectileAct {
                    base_damage: info.base_damage,
                    damage_factor: info.damage_factor,
                    bullet_animation_name: info.bullet_animation_name.anim_path(),
                    fly_speed: info.fly_speed,
                    bullet_height_factor: info.bullet_height_factor,
                    bullet_height_base: info.bullet_height_base,
                    bullet_damage_radius: info.bullet_damage_radius,
                    shot_num: info.shot_num,
                    perform_sound: skill_audio_paths(&info.perform_sound),
                },
            ),
        }
    }

    /// Whether the action is off cooldown at `time`.
    pub open spec fn spec_is_cd_over(&self, time: u64) -> bool {
        cd_over(self.last_use_time as int, self.cd_time as int, time as int)
    }

    /// Whether the action is off cooldown at `time`: whether more than its
    /// cooldown has passed since it was last used.
    #[verifier::when_used_as_spec(spec_is_cd_over)]
    pub fn is_cd_over(&self, time: u64) -> (over: bool)
        ensures
            over == self.spec_is_cd_over(time),
    {
        time > self.last_use_time && time - self.last_use_time > self.cd_time
    }

    /// Starts the cooldown: the action counts as used at `now`.
    pub fn mark_used(&mut self, now: u64)
        ensures
            final(self).last_use_time == now,
            final(self).name == old(self).name,
            final(self).action_level == old(self).action_level,
            final(self).cd_time == old(self).cd_time,
            final(self).range == old(self).range,
            final(self).action_type == old(self).action_type,
    {
        self.last_use_time = now;
    }
}

/// After an action is used at `used_at`, it stays on cooldown through
/// `used_at + cd_time` and is off cooldown at every later time.
pub proof fn lemma_cooldown_window(action: Action, used_at: u64, time: u64)
    requires
        action.last_use_time == used_at,
    ensures
        time <= used_at + action.cd_time ==> !action.is_cd_over(time),
        time > used_at + action.cd_time ==> action.is_cd_over(time),
{
}

/// An order to take health from a unit.
#[derive(Clone, Copy, Debug, PartialEq, Eq, Structural)]
pub struct DamageEvent {
    pub src: u64,
    pub target: u64,
    /// Thousandths of a point.
    pub damage: i64,
}

/// An order to give health to a unit.
#[derive(Clone, Copy, Debug, PartialEq, Eq, Structural)]
pub struct HealEvent {
    pub src: u64,
    pub target: u64,
    /// Thousandths of a point.
    pub heal: i64,
}

} // verus!
