//! Units: their state, their intent, their engagement and their health.

pub mod entity;
pub mod info;
pub mod perform;
pub mod search;
pub mod select;

use vstd::prelude::*;
use crate::geometry::Point;

pub use crate::unit::entity::{LivingUnitBundle, UnitEntity};
pub use crate::unit::info::{
    get_unit_resources, UnitActionLevelRule, UnitActionRule, UnitBundle, UnitInfo,
};
pub use crate::unit::search::{Team, UnitSearchMap, UnitTeam, UnitTeamLeft, UnitTeamRight};

use crate::resource::action::Action;
use crate::text::str_eq;

verus! {

/// Whether a unit walks or flies.
#[derive(Clone, Copy, Debug, PartialEq, Eq, Structural)]
pub enum UnitType {
    Ground,
    Air,
}

impl UnitType {
    /// The type that the configuration word `s` names.
    pub fn from_str(s: &str) -> (t: Option<UnitType>)
        ensures
            s@ == "ground"@ ==> t == Some(UnitType::Ground),
            s@ != "ground"@ && (s@ == "air"@ || s@ == "sky"@) ==> t == Some(UnitType::Air),
            s@ != "ground"@ && s@ != "air"@ && s@ != "sky"@ ==> t is None,
    {
        if str_eq(s, "ground") {
            Some(UnitType::Ground)
        } else if str_eq(s, "air") || str_eq(s, "sky") {
            Some(UnitType::Air)
        } else {
            None
        }
    }
}

/// How a unit attacks.
#[derive(Clone, Copy, Debug, PartialEq, Eq, Structural)]
pub enum UnitAttackType {
    Melee,
    Magic,
    Ranger,
}

impl UnitAttackType {
    /// The attack type that the configuration number `s` stands for.
    pub fn from_int(s: i32) -> (t: UnitAttackType)
        ensures
            s == 1 ==> t == UnitAttackType::Melee,
            s == 2 ==> t == UnitAttackType::Ranger,
            s != 1 && s != 2 ==> t == UnitAttackType::Magic,
    {
        if s == 1 {
            UnitAttackType::Melee
        } else if s == 2 {
            UnitAttackType::Ranger
        } else {
            UnitAttackType::Magic
        }
    }
}

/// What a unit is, fixed when it is made: its actions, in the order in which
/// they are tried, and its measures in thousandths of a world unit.
#[derive(Debug)]
pub struct Unit {
    /// Each action under the name of its animation.
    pub actions: Vec<(String, Action)>,
    pub view_range: i32,
    /// Thousandths of a world unit per tick.
    pub move_speed: i32,
    pub body_radius: i32,
    pub body_width: i32,
    pub body_height: i32,
}

/// What a unit is doing.
#[derive(Clone, Copy, Debug, PartialEq, Eq, Structural)]
pub enum UnitState {
    Idle,
    Moving,
    Attacking,
}

/// What a unit has been told to do.
#[derive(Clone, Copy, Debug, PartialEq, Eq, Structural)]
pub enum UnitIntent {
    StandAt(Point),
    MoveTo(Point),
    AttackTo(Point),
}

impl UnitIntent {
    /// Tells the unit to walk to `pos`.
    pub fn move_to(&mut self, pos: Point)
        ensures
            *final(self) == UnitIntent::MoveTo(pos),
    {
        *self = UnitIntent::MoveTo(pos);
    }

    /// Tells the unit to walk to `pos` and fight what it meets on the way.
    pub fn attack_to(&mut self, pos: Point)
        ensures
            *final(self) == UnitIntent::AttackTo(pos),
    {
        *self = UnitIntent::AttackTo(pos);
    }
}

/// Marks a unit that looks for an enemy.
#[derive(Clone, Copy, Debug, PartialEq, Eq, Structural)]
pub struct SearchEnemy;

/// An engagement: the unit that an attacker has picked, and the distance to
/// it that the attacker is closing to.
#[derive(Clone, Copy, Debug, PartialEq, Eq, Structural)]
pub struct Enemy {
    pub target: u64,
    /// Thousandths of a world unit.
    pub attack_range: i32,
}

/// How many units are engaged with this one.
#[derive(Clone, Copy, Debug, PartialEq, Eq, Structural)]
pub struct WhoAttackMe(pub u32);

/// Marks a unit whose attack animation is playing, with the action it performs.
#[derive(Debug)]
pub struct PerformingAction {
    /// The action's place among the unit's actions.
    pub idx: usize,
    pub name: String,
}

/// The damage of a unit before an action's factor: a base and the range that a
/// random part is drawn from, in thousandths of a point.
#[derive(Clone, Copy, Debug, PartialEq, Eq, Structural)]
pub struct UnitDamage {
    pub damage: i64,
    pub damage_fluctuation_range: FluctuationRange,
}

/// The amounts `a` with `start <= a < end`.
#[derive(Clone, Copy, Debug, PartialEq, Eq, Structural)]
pub struct FluctuationRange {
    pub start: i64,
    pub end: i64,
}

/// The health of a unit, in thousandths of a point.
#[derive(Clone, Copy, Debug, PartialEq, Eq, Structural)]
pub struct UnitHealth {
    pub health: i64,
    pub health_recovery_speed: i64,
}

/// The animations that every unit has, and those of its actions.
#[derive(Debug)]
pub enum UnitAnimName {
    Born,
    Stand,
    Run,
    Die,
    Action(String),
}

impl UnitAnimName {
    /// The animation's name.
    pub open spec fn name(self) -> Seq<char> {
        match self {
            UnitAnimName::Born => "born"@,
            UnitAnimName::Stand => "stand"@,
            UnitAnimName::Run => "run"@,
            UnitAnimName::Die => "die"@,
            UnitAnimName::Action(s) => s@,
        }
    }

    /// The animation's name.
    pub fn as_str(&self) -> (s: &str)
        ensures
            s@ == self.name(),
    {
        match self {
            UnitAnimName::Born => "born",
            UnitAnimName::Stand => "stand",
            UnitAnimName::Run => "run",
            UnitAnimName::Die => "die",
            UnitAnimName::Action(s) => s.as_str(),
        }
    }

    /// The animation of the name `value`: one of the four that every unit
    /// has, or else an action's.
    pub fn from_string(value: String) -> (anim: UnitAnimName)
        ensures
            anim.name() == value@,
            value@ != "born"@ && value@ != "stand"@ && value@ != "run"@ && value@ != "die"@
                ==> anim == UnitAnimName::Action(value),
            value@ == "born"@ ==> anim == UnitAnimName::Born,
            value@ != "born"@ && value@ == "stand"@ ==> anim == UnitAnimName::Stand,
            value@ != "born"@ && value@ != "stand"@ && value@ == "run"@ ==> anim
                == UnitAnimName::Run,
            value@ != "born"@ && value@ != "stand"@ && value@ != "run"@ && value@ == "die"@
                ==> anim == UnitAnimName::Die,
    {
        if str_eq(value.as_str(), "born") {
            UnitAnimName::Born
        } else if str_eq(value.as_str(), "stand") {
            UnitAnimName::Stand
        } else if str_eq(value.as_str(), "run") {
            UnitAnimName::Run
        } else if str_eq(value.as_str(), "die") {
            UnitAnimName::Die
        } else {
            UnitAnimName::Action(value)
        }
    }

    /// The animation's name as a string of its own.
    pub fn into_string(self) -> (s: String)
        ensures
            s@ == self.name(),
    {
        match self {
            UnitAnimName::Action(s) => s,
            other => other.as_str().to_owned(),
        }
    }
}

impl UnitHealth {
    /// The health after `amount` is taken from `health`, held to 64 bits.
    pub open spec fn after_damage(health: i64, amount: i64) -> i64 {
        crate::geometry::clamp_i64(health - amount) as i64
    }

    /// The health after `amount` is given to `health`, held to 64 bits.
    pub open spec fn after_heal(health: i64, amount: i64) -> i64 {
        crate::geometry::clamp_i64(health + amount) as i64
    }

    /// Takes `damage` from the health.
    pub fn take_damage(&mut self, damage: i64)
        ensures
            final(self).health == Self::after_damage(old(self).health, damage),
            final(self).health_recovery_speed == old(self).health_recovery_speed,
    {
        self.health = crate::geometry::clamp_to_i64(self.health as i128 - damage as i128);
    }

    /// Gives `heal` to the health.
    pub fn take_heal(&mut self, heal: i64)
        ensures
            final(self).health == Self::after_heal(old(self).health, heal),
            final(self).health_recovery_speed == old(self).health_recovery_speed,
    {
        self.health = crate::geometry::clamp_to_i64(self.health as i128 + heal as i128);
    }

    /// The health after `delta` milliseconds of recovery at `speed` a second,
    /// which does not lift it over `cap`; a health at or over `cap`, and a
    /// speed of zero or less, leave it as it is.
    pub open spec fn after_recovery(health: i64, speed: i64, delta: u64, cap: i64) -> i64 {
        let gain = crate::geometry::div_toward_zero(speed * delta, 1000);
        if health >= cap || speed <= 0 {
            health
        } else if health + gain >= cap {
            cap
        } else {
            (health + gain) as i64
        }
    }

    /// Lets the health recover for `delta` milliseconds, up to `cap`.
    pub fn recover(&mut self, delta: u64, cap: i64)
        ensures
            final(self).health == Self::after_recovery(
                old(self).health,
                old(self).health_recovery_speed,
                delta,
                cap,
            ),
            final(self).health_recovery_speed == old(self).health_recovery_speed,
    {
        if self.health >= cap || self.health_recovery_speed <= 0 {
            return ;
        }
        let speed: i128 = self.health_recovery_speed as i128;
        let time: i128 = delta as i128;
        assert(0 <= speed * time <= 0x7fff_ffff_ffff_ffff * 0xffff_ffff_ffff_ffff)
            by (nonlinear_arith)
            requires
                0 <= speed <= 0x7fff_ffff_ffff_ffff,
                0 <= time <= 0xffff_ffff_ffff_ffff,
        ;
        let gain: i128 = (speed * time) / 1000;
        let raised: i128 = self.health as i128 + gain;
        if raised >= cap as i128 {
            self.health = cap;
        } else {
            self.health = raised as i64;
        }
    }

    /// Whether a unit of this health has to die: whether nothing is left of it.
    pub open spec fn is_spent(self) -> bool {
        self.health <= 0
    }
}

} // verus!
