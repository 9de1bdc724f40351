//! Combat rules of a two-team auto-battler: who finds whom, who walks where,
//! which action is used when, and what it does to whom.
//!
//! Every quantity is an integer. Lengths are thousandths of a world unit,
//! times are milliseconds, health and damage are thousandths of a point, and
//! factors are thousandths. Units and projectiles go by the handles that
//! the battle gives them when they come on the field.

pub mod battle;
pub mod cocos2d_anim;
pub mod geometry;
pub mod resource;
pub mod sorting;
pub mod text;
pub mod unit;

use vstd::prelude::*;

verus! {

/// Thousandths per whole: the scale of every length, factor and amount.
pub const SCALE: i32 = 1000;

/// The channel on which an animation reports its events.
#[derive(Clone, Copy, Debug, PartialEq, Eq, Structural)]
pub enum AnimChannel {
    Unit,
    Projectile,
    UnitAction,
}

impl AnimChannel {
    /// The number that stands for the channel `c`.
    pub open spec fn number(c: AnimChannel) -> int {
        match c {
            AnimChannel::Unit => 0,
            AnimChannel::Projectile => 1,
            AnimChannel::UnitAction => 2,
        }
    }

    /// The channel's number.
    pub fn to_i32(self) -> (n: i32)
        ensures
            n == Self::number(self),
    {
        match self {
            AnimChannel::Unit => 0,
            AnimChannel::Projectile => 1,
            AnimChannel::UnitAction => 2,
        }
    }

    /// The channel that the number `value` stands for. Only 0, 1 and 2
    /// stand for a channel.
    pub fn from(value: i32) -> (c: AnimChannel)
        requires
            0 <= value <= 2,
        ensures
            Self::number(c) == value,
            value == 0 ==> c == AnimChannel::Unit,
            value == 1 ==> c == AnimChannel::Projectile,
            value == 2 ==> c == AnimChannel::UnitAction,
    {
        if value == 0 {
            AnimChannel::Unit
        } else if value == 1 {
            AnimChannel::Projectile
        } else {
            AnimChannel::UnitAction
        }
    }

    /// The channel that `value` stands for, or `None` where it stands for
    /// none: for one who cannot know beforehand that it does.
    pub fn from_i32(value: i32) -> (c: Option<AnimChannel>)
        ensures
            match c {
                Some(ch) => 0 <= value <= 2 && Self::number(ch) == value,
                None => value < 0 || value > 2,
            },
    {
        if 0 <= value && value <= 2 {
            Some(AnimChannel::from(value))
        } else {
            None
        }
    }

    /// A channel's number stands for that channel again.
    pub proof fn lemma_number_round_trip(c: AnimChannel)
        ensures
            0 <= Self::number(c) <= 2,
            forall|d: AnimChannel| Self::number(d) == Self::number(c) ==> d == c,
    {
    }
}

} // verus!
