//! Close-combat actions.

use vstd::prelude::*;
use crate::text::str_eq;
use crate::unit::UnitType;

verus! {

/// Where the damage of a melee action is centred.
#[derive(Clone, Copy, Debug, PartialEq, Eq, Structural)]
pub enum MeleeDamageCenterType {
    Target,
    Src,
}

impl MeleeDamageCenterType {
    /// The centre that the configuration word `s` names.
    pub fn from_str(s: &str) -> (c: Option<MeleeDamageCenterType>)
        ensures
            s@ == "target"@ ==> c == Some(MeleeDamageCenterType::Target),
            s@ != "target"@ && s@ == "src"@ ==> c == Some(MeleeDamageCenterType::Src),
            s@ != "target"@ && s@ != "src"@ ==> c is None,
    {
        if str_eq(s, "target") {
            Some(MeleeDamageCenterType::Target)
        } else if str_eq(s, "src") {
            Some(MeleeDamageCenterType::Src)
        } else {
            None
        }
    }
}

/// One record of the melee table.
#[derive(Debug)]
pub struct MeleeInfo {
    pub effect_name: String,
    pub perform_sound: Vec<String>,
    pub effect_level: u32,
    /// Cooldown in milliseconds.
    pub cd_time: u64,
    pub type_allow: Vec<UnitType>,
    /// Thousandths.
    pub damage_factor: i32,
    pub damage_center: MeleeDamageCenterType,
    /// Thousandths of a world unit.
    pub damage_radius: i32,
    pub buff_level: Vec<u32>,
    pub buff_list: Vec<String>,
    pub effect_animation: String,
    pub effect_sound: Vec<String>,
}

/// What a melee action does, resolved from its record.
#[derive(Debug)]
pub struct MeleeAct {
    /// Thousandths.
    pub damage_factor: i32,
    pub damage_center: MeleeDamageCenterType,
    /// Thousandths of a world unit.
    pub damage_radius: i32,
    /// The path of the effect's animation, where the action has an effect.
    pub effect_animation: Option<String>,
    /// The paths of the effect's sounds, where the action has an effect.
    pub effect_sound: Option<Vec<String>>,
    /// The paths of the sounds played when the action is performed.
    pub perform_sound: Vec<String>,
}

} // verus!
