//! The unit table's records, and what is made from them: a unit's first
//! components, and the list of assets it needs.

use vstd::prelude::*;
use crate::geometry::{div_toward_zero, Point};
use crate::resource::action::{is_melee_action, is_projectile_action, Action};
use crate::resource::{anim_path_of, skill_audio_path_of, ConfigResource, ResourcePath};
use crate::sorting::{
    goes_before, lemma_insert_stable_at, lemma_stable_sort_is_ordered_permutation, stable_sort,
};
use crate::unit::{
    FluctuationRange, Unit, UnitAttackType, UnitDamage, UnitHealth, UnitIntent, UnitState, UnitType,
    WhoAttackMe,
};

verus! {

/// From which unit level on an action has which level.
#[derive(Clone, Copy, Debug, PartialEq, Eq, Structural)]
pub struct UnitActionLevelRule {
    pub unit_level: u32,
    pub action_level: u32,
}

/// One action of a unit: the name of its animation, and the effect it stands for.
#[derive(Debug)]
pub struct UnitActionRule {
    pub name: String,
    pub action: String,
    pub level_rule: Vec<UnitActionLevelRule>,
}

/// One record of the unit table. Lengths are thousandths of a world unit,
/// health and damage thousandths of a point.
#[derive(Debug)]
pub struct UnitInfo {
    pub unit_name: String,
    pub moving_sound: String,
    pub attack_type: UnitAttackType,
    pub can_change: bool,
    pub unit_type: UnitType,
    pub body_width: i32,
    pub body_height: i32,
    pub animation_name: String,
    pub body_radius: i32,
    /// Thousandths of a world unit per second.
    pub move_speed: i32,
    pub health_base: i32,
    /// Health gained with each level.
    pub health_factor: i32,
    pub health_recovery_speed: i32,
    pub view: i32,
    pub damage_base: i32,
    /// Damage gained with each level.
    pub damage_factor: i32,
    pub damage_min_bias: i32,
    pub damage_max_bias: i32,
    pub level_max: u32,
    pub die_skill: String,
    pub run_skill: String,
    pub decoration: String,
    pub actions: Vec<UnitActionRule>,
}

/// The components that a unit starts with.
#[derive(Debug)]
pub struct UnitBundle {
    pub unit: Unit,
    pub state: UnitState,
    pub health: UnitHealth,
    pub damage: UnitDamage,
    pub intent: UnitIntent,
    pub who_attack_me: WhoAttackMe,
}

/// Ticks per second: a speed per second is a fiftieth of it per tick.
pub const TICKS_PER_SECOND: i32 = 50;

/// The key that a unit's actions are ordered by: the cooldown.
pub open spec fn cooldown_key() -> spec_fn((String, Action)) -> int {
    |entry: (String, Action)| entry.1.cd_time as int
}

/// `resolved` holds, in the order of `rules`, one action for each rule whose
/// effect the store knows, under the rule's name: the melee action of the
/// effect's first melee record, or else the shooting action of its first
/// projectile record. A rule whose effect is in neither table has no action.
pub open spec fn resolves_to(
    rules: Seq<UnitActionRule>,
    config: ConfigResource,
    resolved: Seq<(String, Action)>,
) -> bool
    decreases rules.len(),
{
    if rules.len() == 0 {
        resolved.len() == 0
    } else {
        let rule = rules.last();
        match config.melee_record(rule.action@) {
            Some(info) => {
                &&& resolved.len() > 0
                &&& resolved.last().0@ == rule.name@
                &&& is_melee_action(info, resolved.last().1)
                &&& resolves_to(rules.drop_last(), config, resolved.drop_last())
            },
            None => match config.projectile_record(rule.action@) {
                Some(info) => {
                    &&& resolved.len() > 0
                    &&& resolved.last().0@ == rule.name@
                    &&& is_projectile_action(info, resolved.last().1)
                    &&& resolves_to(rules.drop_last(), config, resolved.drop_last())
                },
                None => resolves_to(rules.drop_last(), config, resolved),
            },
        }
    }
}

/// `catalog` is the action catalog of a unit with the rules `rules`: the
/// actions that the rules resolve to, the longest cooldown first, actions of
/// equal cooldown in the order of their rules.
pub open spec fn is_catalog_of(
    rules: Seq<UnitActionRule>,
    config: ConfigResource,
    catalog: Seq<(String, Action)>,
) -> bool {
    exists|resolved: Seq<(String, Action)>|
        #![trigger resolves_to(rules, config, resolved)]
        resolves_to(rules, config, resolved) && catalog == stable_sort(
            resolved,
            cooldown_key(),
            true,
        )
}

/// In a catalog no action stands behind one of shorter cooldown, and the
/// catalog holds one action for each rule that resolves.
pub proof fn lemma_catalog_is_ordered(
    rules: Seq<UnitActionRule>,
    config: ConfigResource,
    catalog: Seq<(String, Action)>,
)
    requires
        is_catalog_of(rules, config, catalog),
    ensures
        forall|i: int, j: int|
            0 <= i < j < catalog.len() ==> (#[trigger] catalog[i]).1.cd_time >= (
            #[trigger] catalog[j]).1.cd_time,
        catalog.len() <= rules.len(),
{
    let resolved = choose|resolved: Seq<(String, Action)>|
        #![trigger resolves_to(rules, config, resolved)]
        resolves_to(rules, config, resolved) && catalog == stable_sort(
            resolved,
            cooldown_key(),
            true,
        );
    lemma_stable_sort_is_ordered_permutation(resolved, cooldown_key(), true);
    lemma_resolved_is_no_longer(rules, config, resolved);
    assert forall|i: int, j: int| 0 <= i < j < catalog.len() implies (#[trigger] catalog[i]).1.cd_time
        >= (#[trigger] catalog[j]).1.cd_time by {
        assert(!goes_before(cooldown_key()(catalog[j]), cooldown_key()(catalog[i]), true));
    }
}

/// The rules resolve to no more actions than there are rules.
pub proof fn lemma_resolved_is_no_longer(
    rules: Seq<UnitActionRule>,
    config: ConfigResource,
    resolved: Seq<(String, Action)>,
)
    requires
        resolves_to(rules, config, resolved),
    ensures
        resolved.len() <= rules.len(),
    decreases rules.len(),
{
    if rules.len() > 0 {
        let rule = rules.last();
        if config.melee_record(rule.action@) is Some || config.projectile_record(rule.action@)
            is Some {
            lemma_resolved_is_no_longer(rules.drop_last(), config, resolved.drop_last());
        } else {
            lemma_resolved_is_no_longer(rules.drop_last(), config, resolved);
        }
    }
}

/// `base + per_level * level`, which fits in 64 bits whatever the three are.
pub open spec fn at_level(base: i32, per_level: i32, level: u32) -> int {
    base + per_level * level
}

fn value_at_level(base: i32, per_level: i32, level: u32) -> (v: i64)
    ensures
        v == at_level(base, per_level, level),
{
    let per_level_wide: i64 = per_level as i64;
    let level_wide: i64 = level as i64;
    assert(-0x8000_0000 * 0xffff_ffff <= per_level_wide * level_wide <= 0x7fff_ffff * 0xffff_ffff)
        by (nonlinear_arith)
        requires
            -0x8000_0000 <= per_level_wide <= 0x7fff_ffff,
            0 <= level_wide <= 0xffff_ffff,
    ;
    base as i64 + per_level_wide * level_wide
}

/// `bundle` holds the first components of a unit of the record `info` at the
/// level `level`: idle, told to stand at the origin, attacked by nobody.
pub open spec fn is_bundle_of(info: UnitInfo, level: u32, config: ConfigResource, bundle: UnitBundle) -> bool {
    &&& is_catalog_of(info.actions@, config, bundle.unit.actions@)
    &&& bundle.unit.view_range == info.view
    &&& bundle.unit.move_speed == div_toward_zero(info.move_speed as int, TICKS_PER_SECOND as int)
    &&& bundle.unit.body_radius == info.body_radius
    &&& bundle.unit.body_width == info.body_width
    &&& bundle.unit.body_height == info.body_height
    &&& bundle.state == UnitState::Idle
    &&& bundle.health.health == at_level(info.health_base, info.health_factor, level)
    &&& bundle.health.health_recovery_speed == info.health_recovery_speed
    &&& bundle.damage.damage == at_level(info.damage_base, info.damage_factor, level)
    &&& bundle.damage.damage_fluctuation_range == (FluctuationRange {
        start: info.damage_min_bias as i64,
        end: info.damage_max_bias as i64,
    })
    &&& bundle.intent == UnitIntent::StandAt(Point { x: 0, y: 0 })
    &&& bundle.who_attack_me == WhoAttackMe(0)
}

/// Puts `entry` into a catalog that is ordered by falling cooldown: behind
/// every action whose cooldown is no shorter.
fn insert_by_cooldown(catalog: &mut Vec<(String, Action)>, entry: (String, Action))
    ensures
        final(catalog)@ == crate::sorting::insert_stable(
            old(catalog)@,
            entry,
            cooldown_key(),
            true,
        ),
{
    let mut at: usize = catalog.len();
    while at > 0 && entry.1.cd_time > catalog[at - 1].1.cd_time
        invariant
            at <= catalog.len(),
            *catalog == *old(catalog),
            forall|k: int|
                at <= k < catalog.len() ==> goes_before(
                    cooldown_key()(entry),
                    cooldown_key()(#[trigger] catalog@[k]),
                    true,
                ),
        decreases at,
    {
        at -= 1;
    }
    proof {
        lemma_insert_stable_at(catalog@, entry, cooldown_key(), true, at as int);
        assert(catalog@.take(at as int).push(entry) + catalog@.skip(at as int) == catalog@.insert(
            at as int,
            entry,
        ));
    }
    catalog.insert(at, entry);
}

impl UnitBundle {
    /// The first components of a unit of the kind `name` at the level `level`,
    /// or `None` where the unit table has no such kind.
    pub fn new(name: &str, level: u32, config_res: &ConfigResource) -> (bundle: Option<UnitBundle>)
        requires
            config_res.wf(),
        ensures
            match bundle {
                Some(b) => config_res.unit_record(name@) matches Some(info) && is_bundle_of(
                    info,
                    level,
                    *config_res,
                    b,
                ),
                None => config_res.unit_record(name@) is None,
            },
    {
        let unit_info = match config_res.unit(name) {
            Some(info) => info,
            None => {
                return None;
            },
        };
        let mut actions: Vec<(String, Action)> = Vec::new();
        let ghost mut resolved: Seq<(String, Action)> = Seq::empty();
        let mut i: usize = 0;
        while i < unit_info.actions.len()
            invariant
                i <= unit_info.actions.len(),
                config_res.wf(),
                resolves_to(unit_info.actions@.take(i as int), *config_res, resolved),
                actions@ == stable_sort(resolved, cooldown_key(), true),
            decreases unit_info.actions.len() - i,
        {
            let rule = &unit_info.actions[i];
            let ghost rules_now = unit_info.actions@.take(i + 1);
            assert(rules_now.drop_last() == unit_info.actions@.take(i as int));
            assert(rules_now.last() == *rule);
            if let Some(info) = config_res.melee(rule.action.as_str()) {
                let entry = (rule.name.clone(), Action::from_melee(info));
                proof {
                    let before = resolved;
                    resolved = before.push(entry);
                    assert(resolved.drop_last() == before);
                    assert(resolved.last() == entry);
                }
                insert_by_cooldown(&mut actions, entry);
            } else if let Some(info) = config_res.projectile(rule.action.as_str()) {
                let entry = (rule.name.clone(), Action::from_projectile(info));
                proof {
                    let before = resolved;
                    resolved = before.push(entry);
                    assert(resolved.drop_last() == before);
                    assert(resolved.last() == entry);
                }
                insert_by_cooldown(&mut actions, entry);
            }
            assert(resolves_to(rules_now, *config_res, resolved));
            i += 1;
        }
        assert(unit_info.actions@.take(unit_info.actions.len() as int) == unit_info.actions@);
        Some(
            UnitBundle {
                unit: Unit {
                    actions,
                    view_range: unit_info.view,
                    move_speed: unit_info.move_speed / TICKS_PER_SECOND,
                    body_radius: unit_info.body_radius,
                    body_width: unit_info.body_width,
                    body_height: unit_info.body_height,
                },
                state: UnitState::Idle,
                health: UnitHealth {
                    health: value_at_level(unit_info.health_base, unit_info.health_factor, level),
                    health_recovery_speed: unit_info.health_recovery_speed as i64,
                },
                damage: UnitDamage {
                    damage: value_at_level(unit_info.damage_base, unit_info.damage_factor, level),
                    damage_fluctuation_range: FluctuationRange {
                        start: unit_info.damage_min_bias as i64,
                        end: unit_info.damage_max_bias as i64,
                    },
                },
                intent: UnitIntent::StandAt(Point { x: 0, y: 0 }),
                who_attack_me: WhoAttackMe(0),
            },
        )
    }
}

/// The characters of each of `names`.
pub open spec fn names_of(names: Seq<String>) -> Seq<Seq<char>> {
    names.map_values(|name: String| name@)
}

/// The sound path of each of `sounds`.
pub open spec fn sound_paths(sounds: Seq<String>) -> Seq<Seq<char>> {
    sounds.map_values(|name: String| skill_audio_path_of(name@))
}

/// The animation that the rule `rule` needs besides the unit's own: that of
/// its melee effect, or else of its bullet, if it has one.
pub open spec fn rule_animation(rule: UnitActionRule, config: ConfigResource) -> Option<Seq<char>> {
    match config.melee_record(rule.action@) {
        Some(info) => if info.effect_animation@.len() == 0 {
            None
        } else {
            Some(anim_path_of(info.effect_animation@))
        },
        None => match config.projectile_record(rule.action@) {
            Some(info) => if info.bullet_animation_name@.len() == 0 {
                None
            } else {
                Some(anim_path_of(info.bullet_animation_name@))
            },
            None => None,
        },
    }
}

/// The sounds that the rule `rule` needs: those played when its melee effect
/// is performed, or else those played when its bullet is shot, if the bullet
/// has an animation.
pub open spec fn rule_sounds(rule: UnitActionRule, config: ConfigResource) -> Seq<Seq<char>> {
    match config.melee_record(rule.action@) {
        Some(info) => sound_paths(info.perform_sound@),
        None => match config.projectile_record(rule.action@) {
            Some(info) => if info.bullet_animation_name@.len() == 0 {
                Seq::empty()
            } else {
                sound_paths(info.perform_sound@)
            },
            None => Seq::empty(),
        },
    }
}

/// The animations that the first `n` of `rules` need, in their order.
pub open spec fn rules_animations(rules: Seq<UnitActionRule>, n: int, config: ConfigResource) -> Seq<
    Seq<char>,
>
    decreases n,
{
    if n <= 0 {
        Seq::empty()
    } else {
        let before = rules_animations(rules, n - 1, config);
        match rule_animation(rules[n - 1], config) {
            Some(path) => before.push(path),
            None => before,
        }
    }
}

/// The sounds that the first `n` of `rules` need, in their order.
pub open spec fn rules_sounds(rules: Seq<UnitActionRule>, n: int, config: ConfigResource) -> Seq<
    Seq<char>,
>
    decreases n,
{
    if n <= 0 {
        Seq::empty()
    } else {
        rules_sounds(rules, n - 1, config) + rule_sounds(rules[n - 1], config)
    }
}

/// The animations that a unit of the record `info` needs: none for a unit
/// without an animation of its own, else its own and those of its actions.
pub open spec fn unit_animations(info: UnitInfo, config: ConfigResource) -> Seq<Seq<char>> {
    if info.animation_name@.len() == 0 {
        Seq::empty()
    } else {
        seq![anim_path_of(info.animation_name@)] + rules_animations(
            info.actions@,
            info.actions@.len() as int,
            config,
        )
    }
}

/// The sounds that a unit of the record `info` needs: none for a unit without
/// an animation of its own, else those of its actions.
pub open spec fn unit_sounds(info: UnitInfo, config: ConfigResource) -> Seq<Seq<char>> {
    if info.animation_name@.len() == 0 {
        Seq::empty()
    } else {
        rules_sounds(info.actions@, info.actions@.len() as int, config)
    }
}

fn push_sound_paths(audios: &mut Vec<String>, sounds: &Vec<String>)
    ensures
        names_of(final(audios)@) == names_of(old(audios)@) + sound_paths(sounds@),
{
    let mut i: usize = 0;
    while i < sounds.len()
        invariant
            i <= sounds.len(),
            names_of(audios@) == names_of(old(audios)@) + sound_paths(sounds@).take(i as int),
        decreases sounds.len() - i,
    {
        let ghost before = audios@;
        audios.push(sounds[i].skill_audio_path());
        assert(names_of(audios@) == names_of(before).push(skill_audio_path_of(sounds@[i as int]@)));
        assert(sound_paths(sounds@).take(i + 1) == sound_paths(sounds@).take(i as int).push(
            skill_audio_path_of(sounds@[i as int]@),
        ));
        i += 1;
    }
    assert(sound_paths(sounds@).take(sounds@.len() as int) == sound_paths(sounds@));
}

/// The paths of the animations and of the sounds that a unit of the kind
/// `unit_name` needs, or `None` where the unit table has no such kind.
pub fn get_unit_resources(unit_name: &str, config_res: &ConfigResource) -> (resources: Option<
    (Vec<String>, Vec<String>),
>)
    requires
        config_res.wf(),
    ensures
        match resources {
            Some((anims, audios)) => config_res.unit_record(unit_name@) matches Some(info)
                && names_of(anims@) == unit_animations(info, *config_res) && names_of(audios@)
                == unit_sounds(info, *config_res),
            None => config_res.unit_record(unit_name@) is None,
        },
{
    let unit_info = match config_res.unit(unit_name) {
        Some(info) => info,
        None => {
            return None;
        },
    };
    let mut anims: Vec<String> = Vec::new();
    let mut audios: Vec<String> = Vec::new();
    if unit_info.animation_name.as_str().is_empty() {
        assert(names_of(anims@) == Seq::<Seq<char>>::empty());
        assert(names_of(audios@) == Seq::<Seq<char>>::empty());
        return Some((anims, audios));
    }
    anims.push(unit_info.animation_name.anim_path());
    assert(names_of(anims@) == seq![anim_path_of(unit_info.animation_name@)]);
    assert(names_of(audios@) == Seq::<Seq<char>>::empty());
    let mut i: usize = 0;
    while i < unit_info.actions.len()
        invariant
            i <= unit_info.actions.len(),
            config_res.wf(),
            names_of(anims@) == seq![anim_path_of(unit_info.animation_name@)] + rules_animations(
                unit_info.actions@,
                i as int,
                *config_res,
            ),
            names_of(audios@) == rules_sounds(unit_info.actions@, i as int, *config_res),
        decreases unit_info.actions.len() - i,
    {
        let action = &unit_info.actions[i];
        let ghost anims_before = anims@;
        let ghost audios_before = audios@;
        if let Some(info) = config_res.melee(action.action.as_str()) {
            if !info.effect_animation.as_str().is_empty() {
                anims.push(info.effect_animation.anim_path());
                assert(names_of(anims@) == names_of(anims_before).push(
                    anim_path_of(info.effect_animation@),
                ));
            }
            push_sound_paths(&mut audios, &info.perform_sound);
        } else if let Some(info) = config_res.projectile(action.action.as_str()) {
            if !info.bullet_animation_name.as_str().is_empty() {
                anims.push(info.bullet_animation_name.anim_path());
                assert(names_of(anims@) == names_of(anims_before).push(
                    anim_path_of(info.bullet_animation_name@),
                ));
                push_sound_paths(&mut audios, &info.perform_sound);
            }
        }
        assert(names_of(audios@) == names_of(audios_before) + rule_sounds(*action, *config_res));
        assert(names_of(anims@) == match rule_animation(*action, *config_res) {
            Some(path) => names_of(anims_before).push(path),
            None => names_of(anims_before),
        });
        i += 1;
    }
    Some((anims, audios))
}

} // verus!
