//! What a melee action does when its animation reaches the frame that
//! performs it: whom it hits, and how hard.

use rand::Rng;
use vstd::prelude::*;
use crate::geometry::{clamp_i64, clamp_to_i64, div_toward_zero, Point};
use crate::resource::action::melee::{MeleeAct, MeleeDamageCenterType};
use crate::resource::action::{DamageEvent, DistanceRange};
use crate::unit::search::{
    collect_in_range, lemma_range_scan_collects_each_once, line_handles_distinct, scan_in_range,
};
use crate::unit::{FluctuationRange, UnitDamage};

verus! {

/// A melee action whose damage radius is a tenth of a world unit or less
/// hits a single point: its target alone.
pub const POINT_ATTACK_RADIUS: i32 = 100;

/// The most enemies that one melee action gathers around its centre.
pub const MELEE_TARGET_CAP: usize = 100;

/// What a melee action's damage is multiplied by, besides its own factor.
pub const MELEE_DAMAGE_MULTIPLIER: i32 = 10;

/// The position of the first entry of `entity` in `list` from the place
/// `from` on.
pub open spec fn position_in(list: Seq<(u64, Point)>, from: int, entity: u64) -> Option<Point>
    decreases list.len() - from,
{
    if from < 0 || from >= list.len() {
        None
    } else if list[from].0 == entity {
        Some(list[from].1)
    } else {
        position_in(list, from + 1, entity)
    }
}

/// The position that the index holds for `entity`.
pub fn find_position(list: &Vec<(u64, Point)>, entity: u64) -> (found: Option<Point>)
    ensures
        found == position_in(list@, 0, entity),
{
    let mut i: usize = 0;
    while i < list.len()
        invariant
            i <= list.len(),
            position_in(list@, 0, entity) == position_in(list@, i as int, entity),
        decreases list.len() - i,
    {
        if list[i].0 == entity {
            return Some(list[i].1);
        }
        i += 1;
    }
    None
}

/// The point around which a melee action deals its damage: its target's
/// place in the index, or the performer's own place. `None` where the target
/// is the centre and the index does not hold it.
pub open spec fn damage_center(
    center: MeleeDamageCenterType,
    position: Point,
    target: u64,
    enemy_units: Seq<(u64, Point)>,
) -> Option<Point> {
    match center {
        MeleeDamageCenterType::Target => position_in(enemy_units, 0, target),
        MeleeDamageCenterType::Src => Some(position),
    }
}

/// The distances at which a melee action hits around its centre: from zero
/// up to, not including, its damage radius.
pub open spec fn damage_range(act: MeleeAct) -> DistanceRange {
    DistanceRange { start: 0, end: act.damage_radius }
}

/// `found`, with `target` added at the end unless it is among them.
pub open spec fn with_target(found: Seq<u64>, target: u64) -> Seq<u64> {
    if found.contains(target) {
        found
    } else {
        found.push(target)
    }
}

/// The units that a melee action hits. A point attack hits its target alone.
/// Any other hits the enemies nearer to its centre than its damage radius,
/// as the index scan gathers them, and its target in any case; where the centre is not to
/// be had, the target alone.
pub open spec fn melee_targets(
    act: MeleeAct,
    position: Point,
    target: u64,
    enemy_units: Seq<(u64, Point)>,
    ascending: bool,
) -> Seq<u64> {
    if act.damage_radius <= POINT_ATTACK_RADIUS {
        seq![target]
    } else {
        match damage_center(act.damage_center, position, target, enemy_units) {
            Some(center) => with_target(
                collect_in_range(
                    enemy_units,
                    0,
                    ascending,
                    center,
                    damage_range(act),
                    MELEE_TARGET_CAP as int,
                ),
                target,
            ),
            None => seq![target],
        }
    }
}

/// The damage of a melee action: the unit's base damage and the random part
/// `roll`, times the action's factor in thousandths, times ten; held to 64 bits.
pub open spec fn melee_damage(base: i64, roll: i64, factor: i32) -> i64 {
    clamp_i64(
        div_toward_zero((base + roll) * factor * MELEE_DAMAGE_MULTIPLIER, crate::SCALE as int),
    ) as i64
}

/// One damage event from `src` for each of `targets`, in their order.
pub open spec fn damage_events(src: u64, targets: Seq<u64>, damage: i64) -> Seq<DamageEvent> {
    targets.map_values(|t: u64| DamageEvent { src, target: t, damage })
}

/// The events of a melee action performed by `src` at `position` on `target`.
pub open spec fn melee_events(
    act: MeleeAct,
    src: u64,
    position: Point,
    base: i64,
    target: u64,
    enemy_units: Seq<(u64, Point)>,
    ascending: bool,
    roll: i64,
) -> Seq<DamageEvent> {
    damage_events(
        src,
        melee_targets(act, position, target, enemy_units, ascending),
        melee_damage(base, roll, act.damage_factor),
    )
}

/// A melee action always hits its target, and a point attack nothing else.
pub proof fn lemma_melee_hits_target(
    act: MeleeAct,
    src: u64,
    position: Point,
    base: i64,
    target: u64,
    enemy_units: Seq<(u64, Point)>,
    ascending: bool,
    roll: i64,
)
    ensures
        ({
            let events = melee_events(
                act,
                src,
                position,
                base,
                target,
                enemy_units,
                ascending,
                roll,
            );
            let hit = DamageEvent { src, target, damage: melee_damage(base, roll, act.damage_factor) };
            &&& events.contains(hit)
            &&& act.damage_radius <= POINT_ATTACK_RADIUS ==> events == seq![hit]
        }),
{
    let targets = melee_targets(act, position, target, enemy_units, ascending);
    let damage = melee_damage(base, roll, act.damage_factor);
    let events = damage_events(src, targets, damage);
    let hit = DamageEvent { src, target, damage };
    assert(targets.contains(target)) by {
        if act.damage_radius <= POINT_ATTACK_RADIUS {
            assert(seq![target][0] == target);
        } else {
            match damage_center(act.damage_center, position, target, enemy_units) {
                Some(center) => {
                    let found = collect_in_range(
                        enemy_units,
                        0,
                        ascending,
                        center,
                        damage_range(act),
                        MELEE_TARGET_CAP as int,
                    );
                    if !found.contains(target) {
                        assert(found.push(target)[found.len() as int] == target);
                    }
                },
                None => {
                    assert(seq![target][0] == target);
                },
            }
        }
    }
    let i = choose|i: int| 0 <= i < targets.len() && targets[i] == target;
    assert(events[i] == hit);
    if act.damage_radius <= POINT_ATTACK_RADIUS {
        assert(events =~= seq![hit]);
    }
}

/// Where the enemy's line holds no handle twice, one perform hits no unit
/// twice: the events name each unit hit once, the target among them, and all
/// carry the performer and one and the same damage.
pub proof fn lemma_melee_hits_each_once(
    act: MeleeAct,
    src: u64,
    position: Point,
    base: i64,
    target: u64,
    enemy_units: Seq<(u64, Point)>,
    ascending: bool,
    roll: i64,
)
    requires
        line_handles_distinct(enemy_units),
    ensures
        ({
            let events = melee_events(
                act,
                src,
                position,
                base,
                target,
                enemy_units,
                ascending,
                roll,
            );
            &&& forall|i: int, j: int|
                0 <= i < j < events.len() ==> (#[trigger] events[i]).target != (
                #[trigger] events[j]).target
            &&& forall|i: int|
                0 <= i < events.len() ==> (#[trigger] events[i]).src == src && events[i].damage
                    == melee_damage(base, roll, act.damage_factor)
            &&& exists|i: int| 0 <= i < events.len() && (#[trigger] events[i]).target == target
        }),
{
    let targets = melee_targets(act, position, target, enemy_units, ascending);
    let damage = melee_damage(base, roll, act.damage_factor);
    let events = damage_events(src, targets, damage);
    lemma_melee_hits_target(act, src, position, base, target, enemy_units, ascending, roll);
    let hit = DamageEvent { src, target, damage };
    let at = choose|at: int| 0 <= at < events.len() && events[at] == hit;
    assert(events[at].target == target);
    assert(targets.no_duplicates()) by {
        if act.damage_radius > POINT_ATTACK_RADIUS {
            match damage_center(act.damage_center, position, target, enemy_units) {
                Some(center) => {
                    lemma_range_scan_collects_each_once(
                        enemy_units,
                        0,
                        ascending,
                        center,
                        damage_range(act),
                        MELEE_TARGET_CAP as int,
                    );
                },
                None => {},
            }
        }
    }
    assert forall|i: int, j: int| 0 <= i < j < events.len() implies (#[trigger] events[i]).target != (
    #[trigger] events[j]).target by {
        assert(events[i].target == targets[i] && events[j].target == targets[j]);
    }
}

fn contains_entity(list: &Vec<u64>, entity: u64) -> (found: bool)
    ensures
        found == list@.contains(entity),
{
    let mut i: usize = 0;
    while i < list.len()
        invariant
            i <= list.len(),
            forall|k: int| 0 <= k < i ==> list@[k] != entity,
        decreases list.len() - i,
    {
        if list[i] == entity {
            return true;
        }
        i += 1;
    }
    false
}

fn compute_melee_damage(base: i64, roll: i64, factor: i32) -> (damage: i64)
    ensures
        damage == melee_damage(base, roll, factor),
{
    let sum: i128 = base as i128 + roll as i128;
    let factor_wide: i128 = factor as i128;
    assert(-0x1_0000_0000_0000_0000 * 0x8000_0000 <= sum * factor_wide <= 0x1_0000_0000_0000_0000
        * 0x8000_0000) by (nonlinear_arith)
        requires
            -0x1_0000_0000_0000_0000 <= sum <= 0x1_0000_0000_0000_0000,
            -0x8000_0000 <= factor_wide <= 0x8000_0000,
    ;
    let scaled: i128 = sum * factor_wide * (MELEE_DAMAGE_MULTIPLIER as i128);
    assert(scaled == (base + roll) * factor * MELEE_DAMAGE_MULTIPLIER) by (nonlinear_arith)
        requires
            scaled == sum * factor_wide * 10,
            sum == base + roll,
            factor_wide == factor,
            MELEE_DAMAGE_MULTIPLIER == 10,
    ;
    clamp_to_i64(scaled / (crate::SCALE as i128))
}

/// The damage events of a melee action that `src`, standing at `position`,
/// performs on `target`, with the random part `roll` of its damage.
/// `enemy_units` is the enemy's line of the index, which runs toward greater
/// `x` if `ascending`.
pub fn resolve_melee(
    act: &MeleeAct,
    src: u64,
    position: Point,
    unit_damage: &UnitDamage,
    target: u64,
    enemy_units: &Vec<(u64, Point)>,
    ascending: bool,
    roll: i64,
) -> (events: Vec<DamageEvent>)
    ensures
        events@ == melee_events(
            *act,
            src,
            position,
            unit_damage.damage,
            target,
            enemy_units@,
            ascending,
            roll,
        ),
{
    let mut enemies: Vec<u64> = Vec::new();
    let mut gathered = false;
    if act.damage_radius > POINT_ATTACK_RADIUS {
        let center = match act.damage_center {
            MeleeDamageCenterType::Target => find_position(enemy_units, target),
            MeleeDamageCenterType::Src => Some(position),
        };
        if let Some(c) = center {
            let range = DistanceRange { start: 0, end: act.damage_radius };
            enemies = scan_in_range(enemy_units, ascending, &range, &c, MELEE_TARGET_CAP);
            if !contains_entity(&enemies, target) {
                enemies.push(target);
            }
            gathered = true;
        }
    }
    if !gathered {
        enemies.push(target);
        assert(enemies@ == seq![target]);
    }
    let damage = compute_melee_damage(unit_damage.damage, roll, act.damage_factor);
    let mut events: Vec<DamageEvent> = Vec::new();
    let mut i: usize = 0;
    while i < enemies.len()
        invariant
            i <= enemies.len(),
            events@ == damage_events(src, enemies@, damage).take(i as int),
        decreases enemies.len() - i,
    {
        events.push(DamageEvent { src, target: enemies[i], damage });
        assert(events@ == damage_events(src, enemies@, damage).take(i + 1));
        i += 1;
    }
    assert(damage_events(src, enemies@, damage).take(enemies.len() as int) == damage_events(
        src,
        enemies@,
        damage,
    ));
    events
}

impl FluctuationRange {
    /// Whether the range holds any amount.
    pub open spec fn is_nonempty(self) -> bool {
        self.start < self.end
    }

    /// Whether the range holds any amount.
    pub fn has_room(&self) -> (b: bool)
        ensures
            b == self.is_nonempty(),
    {
        self.start < self.end
    }

    /// An amount drawn at random from the range.
    pub fn draw(&self) -> (amount: i64)
        requires
            self.is_nonempty(),
        ensures
            self.start <= amount < self.end,
    {
        gen_range(self.start, self.end)
    }
}

/// An integer from `start` up to, not including, `end`, from
/// `rand::Rng::gen_range` on the thread's generator `rand::thread_rng()`.
/// Which integer it is depends on chance; `gen_range` does not take an empty
/// range. Not proved: taken from the documentation of `gen_range`.
#[verifier::external_body]
fn gen_range(start: i64, end: i64) -> (amount: i64)
    requires
        start < end,
    ensures
        start <= amount < end,
{
    rand::thread_rng().gen_range(start..end)
}

} // verus!
