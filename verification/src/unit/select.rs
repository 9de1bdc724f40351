//! Which action a unit uses, and how near it has to come to use one.

use vstd::prelude::*;
use crate::geometry::{div_toward_zero, sq_below};
use crate::resource::action::{Action, ActionType};
use crate::unit::Unit;

verus! {

/// The distance within which a unit of body radius `a` hits a unit of body
/// radius `b` in close combat: the mean of the two.
pub open spec fn melee_attack_range(a: int, b: int) -> int {
    div_toward_zero(a + b, 2)
}

/// The distance within which `unit` hits `enemy` in close combat.
pub fn get_melee_attack_range(unit: &Unit, enemy: &Unit) -> (r: i32)
    ensures
        r == melee_attack_range(unit.body_radius as int, enemy.body_radius as int),
{
    melee_range_of(unit.body_radius, enemy.body_radius)
}

/// The close-combat distance of two body radii.
pub fn melee_range_of(a: i32, b: i32) -> (r: i32)
    ensures
        r == melee_attack_range(a as int, b as int),
{
    let sum: i64 = a as i64 + b as i64;
    (sum / 2) as i32
}

/// Whether `action` reaches an enemy at the distance whose square is `d_sq`:
/// a melee action within the close-combat distance, a shooting action within
/// its own range.
pub open spec fn action_covers(action: Action, melee_range: int, d_sq: int) -> bool {
    match action.action_type {
        ActionType::Melee(_) => sq_below(d_sq, melee_range),
        ActionType::Projectile(_) => action.range.contains_sq(d_sq),
    }
}

/// Whether `action` can be used at `now` on an enemy at the distance whose
/// square is `d_sq`: it is off cooldown and reaches that far.
pub open spec fn action_usable(action: Action, melee_range: int, d_sq: int, now: u64) -> bool {
    action.is_cd_over(now) && action_covers(action, melee_range, d_sq)
}

/// `choice` is the first usable action of `actions`, or `None` where none is usable.
pub open spec fn is_first_usable(
    actions: Seq<(String, Action)>,
    melee_range: int,
    d_sq: int,
    now: u64,
    choice: Option<usize>,
) -> bool {
    match choice {
        Some(i) => {
            &&& i < actions.len()
            &&& action_usable(actions[i as int].1, melee_range, d_sq, now)
            &&& forall|j: int| 0 <= j < i ==> !action_usable(#[trigger] actions[j].1, melee_range, d_sq, now)
        },
        None => forall|j: int|
            0 <= j < actions.len() ==> !action_usable(#[trigger] actions[j].1, melee_range, d_sq, now),
    }
}

/// The first usable action among those from the place `from` on.
pub open spec fn first_usable_from(
    actions: Seq<(String, Action)>,
    from: int,
    melee_range: int,
    d_sq: int,
    now: u64,
) -> Option<usize>
    decreases actions.len() - from,
{
    if from < 0 || from >= actions.len() {
        None
    } else if action_usable(actions[from].1, melee_range, d_sq, now) {
        Some(from as usize)
    } else {
        first_usable_from(actions, from + 1, melee_range, d_sq, now)
    }
}

/// The action that a unit uses at `now` on an enemy of body radius
/// `enemy_radius` at the distance whose square is `d_sq`: the first usable one
/// in the unit's order.
pub open spec fn selected_action(unit: Unit, enemy_radius: int, d_sq: int, now: u64) -> Option<usize> {
    first_usable_from(
        unit.actions@,
        0,
        melee_attack_range(unit.body_radius as int, enemy_radius),
        d_sq,
        now,
    )
}

/// What `first_usable_from` finds is usable, and nothing before it is; where
/// it finds nothing, nothing is usable.
pub proof fn lemma_first_usable_from(
    actions: Seq<(String, Action)>,
    from: int,
    melee_range: int,
    d_sq: int,
    now: u64,
)
    requires
        0 <= from <= actions.len(),
        actions.len() <= usize::MAX,
    ensures
        match first_usable_from(actions, from, melee_range, d_sq, now) {
            Some(i) => {
                &&& from <= i < actions.len()
                &&& action_usable(actions[i as int].1, melee_range, d_sq, now)
                &&& forall|j: int|
                    from <= j < i ==> !action_usable(#[trigger] actions[j].1, melee_range, d_sq, now)
            },
            None => forall|j: int|
                from <= j < actions.len() ==> !action_usable(
                    #[trigger] actions[j].1,
                    melee_range,
                    d_sq,
                    now,
                ),
        },
    decreases actions.len() - from,
{
    if from < actions.len() && !action_usable(actions[from].1, melee_range, d_sq, now) {
        lemma_first_usable_from(actions, from + 1, melee_range, d_sq, now);
    }
}

/// The selected action is off cooldown and reaches the enemy: more than its
/// cooldown has passed since its last use, and the distance lies within the
/// close-combat distance for a melee action, within the action's own range
/// for a shooting action. No action before it in the unit's order is usable.
pub proof fn lemma_selected_action_is_usable(unit: Unit, enemy_radius: int, d_sq: int, now: u64)
    requires
        unit.actions@.len() <= usize::MAX,
    ensures
        is_first_usable(
            unit.actions@,
            melee_attack_range(unit.body_radius as int, enemy_radius),
            d_sq,
            now,
            selected_action(unit, enemy_radius, d_sq, now),
        ),
        selected_action(unit, enemy_radius, d_sq, now) matches Some(i) ==> {
            let action = unit.actions@[i as int].1;
            &&& now - action.last_use_time > action.cd_time
            &&& action_covers(
                action,
                melee_attack_range(unit.body_radius as int, enemy_radius),
                d_sq,
            )
        },
{
    lemma_first_usable_from(
        unit.actions@,
        0,
        melee_attack_range(unit.body_radius as int, enemy_radius),
        d_sq,
        now,
    );
}

/// The first action, in the unit's order, that is off cooldown at `now` and
/// reaches an enemy of body radius `enemy_radius` at the distance whose square
/// is `d_sq`.
pub fn select_action(unit: &Unit, enemy_radius: i32, d_sq: u128, now: u64) -> (choice: Option<usize>)
    ensures
        choice == selected_action(*unit, enemy_radius as int, d_sq as int, now),
        is_first_usable(
            unit.actions@,
            melee_attack_range(unit.body_radius as int, enemy_radius as int),
            d_sq as int,
            now,
            choice,
        ),
{
    let melee_range = melee_range_of(unit.body_radius, enemy_radius);
    let mut idx: usize = 0;
    proof {
        assert(unit.actions@.len() == unit.actions.len());
        lemma_selected_action_is_usable(*unit, enemy_radius as int, d_sq as int, now);
    }
    while idx < unit.actions.len()
        invariant
            idx <= unit.actions.len(),
            melee_range == melee_attack_range(unit.body_radius as int, enemy_radius as int),
            is_first_usable(
                unit.actions@,
                melee_attack_range(unit.body_radius as int, enemy_radius as int),
                d_sq as int,
                now,
                selected_action(*unit, enemy_radius as int, d_sq as int, now),
            ),
            selected_action(*unit, enemy_radius as int, d_sq as int, now) == first_usable_from(
                unit.actions@,
                idx as int,
                melee_range as int,
                d_sq as int,
                now,
            ),
        decreases unit.actions.len() - idx,
    {
        let act = &unit.actions[idx].1;
        if act.is_cd_over(now) {
            let covers = match act.action_type {
                ActionType::Melee(_) => crate::geometry::is_below(d_sq, melee_range),
                ActionType::Projectile(_) => act.range.contains_distance_squared(d_sq),
            };
            if covers {
                return Some(idx);
            }
        }
        idx += 1;
    }
    None
}

/// How far `action` reaches: the close-combat distance for a melee action, the
/// far end of its range for a shooting action.
pub open spec fn action_reach(action: Action, melee_range: int) -> int {
    match action.action_type {
        ActionType::Melee(_) => melee_range,
        ActionType::Projectile(_) => action.range.end as int,
    }
}

/// The farthest reach among the first `n` actions that are off cooldown at
/// `now`; zero where none of them is, and never less than zero.
pub open spec fn farthest_reach(
    actions: Seq<(String, Action)>,
    n: int,
    melee_range: int,
    now: u64,
) -> int
    decreases n,
{
    if n <= 0 {
        0
    } else {
        let before = farthest_reach(actions, n - 1, melee_range, now);
        let action = actions[n - 1].1;
        if action.is_cd_over(now) && action_reach(action, melee_range) > before {
            action_reach(action, melee_range)
        } else {
            before
        }
    }
}

/// The attack range that a unit closes to: the farthest reach among its actions
/// that are off cooldown at `now`; zero where none is.
pub open spec fn farthest_attack_range(unit: Unit, enemy_radius: int, now: u64) -> int {
    farthest_reach(
        unit.actions@,
        unit.actions@.len() as int,
        melee_attack_range(unit.body_radius as int, enemy_radius),
        now,
    )
}

/// The farthest reach is that of some action off cooldown, or zero, and no
/// action off cooldown reaches farther.
pub proof fn lemma_farthest_reach_is_max(
    actions: Seq<(String, Action)>,
    n: int,
    melee_range: int,
    now: u64,
)
    requires
        0 <= n <= actions.len(),
    ensures
        farthest_reach(actions, n, melee_range, now) >= 0,
        forall|j: int|
            0 <= j < n && (#[trigger] actions[j]).1.is_cd_over(now) ==> action_reach(
                actions[j].1,
                melee_range,
            ) <= farthest_reach(actions, n, melee_range, now),
        farthest_reach(actions, n, melee_range, now) == 0 || exists|j: int|
            0 <= j < n && (#[trigger] actions[j]).1.is_cd_over(now) && action_reach(
                actions[j].1,
                melee_range,
            ) == farthest_reach(actions, n, melee_range, now),
    decreases n,
{
    if n > 0 {
        lemma_farthest_reach_is_max(actions, n - 1, melee_range, now);
        let before = farthest_reach(actions, n - 1, melee_range, now);
        let here = farthest_reach(actions, n, melee_range, now);
        if here != 0 {
            if here == before {
                let j = choose|j: int|
                    0 <= j < n - 1 && (#[trigger] actions[j]).1.is_cd_over(now) && action_reach(
                        actions[j].1,
                        melee_range,
                    ) == before;
                assert(0 <= j < n && actions[j].1.is_cd_over(now) && action_reach(
                    actions[j].1,
                    melee_range,
                ) == here);
            } else {
                assert(actions[n - 1].1.is_cd_over(now) && action_reach(
                    actions[n - 1].1,
                    melee_range,
                ) == here);
            }
        }
    }
}

/// The attack range that `unit` closes to against an enemy of body radius
/// `enemy_radius`: the farthest reach among its actions that are off cooldown
/// at `elapsed_time`; zero where none is.
pub fn get_farthest_attack_range(unit: &Unit, enemy_radius: i32, elapsed_time: u64) -> (r: i32)
    ensures
        r == farthest_attack_range(*unit, enemy_radius as int, elapsed_time),
        r == farthest_reach(
            unit.actions@,
            unit.actions@.len() as int,
            melee_attack_range(unit.body_radius as int, enemy_radius as int),
            elapsed_time,
        ),
        r >= 0,
{
    let melee_range = melee_range_of(unit.body_radius, enemy_radius);
    let mut max_range: i32 = 0;
    let mut idx: usize = 0;
    while idx < unit.actions.len()
        invariant
            idx <= unit.actions.len(),
            max_range >= 0,
            max_range == farthest_reach(unit.actions@, idx as int, melee_range as int, elapsed_time),
        decreases unit.actions.len() - idx,
    {
        let action = &unit.actions[idx].1;
        if action.is_cd_over(elapsed_time) {
            let range = match action.action_type {
                ActionType::Melee(_) => melee_range,
                ActionType::Projectile(_) => action.range.end,
            };
            if range > max_range {
                max_range = range;
            }
        }
        idx += 1;
    }
    max_range
}

} // verus!
