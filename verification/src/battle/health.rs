//! Damage, healing and death.

use vstd::prelude::*;
use crate::battle::Battle;
use crate::resource::action::{DamageEvent, HealEvent};
use crate::unit::entity::UnitEntity;
use crate::unit::UnitHealth;

verus! {

/// The health `health` of the unit `entity` after the first `n` of `events`
/// have been dealt, in their order.
pub open spec fn health_after_damage(events: Seq<DamageEvent>, n: int, entity: u64, health: i64) -> i64
    decreases n,
{
    if n <= 0 {
        health
    } else {
        let before = health_after_damage(events, n - 1, entity, health);
        if events[n - 1].target == entity {
            UnitHealth::after_damage(before, events[n - 1].damage)
        } else {
            before
        }
    }
}

/// The health `health` of the unit `entity` after the first `n` of `events`
/// have been given, in their order.
pub open spec fn health_after_heal(events: Seq<HealEvent>, n: int, entity: u64, health: i64) -> i64
    decreases n,
{
    if n <= 0 {
        health
    } else {
        let before = health_after_heal(events, n - 1, entity, health);
        if events[n - 1].target == entity {
            UnitHealth::after_heal(before, events[n - 1].heal)
        } else {
            before
        }
    }
}

/// The unit `u` with the health `health`.
pub open spec fn with_health(u: UnitEntity, health: i64) -> UnitEntity {
    UnitEntity {
        health: UnitHealth { health, health_recovery_speed: u.health.health_recovery_speed },
        ..u
    }
}

/// Deals to `health`, the health of the unit `entity`, the damage that
/// `events` order for that unit, in their order.
pub fn deal_damage(health: &mut UnitHealth, events: &Vec<DamageEvent>, entity: u64)
    ensures
        final(health).health == health_after_damage(
            events@,
            events@.len() as int,
            entity,
            old(health).health,
        ),
        final(health).health_recovery_speed == old(health).health_recovery_speed,
{
    let mut n: usize = 0;
    while n < events.len()
        invariant
            n <= events.len(),
            health.health == health_after_damage(events@, n as int, entity, old(health).health),
            health.health_recovery_speed == old(health).health_recovery_speed,
        decreases events.len() - n,
    {
        let event = events[n];
        if event.target == entity {
            health.take_damage(event.damage);
        }
        n += 1;
    }
}

/// Gives to `health`, the health of the unit `entity`, the healing that
/// `events` order for that unit, in their order.
pub fn give_heal(health: &mut UnitHealth, events: &Vec<HealEvent>, entity: u64)
    ensures
        final(health).health == health_after_heal(
            events@,
            events@.len() as int,
            entity,
            old(health).health,
        ),
        final(health).health_recovery_speed == old(health).health_recovery_speed,
{
    let mut n: usize = 0;
    while n < events.len()
        invariant
            n <= events.len(),
            health.health == health_after_heal(events@, n as int, entity, old(health).health),
            health.health_recovery_speed == old(health).health_recovery_speed,
        decreases events.len() - n,
    {
        let event = events[n];
        if event.target == entity {
            health.take_heal(event.heal);
        }
        n += 1;
    }
}

impl Battle {
    /// `after` is the field once the damage that was ordered is dealt.
    pub open spec fn damage_dealt(self, after: Battle) -> bool {
        &&& after.units@.len() == self.units@.len()
        &&& forall|i: int|
            0 <= i < self.units@.len() ==> #[trigger] after.units@[i] == with_health(
                self.units@[i],
                health_after_damage(
                    self.damage_events@,
                    self.damage_events@.len() as int,
                    self.units@[i].entity,
                    self.units@[i].health.health,
                ),
            )
        &&& after.damage_events@.len() == 0
        &&& after.projectiles == self.projectiles
        &&& after.search_map == self.search_map
        &&& after.heal_events == self.heal_events
        &&& after.despawn_queue == self.despawn_queue
        &&& after.next_entity == self.next_entity
    }

    /// `after` is the field once the healing that was ordered is given.
    pub open spec fn healing_given(self, after: Battle) -> bool {
        &&& after.units@.len() == self.units@.len()
        &&& forall|i: int|
            0 <= i < self.units@.len() ==> #[trigger] after.units@[i] == with_health(
                self.units@[i],
                health_after_heal(
                    self.heal_events@,
                    self.heal_events@.len() as int,
                    self.units@[i].entity,
                    self.units@[i].health.health,
                ),
            )
        &&& after.heal_events@.len() == 0
        &&& after.projectiles == self.projectiles
        &&& after.search_map == self.search_map
        &&& after.damage_events == self.damage_events
        &&& after.despawn_queue == self.despawn_queue
        &&& after.next_entity == self.next_entity
    }

    /// `after` is the field once every unit's health was looked at.
    pub open spec fn deaths_settled(self, after: Battle) -> bool {
        &&& self.same_but_units(after)
        &&& after.units@.len() == self.units@.len()
        &&& forall|i: int|
            0 <= i < self.units@.len() ==> self.units@[i].health_post(#[trigger] after.units@[i])
    }

    /// `after` is the field once every living unit has recovered for `delta`
    /// milliseconds, up to the health `cap`.
    pub open spec fn recovered(self, delta: u64, cap: i64, after: Battle) -> bool {
        &&& self.same_but_units(after)
        &&& after.units@.len() == self.units@.len()
        &&& forall|i: int|
            0 <= i < self.units@.len() ==> #[trigger] after.units@[i] == if self.units@[i].is_living() {
                with_health(
                    self.units@[i],
                    UnitHealth::after_recovery(
                        self.units@[i].health.health,
                        self.units@[i].health.health_recovery_speed,
                        delta,
                        cap,
                    ),
                )
            } else {
                self.units@[i]
            }
    }

    /// Lets every living unit recover for `delta` milliseconds at its own
    /// speed, up to the health `cap`. No tick does this by itself.
    pub fn health_recovery_system(&mut self, delta: u64, cap: i64)
        ensures
            old(self).recovered(delta, cap, *final(self)),
            old(self).wf() ==> final(self).wf(),
    {
        let mut i: usize = 0;
        while i < self.units.len()
            invariant
                i <= self.units.len(),
                self.units@.len() == old(self).units@.len(),
                old(self).same_but_units(*self),
                forall|k: int|
                    0 <= k < i ==> #[trigger] self.units@[k] == if old(self).units@[k].is_living() {
                        with_health(
                            old(self).units@[k],
                            UnitHealth::after_recovery(
                                old(self).units@[k].health.health,
                                old(self).units@[k].health.health_recovery_speed,
                                delta,
                                cap,
                            ),
                        )
                    } else {
                        old(self).units@[k]
                    },
                forall|k: int| i <= k < self.units@.len() ==> self.units@[k] == old(self).units@[k],
            decreases self.units.len() - i,
        {
            if self.units[i].living.is_some() {
                self.units[i].health.recover(delta, cap);
            }
            i += 1;
        }
    }

    /// Deals the damage that was ordered, to each unit in the order of the
    /// orders, and clears the orders.
    pub fn damage_system(&mut self)
        ensures
            old(self).damage_dealt(*final(self)),
            old(self).wf() ==> final(self).wf(),
    {
        let mut i: usize = 0;
        while i < self.units.len()
            invariant
                i <= self.units.len(),
                self.units@.len() == old(self).units@.len(),
                forall|k: int|
                    0 <= k < i ==> #[trigger] self.units@[k] == with_health(
                        old(self).units@[k],
                        health_after_damage(
                            old(self).damage_events@,
                            old(self).damage_events@.len() as int,
                            old(self).units@[k].entity,
                            old(self).units@[k].health.health,
                        ),
                    ),
                forall|k: int| i <= k < self.units@.len() ==> self.units@[k] == old(self).units@[k],
                self.damage_events == old(self).damage_events,
                self.projectiles == old(self).projectiles,
                self.search_map == old(self).search_map,
                self.heal_events == old(self).heal_events,
                self.despawn_queue == old(self).despawn_queue,
                self.next_entity == old(self).next_entity,
            decreases self.units.len() - i,
        {
            let entity = self.units[i].entity;
            deal_damage(&mut self.units[i].health, &self.damage_events, entity);
            i += 1;
        }
        self.damage_events.clear();
    }

    /// Gives the healing that was ordered, to each unit in the order of the
    /// orders, and clears the orders.
    pub fn heal_system(&mut self)
        ensures
            old(self).healing_given(*final(self)),
            old(self).wf() ==> final(self).wf(),
    {
        let mut i: usize = 0;
        while i < self.units.len()
            invariant
                i <= self.units.len(),
                self.units@.len() == old(self).units@.len(),
                forall|k: int|
                    0 <= k < i ==> #[trigger] self.units@[k] == with_health(
                        old(self).units@[k],
                        health_after_heal(
                            old(self).heal_events@,
                            old(self).heal_events@.len() as int,
                            old(self).units@[k].entity,
                            old(self).units@[k].health.health,
                        ),
                    ),
                forall|k: int| i <= k < self.units@.len() ==> self.units@[k] == old(self).units@[k],
                self.damage_events == old(self).damage_events,
                self.projectiles == old(self).projectiles,
                self.search_map == old(self).search_map,
                self.heal_events == old(self).heal_events,
                self.despawn_queue == old(self).despawn_queue,
                self.next_entity == old(self).next_entity,
            decreases self.units.len() - i,
        {
            let entity = self.units[i].entity;
            give_heal(&mut self.units[i].health, &self.heal_events, entity);
            i += 1;
        }
        self.heal_events.clear();
    }

    /// Looks at the health of every unit: a living unit with no health left
    /// dies, loses all that only a living unit has, and plays its death once.
    pub fn health_system(&mut self)
        ensures
            old(self).deaths_settled(*final(self)),
            old(self).wf() ==> final(self).wf(),
    {
        let mut i: usize = 0;
        while i < self.units.len()
            invariant
                i <= self.units.len(),
                self.units@.len() == old(self).units@.len(),
                old(self).same_but_units(*self),
                forall|k: int|
                    0 <= k < i ==> old(self).units@[k].health_post(#[trigger] self.units@[k]),
                forall|k: int| i <= k < self.units@.len() ==> self.units@[k] == old(self).units@[k],
                forall|k: int|
                    0 <= k < self.units@.len() ==> (#[trigger] self.units@[k]).entity == old(
                        self,
                    ).units@[k].entity && self.units@[k].damage == old(self).units@[k].damage,
            decreases self.units.len() - i,
        {
            self.units[i].health_system();
            i += 1;
        }
    }
}

/// Once deaths are settled, every unit with no health left is dead. One that
/// lived has lost all that only a living unit has and is asked, once, to play
/// its death; one that was dead already is left as it was, and so is not
/// asked again.
pub proof fn lemma_spent_units_die(before: Battle, after: Battle)
    requires
        before.deaths_settled(after),
    ensures
        forall|i: int|
            0 <= i < before.units@.len() && before.units@[i].health.is_spent() ==> {
                &&& (#[trigger] after.units@[i]).living is None
                &&& before.units@[i].is_living() ==> {
                    &&& after.units@[i].animator@.new_anim == Some("die"@)
                    &&& after.units@[i].animator@.mode == crate::cocos2d_anim::AnimationMode::Once
                }
                &&& !before.units@[i].is_living() ==> after.units@[i] == before.units@[i]
            },
        forall|i: int|
            0 <= i < before.units@.len() && !before.units@[i].health.is_spent() ==> (
            #[trigger] after.units@[i]) == before.units@[i],
{
    assert forall|i: int|
        0 <= i < before.units@.len() && before.units@[i].health.is_spent() implies {
        &&& (#[trigger] after.units@[i]).living is None
        &&& before.units@[i].is_living() ==> {
            &&& after.units@[i].animator@.new_anim == Some("die"@)
            &&& after.units@[i].animator@.mode == crate::cocos2d_anim::AnimationMode::Once
        }
        &&& !before.units@[i].is_living() ==> after.units@[i] == before.units@[i]
    } by {
        assert(before.units@[i].health_post(after.units@[i]));
    }
    assert forall|i: int|
        0 <= i < before.units@.len() && !before.units@[i].health.is_spent() implies (
    #[trigger] after.units@[i]) == before.units@[i] by {
        assert(before.units@[i].health_post(after.units@[i]));
    }
}

} // verus!
