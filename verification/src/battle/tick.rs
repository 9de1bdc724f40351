//! One tick of the battle, from the rebuilding of the index to the leaving of
//! the dead.

use vstd::prelude::*;
use crate::battle::{Battle, ProjectileEntity};
use crate::cocos2d_anim::{anim_cfg_change, AnimEvent, AnimatorView};
use crate::unit::entity::UnitEntity;
use crate::unit::search::Team;

verus! {

/// Those of the first `n` of `units` whose handle is not in `queue`.
pub open spec fn units_kept(units: Seq<UnitEntity>, n: int, queue: Seq<u64>) -> Seq<UnitEntity>
    decreases n,
{
    if n <= 0 {
        Seq::empty()
    } else {
        let before = units_kept(units, n - 1, queue);
        if queue.contains(units[n - 1].entity) {
            before
        } else {
            before.push(units[n - 1])
        }
    }
}

/// Those of the first `n` of `projectiles` whose handle is not in `queue`.
pub open spec fn projectiles_kept(
    projectiles: Seq<ProjectileEntity>,
    n: int,
    queue: Seq<u64>,
) -> Seq<ProjectileEntity>
    decreases n,
{
    if n <= 0 {
        Seq::empty()
    } else {
        let before = projectiles_kept(projectiles, n - 1, queue);
        if queue.contains(projectiles[n - 1].entity) {
            before
        } else {
            before.push(projectiles[n - 1])
        }
    }
}

/// Every unit that is kept was among the units.
pub proof fn lemma_units_kept_were_there(units: Seq<UnitEntity>, n: int, queue: Seq<u64>)
    requires
        0 <= n <= units.len(),
    ensures
        forall|i: int|
            0 <= i < units_kept(units, n, queue).len() ==> exists|j: int|
                0 <= j < n && units[j] == #[trigger] units_kept(units, n, queue)[i],
    decreases n,
{
    if n > 0 {
        lemma_units_kept_were_there(units, n - 1, queue);
        let before = units_kept(units, n - 1, queue);
        let kept = units_kept(units, n, queue);
        assert forall|i: int| 0 <= i < kept.len() implies exists|j: int|
            0 <= j < n && units[j] == #[trigger] kept[i] by {
            if i < before.len() {
                assert(kept[i] == before[i]);
                let j = choose|j: int| 0 <= j < n - 1 && units[j] == before[i];
                assert(0 <= j < n && units[j] == kept[i]);
            } else {
                assert(units[n - 1] == kept[i]);
            }
        }
    }
}

/// Where no two units share a handle, no two of those kept do.
pub proof fn lemma_units_kept_distinct(units: Seq<UnitEntity>, n: int, queue: Seq<u64>)
    requires
        0 <= n <= units.len(),
        crate::battle::unit_handles_distinct(units),
    ensures
        crate::battle::unit_handles_distinct(units_kept(units, n, queue)),
    decreases n,
{
    if n > 0 {
        lemma_units_kept_distinct(units, n - 1, queue);
        lemma_units_kept_were_there(units, n - 1, queue);
        let before = units_kept(units, n - 1, queue);
        let kept = units_kept(units, n, queue);
        assert forall|a: int, b: int| 0 <= a < b < kept.len() implies (#[trigger] kept[a]).entity != (
        #[trigger] kept[b]).entity by {
            assert(kept[a] == before[a]);
            if b < before.len() {
                assert(kept[b] == before[b]);
            } else {
                let j = choose|j: int| 0 <= j < n - 1 && units[j] == before[a];
                assert(units[j].entity != units[n - 1].entity);
            }
        }
    }
}

/// Where no two projectiles share a handle, no two of those kept do.
pub proof fn lemma_projectiles_kept_distinct(
    projectiles: Seq<ProjectileEntity>,
    n: int,
    queue: Seq<u64>,
)
    requires
        0 <= n <= projectiles.len(),
        crate::battle::projectile_handles_distinct(projectiles),
    ensures
        crate::battle::projectile_handles_distinct(projectiles_kept(projectiles, n, queue)),
    decreases n,
{
    if n > 0 {
        lemma_projectiles_kept_distinct(projectiles, n - 1, queue);
        lemma_projectiles_kept_were_there(projectiles, n - 1, queue);
        let before = projectiles_kept(projectiles, n - 1, queue);
        let kept = projectiles_kept(projectiles, n, queue);
        assert forall|a: int, b: int| 0 <= a < b < kept.len() implies (#[trigger] kept[a]).entity != (
        #[trigger] kept[b]).entity by {
            assert(kept[a] == before[a]);
            if b < before.len() {
                assert(kept[b] == before[b]);
            } else {
                let j = choose|j: int| 0 <= j < n - 1 && projectiles[j] == before[a];
                assert(projectiles[j].entity != projectiles[n - 1].entity);
            }
        }
    }
}

/// Every projectile that is kept was among the projectiles.
pub proof fn lemma_projectiles_kept_were_there(
    projectiles: Seq<ProjectileEntity>,
    n: int,
    queue: Seq<u64>,
)
    requires
        0 <= n <= projectiles.len(),
    ensures
        forall|i: int|
            0 <= i < projectiles_kept(projectiles, n, queue).len() ==> exists|j: int|
                0 <= j < n && projectiles[j] == #[trigger] projectiles_kept(projectiles, n, queue)[i],
    decreases n,
{
    if n > 0 {
        lemma_projectiles_kept_were_there(projectiles, n - 1, queue);
        let before = projectiles_kept(projectiles, n - 1, queue);
        let kept = projectiles_kept(projectiles, n, queue);
        assert forall|i: int| 0 <= i < kept.len() implies exists|j: int|
            0 <= j < n && projectiles[j] == #[trigger] kept[i] by {
            if i < before.len() {
                assert(kept[i] == before[i]);
                let j = choose|j: int| 0 <= j < n - 1 && projectiles[j] == before[i];
                assert(0 <= j < n && projectiles[j] == kept[i]);
            } else {
                assert(projectiles[n - 1] == kept[i]);
            }
        }
    }
}

fn is_queued(queue: &Vec<u64>, entity: u64) -> (queued: bool)
    ensures
        queued == queue@.contains(entity),
{
    let mut i: usize = 0;
    while i < queue.len()
        invariant
            i <= queue.len(),
            forall|k: int| 0 <= k < i ==> queue@[k] != entity,
        decreases queue.len() - i,
    {
        if queue[i] == entity {
            return true;
        }
        i += 1;
    }
    false
}

/// `after` is the unit `u` once the animation player has taken up what the
/// unit's orders ask for.
pub open spec fn taken_up(u: UnitEntity, after: UnitEntity) -> bool {
    &&& after.animator@ == (AnimatorView { new_anim: None, ..u.animator@ })
    &&& match u.animator@.new_anim {
        Some(name) => after.player.anim_name@ == name && after.player.frame_idx
            == crate::cocos2d_anim::NOT_STARTED,
        None => after.player == u.player,
    }
    &&& after.entity == u.entity
    &&& after.team == u.team
    &&& after.position == u.position
    &&& after.unit == u.unit
    &&& after.health == u.health
    &&& after.damage == u.damage
    &&& after.living == u.living
}

impl Battle {
    /// `after` is the field once the queued units and projectiles have left it.
    pub open spec fn despawned(self, after: Battle) -> bool {
        &&& after.units@ == units_kept(self.units@, self.units@.len() as int, self.despawn_queue@)
        &&& after.projectiles@ == projectiles_kept(
            self.projectiles@,
            self.projectiles@.len() as int,
            self.despawn_queue@,
        )
        &&& after.despawn_queue@.len() == 0
        &&& after.search_map == self.search_map
        &&& after.damage_events == self.damage_events
        &&& after.heal_events == self.heal_events
        &&& after.next_entity == self.next_entity
    }

    /// Takes off the field every unit and projectile whose handle is queued
    /// to leave, and clears the queue.
    pub fn despawn(&mut self)
        ensures
            old(self).wf() ==> final(self).wf(),
            old(self).despawned(*final(self)),
    {
        let ghost queue = self.despawn_queue@;
        let mut kept: usize = 0;
        let ghost mut seen: int = 0;
        while kept < self.units.len()
            invariant
                kept <= self.units.len(),
                0 <= seen <= old(self).units@.len(),
                self.units@.len() - kept == old(self).units@.len() - seen,
                self.units@.take(kept as int) == units_kept(old(self).units@, seen, queue),
                self.units@.skip(kept as int) == old(self).units@.skip(seen),
                self.despawn_queue@ == queue,
                self.projectiles == old(self).projectiles,
                self.search_map == old(self).search_map,
                self.damage_events == old(self).damage_events,
                self.heal_events == old(self).heal_events,
                self.next_entity == old(self).next_entity,
            decreases self.units.len() - kept,
        {
            proof {
                assert(self.units@[kept as int] == self.units@.skip(kept as int)[0]);
                assert(old(self).units@[seen] == old(self).units@.skip(seen)[0]);
            }
            let ghost units_now = self.units@;
            if is_queued(&self.despawn_queue, self.units[kept].entity) {
                self.units.remove(kept);
                proof {
                    assert(self.units@.take(kept as int) == units_now.take(kept as int));
                    assert(self.units@.skip(kept as int) == units_now.skip(kept as int).skip(1));
                    assert(old(self).units@.skip(seen).skip(1) == old(self).units@.skip(seen + 1));
                    seen = seen + 1;
                }
            } else {
                proof {
                    assert(units_now.take(kept + 1) == units_now.take(kept as int).push(
                        units_now[kept as int],
                    ));
                    assert(units_now.skip(kept + 1) == units_now.skip(kept as int).skip(1));
                    assert(old(self).units@.skip(seen).skip(1) == old(self).units@.skip(seen + 1));
                    seen = seen + 1;
                }
                kept += 1;
            }
        }
        proof {
            assert(self.units@.take(kept as int) == self.units@);
        }
        let ghost units_done = self.units@;
        let mut held: usize = 0;
        let ghost mut met: int = 0;
        while held < self.projectiles.len()
            invariant
                held <= self.projectiles.len(),
                0 <= met <= old(self).projectiles@.len(),
                self.projectiles@.len() - held == old(self).projectiles@.len() - met,
                self.projectiles@.take(held as int) == projectiles_kept(
                    old(self).projectiles@,
                    met,
                    queue,
                ),
                self.projectiles@.skip(held as int) == old(self).projectiles@.skip(met),
                self.despawn_queue@ == queue,
                self.units@ == units_done,
                self.search_map == old(self).search_map,
                self.damage_events == old(self).damage_events,
                self.heal_events == old(self).heal_events,
                self.next_entity == old(self).next_entity,
            decreases self.projectiles.len() - held,
        {
            proof {
                assert(self.projectiles@[held as int] == self.projectiles@.skip(held as int)[0]);
                assert(old(self).projectiles@[met] == old(self).projectiles@.skip(met)[0]);
            }
            let ghost projectiles_now = self.projectiles@;
            if is_queued(&self.despawn_queue, self.projectiles[held].entity) {
                self.projectiles.remove(held);
                proof {
                    assert(self.projectiles@.take(held as int) == projectiles_now.take(held as int));
                    assert(self.projectiles@.skip(held as int) == projectiles_now.skip(
                        held as int,
                    ).skip(1));
                    assert(old(self).projectiles@.skip(met).skip(1) == old(self).projectiles@.skip(
                        met + 1,
                    ));
                    met = met + 1;
                }
            } else {
                proof {
                    assert(projectiles_now.take(held + 1) == projectiles_now.take(held as int).push(
                        projectiles_now[held as int],
                    ));
                    assert(projectiles_now.skip(held + 1) == projectiles_now.skip(held as int).skip(
                        1,
                    ));
                    assert(old(self).projectiles@.skip(met).skip(1) == old(self).projectiles@.skip(
                        met + 1,
                    ));
                    met = met + 1;
                }
                held += 1;
            }
        }
        proof {
            assert(self.projectiles@.take(held as int) == self.projectiles@);
            lemma_units_kept_were_there(old(self).units@, old(self).units@.len() as int, queue);
            lemma_projectiles_kept_were_there(
                old(self).projectiles@,
                old(self).projectiles@.len() as int,
                queue,
            );
            if old(self).wf() {
                lemma_units_kept_distinct(old(self).units@, old(self).units@.len() as int, queue);
                lemma_projectiles_kept_distinct(
                    old(self).projectiles@,
                    old(self).projectiles@.len() as int,
                    queue,
                );
            }
        }
        self.despawn_queue.clear();
    }

    /// `after` is the field once the animation player has taken up the
    /// orders of every unit.
    pub open spec fn animations_taken_up(self, after: Battle) -> bool {
        &&& self.same_but_units(after)
        &&& after.units@.len() == self.units@.len()
        &&& forall|i: int|
            0 <= i < self.units@.len() ==> taken_up(self.units@[i], #[trigger] after.units@[i])
    }

    /// The animation player takes up what the orders of each unit ask for:
    /// it plays that animation from now on, and the orders ask for nothing
    /// more.
    pub fn anim_cfg_change(&mut self)
        ensures
            old(self).wf() ==> final(self).wf(),
            old(self).animations_taken_up(*final(self)),
    {
        let mut i: usize = 0;
        while i < self.units.len()
            invariant
                i <= self.units.len(),
                self.units@.len() == old(self).units@.len(),
                old(self).same_but_units(*self),
                forall|k: int|
                    0 <= k < i ==> taken_up(old(self).units@[k], #[trigger] self.units@[k]),
                forall|k: int| i <= k < self.units@.len() ==> self.units@[k] == old(self).units@[k],
                forall|k: int|
                    0 <= k < self.units@.len() ==> (#[trigger] self.units@[k]).entity == old(
                        self,
                    ).units@[k].entity && self.units@[k].damage == old(self).units@[k].damage,
            decreases self.units.len() - i,
        {
            let unit = &mut self.units[i];
            anim_cfg_change(&mut unit.animator, &mut unit.player);
            i += 1;
        }
    }

    /// `after` is the field after the units of `team` have searched, walked
    /// and attacked at `now`.
    pub open spec fn team_moved(self, team: Team, now: u64, after: Battle) -> bool {
        exists|a: Battle, b: Battle|
            #![trigger self.enemies_found(team, now, a), a.free_units_stepped(team, b)]
            {
                &&& self.enemies_found(team, now, a)
                &&& a.free_units_stepped(team, b)
                &&& b.engaged_units_stepped(team, now, after)
            }
    }

    /// `after` is the field after the report `evt` has been heard at `now`,
    /// whatever the random part of a performer's damage came to.
    pub open spec fn event_heard(self, evt: AnimEvent, now: u64, after: Battle) -> bool {
        exists|roll: i64|
            self.roll_allowed(evt.entity, roll) && #[trigger] self.anim_event_post(
                evt,
                now,
                roll,
                after,
            )
    }

    /// `after` is the field after `events` have been heard at `now`, one
    /// after the other.
    pub open spec fn events_heard(self, events: Seq<AnimEvent>, now: u64, after: Battle) -> bool
        decreases events.len(),
    {
        if events.len() == 0 {
            after == self
        } else {
            exists|mid: Battle|
                self.events_heard(events.drop_last(), now, mid) && #[trigger] mid.event_heard(
                    events.last(),
                    now,
                    after,
                )
        }
    }

    /// `after` is the field after the projectiles that had missed have lain
    /// `delta` more milliseconds and those in flight have flown at `now`.
    pub open spec fn projectiles_moved(self, now: u64, delta: u64, after: Battle) -> bool {
        exists|a: Battle|
            #![trigger self.projectiles_lain(delta, a)]
            self.projectiles_lain(delta, a) && a.projectiles_flown(now, after)
    }

    /// `after` is the field after damage is dealt, healing is given and
    /// deaths are settled.
    pub open spec fn settled(self, after: Battle) -> bool {
        exists|a: Battle, b: Battle|
            #![trigger self.damage_dealt(a), a.healing_given(b)]
            {
                &&& self.damage_dealt(a)
                &&& a.healing_given(b)
                &&& b.deaths_settled(after)
            }
    }

    /// `after` is the field after one tick at the time `now`, `delta`
    /// milliseconds after the last, in which the animation player reported
    /// `events`: the index is rebuilt; the left team, then the right team,
    /// searches, walks and attacks; the reports are heard; the projectiles
    /// fly; damage, healing and death are settled; and what was queued to
    /// leave the field leaves it.
    pub open spec fn ticked(self, now: u64, delta: u64, events: Seq<AnimEvent>, after: Battle) -> bool {
        exists|b1: Battle, b2: Battle, b3: Battle, b4: Battle, b5: Battle, b6: Battle|
            #![trigger self.index_rebuilt(b1), b1.team_moved(Team::Left, now, b2), b2.team_moved(Team::Right, now, b3), b3.events_heard(events, now, b4), b4.projectiles_moved(now, delta, b5), b5.settled(b6)]
            {
                &&& self.index_rebuilt(b1)
                &&& b1.team_moved(Team::Left, now, b2)
                &&& b2.team_moved(Team::Right, now, b3)
                &&& b3.events_heard(events, now, b4)
                &&& b4.projectiles_moved(now, delta, b5)
                &&& b5.settled(b6)
                &&& b6.despawned(after)
            }
    }

    /// Hearing one more report after `events` is hearing `events` and then
    /// that report.
    pub proof fn lemma_heard_step(self, events: Seq<AnimEvent>, now: u64, mid: Battle, after: Battle)
        requires
            events.len() > 0,
            self.events_heard(events.drop_last(), now, mid),
            mid.event_heard(events.last(), now, after),
        ensures
            self.events_heard(events, now, after),
    {
    }

    /// The units of `team` search, walk and attack, at the time `now`.
    pub fn move_team(&mut self, team: Team, now: u64)
        ensures
            old(self).wf() ==> final(self).wf(),
            old(self).team_moved(team, now, *final(self)),
    {
        self.find_enemy(team, now);
        let ghost a = *self;
        self.unit_no_attack_sys(team);
        let ghost b = *self;
        self.unit_attack_enemy(team, now);
        assert(old(self).enemies_found(team, now, a) && a.free_units_stepped(team, b)
            && b.engaged_units_stepped(team, now, *self));
    }

    /// Hears the reports of the animation player, one after the other, at
    /// the time `now`.
    pub fn anim_events(&mut self, events: &Vec<AnimEvent>, now: u64)
        requires
            old(self).wf(),
        ensures
            final(self).wf(),
            old(self).events_heard(events@, now, *final(self)),
    {
        let mut n: usize = 0;
        while n < events.len()
            invariant
                n <= events.len(),
                self.wf(),
                old(self).events_heard(events@.take(n as int), now, *self),
            decreases events.len() - n,
        {
            let ghost mid = *self;
            self.anim_event(&events[n], now);
            proof {
                let heard = events@.take(n + 1);
                assert(heard.drop_last() == events@.take(n as int));
                assert(heard.last() == events@[n as int]);
                assert(old(self).events_heard(heard.drop_last(), now, mid));
                assert(mid.event_heard(heard.last(), now, *self));
                assert(heard.len() > 0);
                old(self).lemma_heard_step(heard, now, mid, *self);
            }
            n += 1;
        }
        assert(events@.take(events@.len() as int) == events@);
    }

    /// One tick of the battle at the time `now`, `delta` milliseconds after
    /// the last, in which the animation player reported `events`.
    pub fn tick(&mut self, now: u64, delta: u64, events: &Vec<AnimEvent>)
        requires
            old(self).wf(),
        ensures
            final(self).wf(),
            old(self).ticked(now, delta, events@, *final(self)),
    {
        self.unit_search_prepare_sys();
        let ghost b1 = *self;
        self.move_team(Team::Left, now);
        let ghost b2 = *self;
        self.move_team(Team::Right, now);
        let ghost b3 = *self;
        self.anim_events(events, now);
        let ghost b4 = *self;
        self.projectile_miss(delta);
        let ghost b4a = *self;
        self.projectile_fly_to_fixed_target(now);
        let ghost b5 = *self;
        assert(b4.projectiles_lain(delta, b4a) && b4a.projectiles_flown(now, b5));
        self.damage_system();
        let ghost b5a = *self;
        self.heal_system();
        let ghost b5b = *self;
        self.health_system();
        let ghost b6 = *self;
        assert(b5.damage_dealt(b5a) && b5a.healing_given(b5b) && b5b.deaths_settled(b6));
        self.despawn();
        assert(old(self).index_rebuilt(b1) && b1.team_moved(Team::Left, now, b2) && b2.team_moved(
            Team::Right,
            now,
            b3,
        ) && b3.events_heard(events@, now, b4) && b4.projectiles_moved(
            now,
            delta,
            b5,
        ) && b5.settled(b6) && b6.despawned(*self));
    }

    /// After a tick no unit with no health left lives: whoever ran out of
    /// health before or during the tick has died in it.
    pub proof fn lemma_no_spent_unit_lives_after_tick(
        self,
        now: u64,
        delta: u64,
        events: Seq<AnimEvent>,
        after: Battle,
    )
        requires
            self.ticked(now, delta, events, after),
        ensures
            forall|i: int|
                0 <= i < after.units@.len() && (#[trigger] after.units@[i]).health.is_spent()
                    ==> !after.units@[i].is_living(),
    {
        let (b5, b6) = choose|b5: Battle, b6: Battle| #[trigger]
            b5.settled(b6) && b6.despawned(after);
        let (a, b) = choose|a: Battle, b: Battle|
            #![trigger b5.damage_dealt(a), a.healing_given(b)]
            b5.damage_dealt(a) && a.healing_given(b) && b.deaths_settled(b6);
        lemma_units_kept_were_there(b6.units@, b6.units@.len() as int, b6.despawn_queue@);
        assert forall|i: int|
            0 <= i < after.units@.len() && (#[trigger] after.units@[i]).health.is_spent() implies !after.units@[i].is_living() by {
            let j = choose|j: int| 0 <= j < b6.units@.len() && b6.units@[j] == after.units@[i];
            assert(b.units@[j].health_post(b6.units@[j]));
        }
    }
}

} // verus!
