//! What holds of the battle whatever happens in it.

use vstd::prelude::*;
use crate::battle::events::{born, without_performing};
use crate::battle::tick::lemma_units_kept_were_there;
use crate::battle::{lemma_index_of, Battle};
use crate::cocos2d_anim::AnimEvent;
use crate::unit::entity::UnitEntity;
use crate::unit::search::Team;
use crate::unit::select::lemma_selected_action_is_usable;
use crate::unit::UnitState;

verus! {

/// A unit that attacks has an enemy.
pub open spec fn attacker_is_engaged(u: UnitEntity) -> bool {
    u.living matches Some(l) ==> (l.state == UnitState::Attacking ==> l.enemy is Some)
}

impl Battle {
    /// Every unit that attacks has an enemy.
    pub open spec fn attackers_engaged(self) -> bool {
        forall|i: int| 0 <= i < self.units@.len() ==> attacker_is_engaged(#[trigger] self.units@[i])
    }

    /// On a field in order the enemy's line holds no handle twice, so that
    /// one perform orders damage for no unit twice.
    pub proof fn lemma_enemy_line_holds_no_handle_twice(self, team: Team)
        requires
            self.wf(),
        ensures
            crate::unit::search::line_handles_distinct(self.enemy_line(team)),
    {
    }

    /// The search leaves every attacker with its enemy.
    pub proof fn lemma_search_keeps_attackers_engaged(self, team: Team, now: u64, after: Battle)
        requires
            self.attackers_engaged(),
            self.enemies_found(team, now, after),
        ensures
            after.attackers_engaged(),
    {
        assert forall|i: int| 0 <= i < after.units@.len() implies attacker_is_engaged(
            #[trigger] after.units@[i],
        ) by {
            assert(self.find_enemy_post(team, now, i, after.units@[i]));
            assert(attacker_is_engaged(self.units@[i]));
        }
    }

    /// The walk of the free units leaves every attacker with its enemy: a
    /// unit without an enemy does not come to attack.
    pub proof fn lemma_walk_keeps_attackers_engaged(self, team: Team, after: Battle)
        requires
            self.attackers_engaged(),
            self.free_units_stepped(team, after),
        ensures
            after.attackers_engaged(),
    {
        assert forall|i: int| 0 <= i < after.units@.len() implies attacker_is_engaged(
            #[trigger] after.units@[i],
        ) by {
            assert(self.no_attack_sys_post(team, i, after.units@[i]));
            assert(attacker_is_engaged(self.units@[i]));
        }
    }

    /// The step of the engaged units leaves every attacker with its enemy: a
    /// unit whose enemy is gone attacks no more.
    pub proof fn lemma_attack_keeps_attackers_engaged(self, team: Team, now: u64, after: Battle)
        requires
            self.attackers_engaged(),
            self.engaged_units_stepped(team, now, after),
        ensures
            after.attackers_engaged(),
    {
        assert forall|i: int| 0 <= i < after.units@.len() implies attacker_is_engaged(
            #[trigger] after.units@[i],
        ) by {
            assert(self.attack_enemy_sys_post(team, now, i, after.units@[i]));
            assert(attacker_is_engaged(self.units@[i]));
        }
    }

    /// A team's part of the tick leaves every attacker with its enemy.
    pub proof fn lemma_team_keeps_attackers_engaged(self, team: Team, now: u64, after: Battle)
        requires
            self.attackers_engaged(),
            self.team_moved(team, now, after),
        ensures
            after.attackers_engaged(),
    {
        let (a, b) = choose|a: Battle, b: Battle|
            #![trigger self.enemies_found(team, now, a), a.free_units_stepped(team, b)]
            self.enemies_found(team, now, a) && a.free_units_stepped(team, b)
                && b.engaged_units_stepped(team, now, after);
        self.lemma_search_keeps_attackers_engaged(team, now, a);
        a.lemma_walk_keeps_attackers_engaged(team, b);
        b.lemma_attack_keeps_attackers_engaged(team, now, after);
    }

    /// A report of the animation player leaves every attacker with its enemy.
    pub proof fn lemma_report_keeps_attackers_engaged(self, evt: AnimEvent, now: u64, after: Battle)
        requires
            self.attackers_engaged(),
            self.event_heard(evt, now, after),
        ensures
            after.attackers_engaged(),
    {
        let roll = choose|roll: i64|
            self.roll_allowed(evt.entity, roll) && #[trigger] self.anim_event_post(
                evt,
                now,
                roll,
                after,
            );
        assert(self.units@.len() == self.units.len());
        lemma_index_of(self.units@, 0, evt.entity);
        assert(after.units@.len() == self.units@.len());
        assert forall|i: int| 0 <= i < after.units@.len() implies attacker_is_engaged(
            #[trigger] after.units@[i],
        ) by {
            assert(attacker_is_engaged(self.units@[i]));
            assert(after.units@[i] == self.units@[i] || after.units@[i] == without_performing(
                self.units@[i],
            ) || after.units@[i] == born(self.units@[i]));
        }
    }

    /// The reports of the animation player leave every attacker with its enemy.
    pub proof fn lemma_reports_keep_attackers_engaged(
        self,
        events: Seq<AnimEvent>,
        now: u64,
        after: Battle,
    )
        requires
            self.attackers_engaged(),
            self.events_heard(events, now, after),
        ensures
            after.attackers_engaged(),
        decreases events.len(),
    {
        if events.len() > 0 {
            let mid = choose|mid: Battle|
                self.events_heard(events.drop_last(), now, mid) && #[trigger] mid.event_heard(
                    events.last(),
                    now,
                    after,
                );
            self.lemma_reports_keep_attackers_engaged(events.drop_last(), now, mid);
            mid.lemma_report_keeps_attackers_engaged(events.last(), now, after);
        }
    }

    /// Damage, healing and death leave every attacker with its enemy.
    pub proof fn lemma_settling_keeps_attackers_engaged(self, after: Battle)
        requires
            self.attackers_engaged(),
            self.settled(after),
        ensures
            after.attackers_engaged(),
    {
        let (a, b) = choose|a: Battle, b: Battle|
            #![trigger self.damage_dealt(a), a.healing_given(b)]
            self.damage_dealt(a) && a.healing_given(b) && b.deaths_settled(after);
        assert forall|i: int| 0 <= i < after.units@.len() implies attacker_is_engaged(
            #[trigger] after.units@[i],
        ) by {
            assert(attacker_is_engaged(self.units@[i]));
            assert(a.units@[i].living == self.units@[i].living);
            assert(b.units@[i].living == a.units@[i].living);
            assert(b.units@[i].health_post(after.units@[i]));
        }
    }

    /// A whole tick leaves every attacker with its enemy: on a field where
    /// every unit that attacks has an enemy, it is so again after the tick.
    pub proof fn lemma_tick_keeps_attackers_engaged(
        self,
        now: u64,
        delta: u64,
        events: Seq<AnimEvent>,
        after: Battle,
    )
        requires
            self.attackers_engaged(),
            self.ticked(now, delta, events, after),
        ensures
            after.attackers_engaged(),
    {
        let (b1, b2, b3, b4, b5, b6) = choose|
            b1: Battle,
            b2: Battle,
            b3: Battle,
            b4: Battle,
            b5: Battle,
            b6: Battle,
        |
            #![trigger self.index_rebuilt(b1), b1.team_moved(Team::Left, now, b2), b2.team_moved(Team::Right, now, b3), b3.events_heard(events, now, b4), b4.projectiles_moved(now, delta, b5), b5.settled(b6)]
            {
                &&& self.index_rebuilt(b1)
                &&& b1.team_moved(Team::Left, now, b2)
                &&& b2.team_moved(Team::Right, now, b3)
                &&& b3.events_heard(events, now, b4)
                &&& b4.projectiles_moved(now, delta, b5)
                &&& b5.settled(b6)
                &&& b6.despawned(after)
            };
        assert(b1.attackers_engaged()) by {
            assert(b1.units@ == self.units@);
        }
        b1.lemma_team_keeps_attackers_engaged(Team::Left, now, b2);
        b2.lemma_team_keeps_attackers_engaged(Team::Right, now, b3);
        b3.lemma_reports_keep_attackers_engaged(events, now, b4);
        let a = choose|a: Battle|
            #![trigger b4.projectiles_lain(delta, a)]
            b4.projectiles_lain(delta, a) && a.projectiles_flown(now, b5);
        assert(b5.attackers_engaged()) by {
            assert(b5.units@ == b4.units@);
        }
        b5.lemma_settling_keeps_attackers_engaged(b6);
        lemma_units_kept_were_there(b6.units@, b6.units@.len() as int, b6.despawn_queue@);
        assert forall|i: int| 0 <= i < after.units@.len() implies attacker_is_engaged(
            #[trigger] after.units@[i],
        ) by {
            let j = choose|j: int| 0 <= j < b6.units@.len() && b6.units@[j] == after.units@[i];
            assert(attacker_is_engaged(b6.units@[j]));
        }
    }
}

/// Using an action never turns its cooldown's start back: the action that an
/// engaged unit starts at `now` was last used before `now`, and every other
/// action keeps the time of its last use.
pub proof fn lemma_use_moves_the_cooldown_forward(
    before: UnitEntity,
    now: u64,
    target: Option<(i32, crate::geometry::Point)>,
    after: UnitEntity,
)
    requires
        before.attack_enemy_post(now, target, after),
    ensures
        after.unit.actions@.len() == before.unit.actions@.len(),
        forall|k: int|
            0 <= k < before.unit.actions@.len() ==> {
                &&& (#[trigger] after.unit.actions@[k]).1.last_use_time
                    >= before.unit.actions@[k].1.last_use_time
                &&& after.unit.actions@[k].1.last_use_time != before.unit.actions@[k].1.last_use_time
                    ==> after.unit.actions@[k].1.last_use_time == now
            },
{
    if before.is_engaged_and_ready() {
        match target {
            Some((radius, target_pos)) => {
                assert(before.unit.actions@.len() == before.unit.actions.len());
                lemma_selected_action_is_usable(
                    before.unit,
                    radius as int,
                    crate::geometry::dist_sq(before.position, target_pos),
                    now,
                );
            },
            None => {},
        }
    }
}

} // verus!
