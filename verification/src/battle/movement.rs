//! The systems that move units: the search for an enemy, the walk of a unit
//! without an engagement, and the approach and attack of an engaged one.

use vstd::prelude::*;
use crate::battle::{enemy_of, lookup, summaries, target_of, Battle, UnitSummary};
use crate::geometry::Point;
use crate::unit::entity::UnitEntity;
use crate::unit::search::{first_in_view, scan_in_view, Team};

verus! {

impl Battle {
    /// The line of the index that holds the enemies of `team`.
    pub open spec fn enemy_line(self, team: Team) -> Seq<(u64, Point)> {
        match team {
            Team::Left => self.search_map.rights@,
            Team::Right => self.search_map.lefts@,
        }
    }

    /// The enemy that the unit `u` of `team` finds in the index: the first in
    /// view, if it is a unit of the other team.
    pub open spec fn found_enemy(self, team: Team, u: UnitEntity) -> Option<UnitSummary> {
        match first_in_view(
            self.enemy_line(team),
            0,
            team == Team::Left,
            u.position.x as int,
            u.unit.view_range as int,
        ) {
            Some(entity) => enemy_of(summaries(self.units@), team, entity),
            None => None,
        }
    }

    /// `after` is what the search at `now` makes of the unit at the place `i`:
    /// a searching unit of `team` that finds an enemy is engaged with it, any
    /// other unit stays as it is.
    pub open spec fn find_enemy_post(self, team: Team, now: u64, i: int, after: UnitEntity) -> bool {
        let u = self.units@[i];
        if u.team == team && u.is_searching() {
            match self.found_enemy(team, u) {
                Some(enemy) => u.engage_post(enemy.entity, enemy.body_radius, now, after),
                None => after == u,
            }
        } else {
            after == u
        }
    }

    /// `after` is the field after the search of `team` at `now`.
    pub open spec fn enemies_found(self, team: Team, now: u64, after: Battle) -> bool {
        &&& self.same_but_units(after)
        &&& after.units@.len() == self.units@.len()
        &&& forall|i: int|
            0 <= i < self.units@.len() ==> self.find_enemy_post(
                team,
                now,
                i,
                #[trigger] after.units@[i],
            )
    }

    /// Every searching unit of `team` looks in the index for the first enemy
    /// within its view range and engages with it.
    pub fn find_enemy(&mut self, team: Team, now: u64)
        ensures
            old(self).enemies_found(team, now, *final(self)),
            old(self).wf() ==> final(self).wf(),
    {
        let directory = self.directory();
        let mut i: usize = 0;
        while i < self.units.len()
            invariant
                i <= self.units.len(),
                self.units@.len() == old(self).units@.len(),
                directory@ == summaries(old(self).units@),
                old(self).same_but_units(*self),
                forall|k: int|
                    0 <= k < i ==> old(self).find_enemy_post(team, now, k, #[trigger] self.units@[k]),
                forall|k: int| i <= k < self.units@.len() ==> self.units@[k] == old(self).units@[k],
                forall|k: int|
                    0 <= k < self.units@.len() ==> (#[trigger] self.units@[k]).entity == old(
                        self,
                    ).units@[k].entity && self.units@[k].damage == old(self).units@[k].damage,
            decreases self.units.len() - i,
        {
            let searching = self.units[i].team == team && match &self.units[i].living {
                Some(l) => l.enemy.is_none() && l.search_enemy.is_some(),
                None => false,
            };
            if searching {
                let line = match team {
                    Team::Left => &self.search_map.rights,
                    Team::Right => &self.search_map.lefts,
                };
                let ascending = match team {
                    Team::Left => true,
                    Team::Right => false,
                };
                let seen = scan_in_view(
                    line,
                    ascending,
                    &self.units[i].position,
                    self.units[i].unit.view_range,
                );
                if let Some(entity) = seen {
                    if let Some(enemy) = find_enemy_in(&directory, team, entity) {
                        self.units[i].engage(enemy.entity, enemy.body_radius, now);
                    }
                }
            }
            i += 1;
        }
    }

    /// `after` is what one tick makes of the unit at the place `i`: a unit of
    /// `team` without an engagement takes its free step, any other unit
    /// stays as it is.
    pub open spec fn no_attack_sys_post(self, team: Team, i: int, after: UnitEntity) -> bool {
        let u = self.units@[i];
        if u.team == team {
            u.no_attack_post(after)
        } else {
            after == u
        }
    }

    /// `after` is the field after the tick of the units of `team` that have
    /// no engagement.
    pub open spec fn free_units_stepped(self, team: Team, after: Battle) -> bool {
        &&& self.same_but_units(after)
        &&& after.units@.len() == self.units@.len()
        &&& forall|i: int|
            0 <= i < self.units@.len() ==> self.no_attack_sys_post(
                team,
                i,
                #[trigger] after.units@[i],
            )
    }

    /// One tick of every unit of `team` that has no engagement.
    pub fn unit_no_attack_sys(&mut self, team: Team)
        ensures
            old(self).free_units_stepped(team, *final(self)),
            old(self).wf() ==> final(self).wf(),
    {
        let mut i: usize = 0;
        while i < self.units.len()
            invariant
                i <= self.units.len(),
                self.units@.len() == old(self).units@.len(),
                old(self).same_but_units(*self),
                forall|k: int|
                    0 <= k < i ==> old(self).no_attack_sys_post(team, k, #[trigger] self.units@[k]),
                forall|k: int| i <= k < self.units@.len() ==> self.units@[k] == old(self).units@[k],
                forall|k: int|
                    0 <= k < self.units@.len() ==> (#[trigger] self.units@[k]).entity == old(
                        self,
                    ).units@[k].entity && self.units@[k].damage == old(self).units@[k].damage,
            decreases self.units.len() - i,
        {
            if self.units[i].team == team {
                self.units[i].unit_no_attack_sys();
            }
            i += 1;
        }
    }

    /// `after` is what one tick at `now` makes of the unit at the place `i`:
    /// an engaged unit of `team` that performs no action takes its engaged
    /// step, toward its enemy as the field `self` holds it; any other unit
    /// stays as it is.
    pub open spec fn attack_enemy_sys_post(self, team: Team, now: u64, i: int, after: UnitEntity) -> bool {
        let u = self.units@[i];
        if u.team == team && u.is_engaged_and_ready() {
            u.attack_enemy_post(
                now,
                target_of(summaries(self.units@), team, u.living->0.enemy->0.target),
                after,
            )
        } else {
            after == u
        }
    }

    /// `after` is the field after the tick at `now` of the engaged units of
    /// `team`.
    pub open spec fn engaged_units_stepped(self, team: Team, now: u64, after: Battle) -> bool {
        &&& self.same_but_units(after)
        &&& after.units@.len() == self.units@.len()
        &&& forall|i: int|
            0 <= i < self.units@.len() ==> self.attack_enemy_sys_post(
                team,
                now,
                i,
                #[trigger] after.units@[i],
            )
    }

    /// One tick, at the time `now`, of every engaged unit of `team` that
    /// performs no action.
    pub fn unit_attack_enemy(&mut self, team: Team, now: u64)
        ensures
            old(self).engaged_units_stepped(team, now, *final(self)),
            old(self).wf() ==> final(self).wf(),
    {
        let directory = self.directory();
        let mut i: usize = 0;
        while i < self.units.len()
            invariant
                i <= self.units.len(),
                self.units@.len() == old(self).units@.len(),
                directory@ == summaries(old(self).units@),
                old(self).same_but_units(*self),
                forall|k: int|
                    0 <= k < i ==> old(self).attack_enemy_sys_post(
                        team,
                        now,
                        k,
                        #[trigger] self.units@[k],
                    ),
                forall|k: int| i <= k < self.units@.len() ==> self.units@[k] == old(self).units@[k],
                forall|k: int|
                    0 <= k < self.units@.len() ==> (#[trigger] self.units@[k]).entity == old(
                        self,
                    ).units@[k].entity && self.units@[k].damage == old(self).units@[k].damage,
            decreases self.units.len() - i,
        {
            if self.units[i].team == team {
                let engaged_with = match &self.units[i].living {
                    Some(l) => match l.enemy {
                        Some(e) => if l.perform_action.is_none() {
                            Some(e.target)
                        } else {
                            None
                        },
                        None => None,
                    },
                    None => None,
                };
                if let Some(target) = engaged_with {
                    let seen = match find_enemy_in(&directory, team, target) {
                        Some(s) => if s.living {
                            Some((s.body_radius, s.position))
                        } else {
                            None
                        },
                        None => None,
                    };
                    self.units[i].unit_attack_enemy(now, seen);
                }
            }
            i += 1;
        }
    }
}

/// The first of `directory` with the handle `entity`.
pub fn find_in(directory: &Vec<UnitSummary>, entity: u64) -> (found: Option<UnitSummary>)
    ensures
        found == lookup(directory@, 0, entity),
{
    let mut i: usize = 0;
    while i < directory.len()
        invariant
            i <= directory.len(),
            lookup(directory@, 0, entity) == lookup(directory@, i as int, entity),
        decreases directory.len() - i,
    {
        if directory[i].entity == entity {
            return Some(directory[i]);
        }
        i += 1;
    }
    None
}

/// What a unit of `team` can take for its enemy under the handle `entity`.
pub fn find_enemy_in(directory: &Vec<UnitSummary>, team: Team, entity: u64) -> (found: Option<
    UnitSummary,
>)
    ensures
        found == enemy_of(directory@, team, entity),
{
    match find_in(directory, entity) {
        Some(s) => {
            let other = match (s.team, team) {
                (Team::Left, Team::Left) => false,
                (Team::Right, Team::Right) => false,
                _ => true,
            };
            if other {
                Some(s)
            } else {
                None
            }
        },
        None => None,
    }
}

} // verus!
