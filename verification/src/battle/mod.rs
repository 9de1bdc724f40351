//! The battle field: every unit and projectile on it, and the systems that
//! run over them each tick.

pub mod events;
pub mod health;
pub mod laws;
pub mod movement;
pub mod projectiles;
pub mod tick;

use vstd::prelude::*;
use vstd::string::StringExecFns;
use crate::cocos2d_anim::{
    AnimationFaceDir, AnimationMode, AnimatorView, Cocos2dAnimator, Cocos2dAnimatorPlayer,
    NOT_STARTED,
};
use crate::geometry::Point;
use crate::resource::action::projectile::{
    Projectile, ProjectileFly, ProjectileMiss, ProjectileToFixedTarget,
};
use crate::resource::action::{DamageEvent, HealEvent};
use crate::unit::entity::{intent_changed, unit_intent_change, LivingUnitBundle, UnitEntity};
use crate::unit::info::UnitBundle;
use crate::unit::search::{
    battle_line, lemma_battle_line_handles_distinct, line_handles_distinct,
    roster_handles_distinct, unit_search_prepare_sys, Team, UnitSearchMap,
};
use crate::unit::{UnitIntent, WhoAttackMe};
use crate::AnimChannel;

verus! {

/// One projectile on the battle field.
#[derive(Debug)]
pub struct ProjectileEntity {
    pub entity: u64,
    pub projectile: Projectile,
    pub flight: ProjectileToFixedTarget,
    pub position: Point,
    /// `Some` while the projectile flies.
    pub fly: Option<ProjectileFly>,
    /// `Some` once the projectile has missed.
    pub miss: Option<ProjectileMiss>,
    pub animator: Cocos2dAnimator,
}

/// The battle field.
#[derive(Debug)]
pub struct Battle {
    pub units: Vec<UnitEntity>,
    pub projectiles: Vec<ProjectileEntity>,
    pub search_map: UnitSearchMap,
    /// The damage ordered and not yet dealt.
    pub damage_events: Vec<DamageEvent>,
    /// The healing ordered and not yet given.
    pub heal_events: Vec<HealEvent>,
    /// The handles of the units and projectiles that leave the field at the
    /// end of the tick.
    pub despawn_queue: Vec<u64>,
    /// The handle that the next unit or projectile gets.
    pub next_entity: u64,
}

/// Why a unit could not be put on the field.
#[derive(Clone, Copy, Debug, PartialEq, Eq, Structural)]
pub enum SpawnError {
    /// The random part of the unit's damage has nothing to be drawn from.
    EmptyDamageFluctuation,
    /// Every handle has been given out.
    OutOfEntities,
}

/// What the systems read of a unit other than the one they work on.
#[derive(Clone, Copy, Debug, PartialEq, Eq, Structural)]
pub struct UnitSummary {
    pub entity: u64,
    pub team: Team,
    pub living: bool,
    pub body_radius: i32,
    pub aim: Point,
    pub position: Point,
}

/// What the systems read of the unit `u`.
pub open spec fn summary_of(u: UnitEntity) -> UnitSummary {
    UnitSummary {
        entity: u.entity,
        team: u.team,
        living: u.is_living(),
        body_radius: u.unit.body_radius,
        aim: crate::resource::action::projectile::aim_point(u.unit, u.position),
        position: u.position,
    }
}

/// What the systems read of each of `units`.
pub open spec fn summaries(units: Seq<UnitEntity>) -> Seq<UnitSummary> {
    units.map_values(|u: UnitEntity| summary_of(u))
}

/// The first of `directory`, from the place `from` on, with the handle `entity`.
pub open spec fn lookup(directory: Seq<UnitSummary>, from: int, entity: u64) -> Option<UnitSummary>
    decreases directory.len() - from,
{
    if from < 0 || from >= directory.len() {
        None
    } else if directory[from].entity == entity {
        Some(directory[from])
    } else {
        lookup(directory, from + 1, entity)
    }
}

/// The place of the first of `units`, from the place `from` on, with the
/// handle `entity`.
pub open spec fn index_of(units: Seq<UnitEntity>, from: int, entity: u64) -> Option<usize>
    decreases units.len() - from,
{
    if from < 0 || from >= units.len() {
        None
    } else if units[from].entity == entity {
        Some(from as usize)
    } else {
        index_of(units, from + 1, entity)
    }
}

/// What `index_of` finds is a place among the units, of a unit with the
/// handle looked for.
pub proof fn lemma_index_of(units: Seq<UnitEntity>, from: int, entity: u64)
    requires
        0 <= from,
        units.len() <= usize::MAX,
    ensures
        index_of(units, from, entity) matches Some(i) ==> from <= i < units.len() && units[i as int].entity
            == entity,
    decreases units.len() - from,
{
    if from < units.len() && units[from].entity != entity {
        lemma_index_of(units, from + 1, entity);
    }
}

/// What a unit of `team` can take for its enemy under the handle `entity`: a
/// unit of the other team. `None` where there is no such unit.
pub open spec fn enemy_of(directory: Seq<UnitSummary>, team: Team, entity: u64) -> Option<UnitSummary> {
    match lookup(directory, 0, entity) {
        Some(s) => if s.team != team {
            Some(s)
        } else {
            None
        },
        None => None,
    }
}

/// The enemy that a unit of `team` is engaged with under the handle `entity`:
/// a living unit of the other team, with its body radius and its position.
/// `None` where the enemy is gone.
pub open spec fn target_of(directory: Seq<UnitSummary>, team: Team, entity: u64) -> Option<(i32, Point)> {
    match enemy_of(directory, team, entity) {
        Some(s) => if s.living {
            Some((s.body_radius, s.position))
        } else {
            None
        },
        None => None,
    }
}

/// Whether the unit `u` is engaged with `entity`.
pub open spec fn is_engaged_with(u: UnitEntity, entity: u64) -> bool {
    u.living matches Some(l) && l.enemy matches Some(e) && e.target == entity
}

/// How many of the first `n` of `units` are engaged with `entity`.
pub open spec fn count_attackers(units: Seq<UnitEntity>, n: int, entity: u64) -> nat
    decreases n,
{
    if n <= 0 {
        0
    } else {
        count_attackers(units, n - 1, entity) + if is_engaged_with(units[n - 1], entity) {
            1nat
        } else {
            0nat
        }
    }
}

/// How many units attack `entity`, as far as 32 bits count.
pub open spec fn attackers_of(units: Seq<UnitEntity>, entity: u64) -> WhoAttackMe {
    let count = count_attackers(units, units.len() as int, entity);
    WhoAttackMe(
        if count > u32::MAX {
            u32::MAX
        } else {
            count as u32
        },
    )
}

/// The living units of `team` among the first `n` of `units`, each with its
/// position and the number of units that attack it.
pub open spec fn roster(units: Seq<UnitEntity>, n: int, team: Team) -> Seq<(u64, Point, WhoAttackMe)>
    decreases n,
{
    if n <= 0 {
        Seq::empty()
    } else {
        let before = roster(units, n - 1, team);
        let u = units[n - 1];
        if u.team == team && u.is_living() {
            before.push((u.entity, u.position, attackers_of(units, u.entity)))
        } else {
            before
        }
    }
}

/// No two of `units` have the same handle.
pub open spec fn unit_handles_distinct(units: Seq<UnitEntity>) -> bool {
    forall|i: int, j: int|
        0 <= i < j < units.len() ==> (#[trigger] units[i]).entity != (#[trigger] units[j]).entity
}

/// No two of `projectiles` have the same handle.
pub open spec fn projectile_handles_distinct(projectiles: Seq<ProjectileEntity>) -> bool {
    forall|i: int, j: int|
        0 <= i < j < projectiles.len() ==> (#[trigger] projectiles[i]).entity != (
        #[trigger] projectiles[j]).entity
}

/// One of the first `n` of `units` is a living unit of `team` with the
/// handle `handle`.
pub open spec fn is_on_roster(units: Seq<UnitEntity>, n: int, team: Team, handle: u64) -> bool {
    exists|i: int|
        0 <= i < n && (#[trigger] units[i]).entity == handle && units[i].team == team
            && units[i].is_living()
}

/// Where no two units share a handle, a team's roster holds no handle twice,
/// and every handle it holds is that of a living unit of the team.
pub proof fn lemma_roster_handles_distinct(units: Seq<UnitEntity>, n: int, team: Team)
    requires
        unit_handles_distinct(units),
        0 <= n <= units.len(),
    ensures
        roster_handles_distinct(roster(units, n, team)),
        forall|k: int|
            0 <= k < roster(units, n, team).len() ==> is_on_roster(
                units,
                n,
                team,
                (#[trigger] roster(units, n, team)[k]).0,
            ),
    decreases n,
{
    if n > 0 {
        lemma_roster_handles_distinct(units, n - 1, team);
        let before = roster(units, n - 1, team);
        let now = roster(units, n, team);
        assert forall|k: int| 0 <= k < now.len() implies is_on_roster(
            units,
            n,
            team,
            (#[trigger] now[k]).0,
        ) by {
            if k < before.len() {
                assert(now[k] == before[k]);
                assert(is_on_roster(units, n - 1, team, before[k].0));
                let i = choose|i: int|
                    0 <= i < n - 1 && (#[trigger] units[i]).entity == before[k].0 && units[i].team
                        == team && units[i].is_living();
                assert(0 <= i < n && units[i].entity == now[k].0);
            } else {
                assert(units[n - 1].entity == now[k].0);
            }
        }
        assert forall|a: int, b: int| 0 <= a < b < now.len() implies (#[trigger] now[a]).0 != (
        #[trigger] now[b]).0 by {
            assert(now[a] == before[a]);
            if b < before.len() {
                assert(now[b] == before[b]);
            } else {
                assert(is_on_roster(units, n - 1, team, before[a].0));
                let i = choose|i: int|
                    0 <= i < n - 1 && (#[trigger] units[i]).entity == before[a].0 && units[i].team
                        == team && units[i].is_living();
                assert(units[i].entity != units[n - 1].entity);
            }
        }
    }
}

/// The side that a unit of `team` faces when it comes on the field: the
/// other team's side.
pub open spec fn facing_enemy(team: Team) -> AnimationFaceDir {
    match team {
        Team::Left => AnimationFaceDir::Right,
        Team::Right => AnimationFaceDir::Left,
    }
}

/// `u` is the unit made of `bundle` that comes on the field under the handle
/// `entity`, for `team`, at `position`: it plays its birth once, faces the
/// other team, and has taken up the intent that the bundle came with.
pub open spec fn is_spawned(
    bundle: UnitBundle,
    entity: u64,
    team: Team,
    position: Point,
    u: UnitEntity,
) -> bool {
    &&& u.entity == entity
    &&& u.team == team
    &&& u.position == position
    &&& u.unit == bundle.unit
    &&& u.health == bundle.health
    &&& u.damage == bundle.damage
    &&& u.animator@ == (AnimatorView {
        duration: None,
        new_anim: Some("born"@),
        mode: AnimationMode::Once,
        event_channel: Some(0i32),
        face_dir: facing_enemy(team),
    })
    &&& u.player.anim_name@ == Seq::<char>::empty()
    &&& u.player.frame_idx == NOT_STARTED
    &&& u.living == Some(
        intent_changed(
            LivingUnitBundle {
                intent: bundle.intent,
                enemy: None,
                state: bundle.state,
                search_enemy: None,
                perform_action: None,
            },
        ),
    )
}

impl Battle {
    /// Whether the field is in order: every unit's random damage can be
    /// drawn, every projectile flies at a unit, the handles in use are below
    /// the next one, no two units and no two projectiles share a handle, and
    /// neither line of the index holds a handle twice.
    pub open spec fn wf(self) -> bool {
        &&& unit_handles_distinct(self.units@)
        &&& projectile_handles_distinct(self.projectiles@)
        &&& line_handles_distinct(self.search_map.lefts@)
        &&& line_handles_distinct(self.search_map.rights@)
        &&& forall|i: int|
            0 <= i < self.units@.len() ==> {
                &&& (#[trigger] self.units@[i]).damage.damage_fluctuation_range.is_nonempty()
                &&& self.units@[i].entity < self.next_entity
            }
        &&& forall|i: int|
            0 <= i < self.projectiles@.len() ==> {
                &&& (#[trigger] self.projectiles@[i]).projectile.target is Unit
                &&& self.projectiles@[i].entity < self.next_entity
            }
    }

    /// `after` is the field `self` but for its units.
    pub open spec fn same_but_units(self, after: Battle) -> bool {
        &&& after.projectiles == self.projectiles
        &&& after.search_map == self.search_map
        &&& after.damage_events == self.damage_events
        &&& after.heal_events == self.heal_events
        &&& after.despawn_queue == self.despawn_queue
        &&& after.next_entity == self.next_entity
    }

    /// An empty field.
    pub fn new() -> (battle: Battle)
        ensures
            battle.wf(),
            battle.units@.len() == 0,
            battle.projectiles@.len() == 0,
            battle.search_map.lefts@.len() == 0,
            battle.search_map.rights@.len() == 0,
            battle.damage_events@.len() == 0,
            battle.heal_events@.len() == 0,
            battle.despawn_queue@.len() == 0,
            battle.next_entity == 0,
    {
        Battle {
            units: Vec::new(),
            projectiles: Vec::new(),
            search_map: UnitSearchMap::new(),
            damage_events: Vec::new(),
            heal_events: Vec::new(),
            despawn_queue: Vec::new(),
            next_entity: 0,
        }
    }

    /// Puts the unit made of `bundle` on the field, for `team`, at
    /// `position`, and returns its handle.
    pub fn spawn_unit(&mut self, bundle: UnitBundle, team: Team, position: Point) -> (spawned: Result<
        u64,
        SpawnError,
    >)
        requires
            old(self).wf(),
        ensures
            final(self).wf(),
            old(self).same_but_units(
                Battle { next_entity: old(self).next_entity, ..*final(self) },
            ),
            match spawned {
                Ok(entity) => {
                    &&& bundle.damage.damage_fluctuation_range.is_nonempty()
                    &&& entity == old(self).next_entity
                    &&& final(self).next_entity == entity + 1
                    &&& final(self).units@.len() == old(self).units@.len() + 1
                    &&& final(self).units@.drop_last() == old(self).units@
                    &&& is_spawned(bundle, entity, team, position, final(self).units@.last())
                },
                Err(e) => {
                    &&& *final(self) == *old(self)
                    &&& e == if !bundle.damage.damage_fluctuation_range.is_nonempty() {
                        SpawnError::EmptyDamageFluctuation
                    } else {
                        SpawnError::OutOfEntities
                    }
                    &&& !bundle.damage.damage_fluctuation_range.is_nonempty()
                        || old(self).next_entity == u64::MAX
                },
            },
    {
        if !bundle.damage.damage_fluctuation_range.has_room() {
            return Err(SpawnError::EmptyDamageFluctuation);
        }
        if self.next_entity == u64::MAX {
            return Err(SpawnError::OutOfEntities);
        }
        let entity = self.next_entity;
        let mut living = LivingUnitBundle {
            intent: bundle.intent,
            enemy: None,
            state: bundle.state,
            search_enemy: None,
            perform_action: None,
        };
        unit_intent_change(&mut living);
        let unit = UnitEntity {
            entity,
            team,
            position,
            unit: bundle.unit,
            health: bundle.health,
            damage: bundle.damage,
            animator: Cocos2dAnimator {
                duration: None,
                new_anim: Some(String::from_str("born")),
                mode: AnimationMode::Once,
                event_channel: Some(AnimChannel::Unit.to_i32()),
                face_dir: match team {
                    Team::Left => AnimationFaceDir::Right,
                    Team::Right => AnimationFaceDir::Left,
                },
            },
            player: Cocos2dAnimatorPlayer { frame_idx: NOT_STARTED, anim_name: String::new() },
            living: Some(living),
        };
        self.units.push(unit);
        self.next_entity = entity + 1;
        assert(self.units@.drop_last() == old(self).units@);
        Ok(entity)
    }

    /// What the systems read of each unit, as it is now.
    pub fn directory(&self) -> (directory: Vec<UnitSummary>)
        ensures
            directory@ == summaries(self.units@),
    {
        let mut directory: Vec<UnitSummary> = Vec::new();
        let mut i: usize = 0;
        while i < self.units.len()
            invariant
                i <= self.units.len(),
                directory@ == summaries(self.units@).take(i as int),
            decreases self.units.len() - i,
        {
            let u = &self.units[i];
            directory.push(
                UnitSummary {
                    entity: u.entity,
                    team: u.team,
                    living: u.living.is_some(),
                    body_radius: u.unit.body_radius,
                    aim: crate::resource::action::projectile::unit_aim_point(&u.unit, u.position),
                    position: u.position,
                },
            );
            assert(directory@ == summaries(self.units@).take(i + 1));
            i += 1;
        }
        assert(summaries(self.units@).take(self.units.len() as int) == summaries(self.units@));
        directory
    }

    /// The place of the unit with the handle `entity`.
    pub fn find_unit(&self, entity: u64) -> (place: Option<usize>)
        ensures
            place == index_of(self.units@, 0, entity),
            place matches Some(i) ==> i < self.units@.len() && self.units@[i as int].entity
                == entity,
    {
        let mut i: usize = 0;
        while i < self.units.len()
            invariant
                i <= self.units.len(),
                index_of(self.units@, 0, entity) == index_of(self.units@, i as int, entity),
            decreases self.units.len() - i,
        {
            if self.units[i].entity == entity {
                return Some(i);
            }
            i += 1;
        }
        None
    }

    /// The health of the unit `entity`, in thousandths of a point.
    pub fn health(&self, entity: u64) -> (health: Option<i64>)
        ensures
            health == match index_of(self.units@, 0, entity) {
                Some(i) => Some(self.units@[i as int].health.health),
                None => None,
            },
    {
        match self.find_unit(entity) {
            Some(i) => Some(self.units[i].health.health),
            None => None,
        }
    }

    /// The team of the unit `entity`.
    pub fn team(&self, entity: u64) -> (team: Option<Team>)
        ensures
            team == match index_of(self.units@, 0, entity) {
                Some(i) => Some(self.units@[i as int].team),
                None => None,
            },
    {
        match self.find_unit(entity) {
            Some(i) => Some(self.units[i].team),
            None => None,
        }
    }

    /// Tells the living unit `entity` what to do, and has it take that up at
    /// once. Returns whether there is such a unit.
    pub fn set_intent(&mut self, entity: u64, intent: UnitIntent) -> (told: bool)
        ensures
            old(self).same_but_units(*final(self)),
            final(self).units@.len() == old(self).units@.len(),
            old(self).wf() ==> final(self).wf(),
            match index_of(old(self).units@, 0, entity) {
                Some(i) => {
                    let before = old(self).units@[i as int];
                    &&& told == before.is_living()
                    &&& final(self).units@ == old(self).units@.update(
                        i as int,
                        final(self).units@[i as int],
                    )
                    &&& final(self).units@[i as int] == if before.is_living() {
                        UnitEntity {
                            living: Some(
                                intent_changed(LivingUnitBundle { intent, ..before.living->0 }),
                            ),
                            ..before
                        }
                    } else {
                        before
                    }
                },
                None => !told && final(self).units@ == old(self).units@,
            },
    {
        match self.find_unit(entity) {
            Some(i) => {
                let unit = &mut self.units[i];
                match unit.living.take() {
                    Some(mut living) => {
                        living.intent = intent;
                        unit_intent_change(&mut living);
                        unit.living = Some(living);
                        proof {
                            assert(self.units@ == old(self).units@.update(i as int, self.units@[i as int]));
                        }
                        true
                    },
                    None => {
                        proof {
                            assert(self.units@ == old(self).units@.update(i as int, self.units@[i as int]));
                        }
                        false
                    },
                }
            },
            None => false,
        }
    }

    /// How many units are engaged with `entity`.
    pub fn who_attack_me(&self, entity: u64) -> (count: WhoAttackMe)
        ensures
            count == attackers_of(self.units@, entity),
    {
        let mut count: u32 = 0;
        let mut i: usize = 0;
        while i < self.units.len()
            invariant
                i <= self.units.len(),
                count as int == if count_attackers(self.units@, i as int, entity) > u32::MAX {
                    u32::MAX as int
                } else {
                    count_attackers(self.units@, i as int, entity) as int
                },
            decreases self.units.len() - i,
        {
            let engaged = match &self.units[i].living {
                Some(l) => match l.enemy {
                    Some(e) => e.target == entity,
                    None => false,
                },
                None => false,
            };
            if engaged && count < u32::MAX {
                count += 1;
            }
            i += 1;
        }
        WhoAttackMe(count)
    }

    /// The living units of `team`, each with its position and the number of
    /// units that attack it.
    pub fn team_roster(&self, team: Team) -> (list: Vec<(u64, Point, WhoAttackMe)>)
        ensures
            list@ == roster(self.units@, self.units@.len() as int, team),
    {
        let mut list: Vec<(u64, Point, WhoAttackMe)> = Vec::new();
        let mut i: usize = 0;
        while i < self.units.len()
            invariant
                i <= self.units.len(),
                list@ == roster(self.units@, i as int, team),
            decreases self.units.len() - i,
        {
            let u = &self.units[i];
            if u.team == team && u.living.is_some() {
                let attackers = self.who_attack_me(u.entity);
                list.push((u.entity, u.position, attackers));
            }
            i += 1;
        }
        list
    }

    /// `after` is the field with the spatial team index rebuilt: each team's
    /// living units in battle-line order, biased by the number of units that
    /// attack each.
    pub open spec fn index_rebuilt(self, after: Battle) -> bool {
        &&& after.search_map.lefts@ == battle_line(
            roster(self.units@, self.units@.len() as int, Team::Left),
            true,
        )
        &&& after.search_map.rights@ == battle_line(
            roster(self.units@, self.units@.len() as int, Team::Right),
            false,
        )
        &&& after.units == self.units
        &&& after.projectiles == self.projectiles
        &&& after.damage_events == self.damage_events
        &&& after.heal_events == self.heal_events
        &&& after.despawn_queue == self.despawn_queue
        &&& after.next_entity == self.next_entity
    }

    /// Rebuilds the spatial team index from the living units as they stand.
    pub fn unit_search_prepare_sys(&mut self)
        ensures
            old(self).index_rebuilt(*final(self)),
            old(self).wf() ==> final(self).wf(),
    {
        let lefts = self.team_roster(Team::Left);
        let rights = self.team_roster(Team::Right);
        proof {
            if self.wf() {
                lemma_roster_handles_distinct(self.units@, self.units@.len() as int, Team::Left);
                lemma_roster_handles_distinct(self.units@, self.units@.len() as int, Team::Right);
                lemma_battle_line_handles_distinct(lefts@, true);
                lemma_battle_line_handles_distinct(rights@, false);
            }
        }
        unit_search_prepare_sys(&mut self.search_map, &lefts, &rights);
    }
}

} // verus!
