//! What the reports of the animation player do to the battle: a performing
//! unit deals its damage or shoots, a finished action frees its unit, a
//! finished death takes the unit off the field, a finished birth sets it
//! going.

use vstd::prelude::*;
use vstd::string::StringExecFns;
use crate::battle::{enemy_of, index_of, summaries, Battle, ProjectileEntity};
use crate::battle::movement::find_enemy_in;
use crate::cocos2d_anim::{
    AnimEvent, AnimationFaceDir, AnimationMode, AnimatorView, Cocos2dAnimator, EventType,
};
use crate::resource::action::projectile::{
    is_shot, shoot, ProjectileAct, ProjectileFly, ProjectileToFixedTarget,
};
use crate::resource::action::{Action, ActionType};
use crate::text::str_eq;
use crate::unit::entity::{LivingUnitBundle, UnitEntity};
use crate::unit::perform::{melee_events, resolve_melee};
use crate::unit::search::Team;
use crate::unit::{Enemy, UnitIntent, UnitState};
use crate::AnimChannel;

verus! {

/// The unit `u` without the mark of an action in progress.
pub open spec fn without_performing(u: UnitEntity) -> UnitEntity {
    match u.living {
        Some(l) => UnitEntity { living: Some(LivingUnitBundle { perform_action: None, ..l }), ..u },
        None => u,
    }
}

/// The action that the unit `u` performs, and the engagement it performs it
/// in; `None` for a unit that performs nothing or has no engagement.
pub open spec fn performing(u: UnitEntity) -> Option<(Action, Enemy)> {
    match u.living {
        Some(l) => match (l.perform_action, l.enemy) {
            (Some(pa), Some(e)) => if pa.idx < u.unit.actions@.len() {
                Some((u.unit.actions@[pa.idx as int].1, e))
            } else {
                None
            },
            _ => None,
        },
        None => None,
    }
}

/// Whether `evt_type` reports the frame that performs an action.
pub open spec fn is_perform(evt_type: EventType) -> bool {
    evt_type matches EventType::Custom(msg) && msg@ == "perform"@
}

/// The unit `u` after its birth is over: told to move or to attack, it moves.
pub open spec fn born(u: UnitEntity) -> UnitEntity {
    match u.living {
        Some(l) => match l.intent {
            UnitIntent::MoveTo(_) | UnitIntent::AttackTo(_) => UnitEntity {
                living: Some(LivingUnitBundle { state: UnitState::Moving, ..l }),
                ..u
            },
            UnitIntent::StandAt(_) => u,
        },
        None => u,
    }
}

/// `p` is the projectile that comes on the field under the handle `entity`
/// at `position`, in flight, with what it carries and its path.
pub open spec fn is_new_projectile(
    entity: u64,
    position: crate::geometry::Point,
    shot: (crate::resource::action::projectile::Projectile, ProjectileToFixedTarget),
    p: ProjectileEntity,
) -> bool {
    &&& p.entity == entity
    &&& p.projectile == shot.0
    &&& p.flight == shot.1
    &&& p.position == position
    &&& p.fly == Some(ProjectileFly)
    &&& p.miss is None
    &&& p.animator@ == (AnimatorView {
        duration: None,
        new_anim: Some("fly"@),
        mode: AnimationMode::Loop,
        event_channel: Some(1i32),
        face_dir: AnimationFaceDir::Right,
    })
}

impl Battle {
    /// `after` is the field `self` but for its damage orders.
    pub open spec fn same_but_damage_events(self, after: Battle) -> bool {
        &&& after.units == self.units
        &&& after.projectiles == self.projectiles
        &&& after.search_map == self.search_map
        &&& after.heal_events == self.heal_events
        &&& after.despawn_queue == self.despawn_queue
        &&& after.next_entity == self.next_entity
    }

    /// `after` is the field once the action of the unit `entity` is over:
    /// the unit, if it lives, performs nothing any more.
    pub open spec fn action_end_post(self, entity: u64, after: Battle) -> bool {
        &&& self.same_but_units(after)
        &&& after.units@.len() == self.units@.len()
        &&& match index_of(self.units@, 0, entity) {
            Some(i) => after.units@ == self.units@.update(
                i as int,
                without_performing(self.units@[i as int]),
            ),
            None => after.units@ == self.units@,
        }
    }

    /// `after` is the field once the unit `u` has shot with `act` in the
    /// engagement `enemy`, at `now`, with the random part `roll` of its
    /// damage: a new projectile flies at the enemy's aim point, if the enemy
    /// lives, a flight can be had and a handle is left.
    pub open spec fn shoot_post(
        self,
        u: UnitEntity,
        act: ProjectileAct,
        enemy: Enemy,
        now: u64,
        roll: i64,
        after: Battle,
    ) -> bool {
        match enemy_of(summaries(self.units@), u.team, enemy.target) {
            Some(s) => if s.living && self.next_entity < u64::MAX
                && ProjectileToFixedTarget::can_launch(u.position, s.aim, act.fly_speed) {
                &&& after.units == self.units
                &&& after.search_map == self.search_map
                &&& after.damage_events == self.damage_events
                &&& after.heal_events == self.heal_events
                &&& after.despawn_queue == self.despawn_queue
                &&& after.next_entity == self.next_entity + 1
                &&& after.projectiles@.len() == self.projectiles@.len() + 1
                &&& after.projectiles@.drop_last() == self.projectiles@
                &&& is_new_projectile(
                    self.next_entity,
                    u.position,
                    (after.projectiles@.last().projectile, after.projectiles@.last().flight),
                    after.projectiles@.last(),
                )
                &&& is_shot(
                    act,
                    u.entity,
                    u.position,
                    s.entity,
                    s.aim,
                    u.damage.damage,
                    roll,
                    now,
                    (after.projectiles@.last().projectile, after.projectiles@.last().flight),
                )
            } else {
                after == self
            },
            None => after == self,
        }
    }

    /// `after` is the field once the animation of the unit `entity` has
    /// reached the frame that performs its action, at `now`, with the random
    /// part `roll` of the unit's damage: a melee action has ordered its
    /// damage, a shooting action has shot. A unit that performs nothing, or
    /// has no engagement, does nothing.
    pub open spec fn perform_post(self, entity: u64, now: u64, roll: i64, after: Battle) -> bool {
        match index_of(self.units@, 0, entity) {
            Some(i) => {
                let u = self.units@[i as int];
                match performing(u) {
                    Some((action, enemy)) => match action.action_type {
                        ActionType::Melee(act) => {
                            &&& self.same_but_damage_events(after)
                            &&& after.damage_events@ == self.damage_events@ + melee_events(
                                act,
                                u.entity,
                                u.position,
                                u.damage.damage,
                                enemy.target,
                                self.enemy_line(u.team),
                                u.team == Team::Left,
                                roll,
                            )
                        },
                        ActionType::Projectile(act) => self.shoot_post(
                            u,
                            act,
                            enemy,
                            now,
                            roll,
                            after,
                        ),
                    },
                    None => after == self,
                }
            },
            None => after == self,
        }
    }

    /// Whether `roll` can be the random part of the damage of the unit
    /// `entity`: whether it lies in the unit's fluctuation range.
    pub open spec fn roll_allowed(self, entity: u64, roll: i64) -> bool {
        match index_of(self.units@, 0, entity) {
            Some(i) => {
                let range = self.units@[i as int].damage.damage_fluctuation_range;
                range.start <= roll < range.end
            },
            None => true,
        }
    }

    /// `after` is the field once an animation of the unit `entity` has ended
    /// on the unit channel: a unit whose death has ended is to leave the
    /// field; a unit whose birth has ended moves, if it was told to move or
    /// to attack.
    pub open spec fn unit_end_post(self, entity: u64, after: Battle) -> bool {
        match index_of(self.units@, 0, entity) {
            Some(i) => {
                let u = self.units@[i as int];
                if u.player.anim_name@ == "die"@ {
                    &&& after.units == self.units
                    &&& after.projectiles == self.projectiles
                    &&& after.search_map == self.search_map
                    &&& after.damage_events == self.damage_events
                    &&& after.heal_events == self.heal_events
                    &&& after.next_entity == self.next_entity
                    &&& after.despawn_queue@ == self.despawn_queue@.push(entity)
                } else if u.player.anim_name@ == "born"@ {
                    &&& self.same_but_units(after)
                    &&& after.units@ == self.units@.update(i as int, born(u))
                } else {
                    after == self
                }
            },
            None => after == self,
        }
    }

    /// `after` is the field once the report `evt` has been heard at `now`,
    /// with `roll` for the random part of a performer's damage.
    pub open spec fn anim_event_post(self, evt: AnimEvent, now: u64, roll: i64, after: Battle) -> bool {
        if evt.channel == 2 {
            match evt.evt_type {
                EventType::End => self.action_end_post(evt.entity, after),
                EventType::Custom(msg) => if msg@ == "perform"@ {
                    self.perform_post(evt.entity, now, roll, after)
                } else {
                    after == self
                },
            }
        } else if evt.channel == 0 {
            match evt.evt_type {
                EventType::End => self.unit_end_post(evt.entity, after),
                EventType::Custom(_) => after == self,
            }
        } else {
            after == self
        }
    }

    /// Hears one report of an action's animation, at the time `now`: at the
    /// frame that performs the action, the unit deals its damage or shoots;
    /// at the end, the unit is free for its next action.
    pub fn action_anim_event(&mut self, entity: u64, evt_type: &EventType, now: u64)
        requires
            old(self).wf(),
        ensures
            final(self).wf(),
            match *evt_type {
                EventType::End => old(self).action_end_post(entity, *final(self)),
                EventType::Custom(msg) => if msg@ == "perform"@ {
                    exists|roll: i64|
                        old(self).roll_allowed(entity, roll) && #[trigger] old(self).perform_post(
                            entity,
                            now,
                            roll,
                            *final(self),
                        )
                } else {
                    *final(self) == *old(self)
                },
            },
    {
        let place = self.find_unit(entity);
        match evt_type {
            EventType::End => {
                if let Some(i) = place {
                    if let Some(mut living) = self.units[i].living.take() {
                        living.perform_action = None;
                        self.units[i].living = Some(living);
                    }
                    assert(self.units@ == old(self).units@.update(
                        i as int,
                        without_performing(old(self).units@[i as int]),
                    ));
                }
            },
            EventType::Custom(msg) => {
                if !str_eq(msg.as_str(), "perform") {
                    return ;
                }
                let i = match place {
                    Some(i) => i,
                    None => {
                        assert(old(self).roll_allowed(entity, 0) && old(self).perform_post(
                            entity,
                            now,
                            0,
                            *self,
                        ));
                        return ;
                    },
                };
                let roll = self.units[i].damage.damage_fluctuation_range.draw();
                let u = &self.units[i];
                let engaged = match &u.living {
                    Some(l) => match (&l.perform_action, l.enemy) {
                        (Some(pa), Some(e)) => if pa.idx < u.unit.actions.len() {
                            Some((pa.idx, e))
                        } else {
                            None
                        },
                        _ => None,
                    },
                    None => None,
                };
                let (idx, enemy) = match engaged {
                    Some(found) => found,
                    None => {
                        assert(old(self).roll_allowed(entity, roll) && old(self).perform_post(
                            entity,
                            now,
                            roll,
                            *self,
                        ));
                        return ;
                    },
                };
                let action = &u.unit.actions[idx].1;
                match &action.action_type {
                    ActionType::Melee(act) => {
                        let (line, ascending) = match u.team {
                            Team::Left => (&self.search_map.rights, true),
                            Team::Right => (&self.search_map.lefts, false),
                        };
                        let mut events = resolve_melee(
                            act,
                            u.entity,
                            u.position,
                            &u.damage,
                            enemy.target,
                            line,
                            ascending,
                            roll,
                        );
                        self.damage_events.append(&mut events);
                        assert(old(self).roll_allowed(entity, roll) && old(self).perform_post(
                            entity,
                            now,
                            roll,
                            *self,
                        ));
                    },
                    ActionType::Projectile(act) => {
                        let directory = self.directory();
                        let shot = match find_enemy_in(&directory, u.team, enemy.target) {
                            Some(s) => if s.living && self.next_entity < u64::MAX {
                                shoot(
                                    act,
                                    u.entity,
                                    u.position,
                                    s.entity,
                                    s.aim,
                                    u.damage.damage,
                                    roll,
                                    now,
                                )
                            } else {
                                None
                            },
                            None => None,
                        };
                        if let Some((projectile, flight)) = shot {
                            let position = u.position;
                            let handle = self.next_entity;
                            self.projectiles.push(
                                ProjectileEntity {
                                    entity: handle,
                                    projectile,
                                    flight,
                                    position,
                                    fly: Some(ProjectileFly),
                                    miss: None,
                                    animator: Cocos2dAnimator {
                                        duration: None,
                                        new_anim: Some(String::from_str("fly")),
                                        mode: AnimationMode::Loop,
                                        event_channel: Some(AnimChannel::Projectile.to_i32()),
                                        face_dir: AnimationFaceDir::Right,
                                    },
                                },
                            );
                            self.next_entity = handle + 1;
                            assert(self.projectiles@.drop_last() == old(self).projectiles@);
                        }
                        assert(old(self).roll_allowed(entity, roll) && old(self).perform_post(
                            entity,
                            now,
                            roll,
                            *self,
                        ));
                    },
                }
            },
        }
    }

    /// Hears the end of an animation of the unit `entity` on the unit
    /// channel: a unit whose death has ended is to leave the field; a unit
    /// whose birth has ended moves, if it was told to move or to attack.
    pub fn unit_anim_event(&mut self, entity: u64, evt_type: &EventType)
        ensures
            old(self).wf() ==> final(self).wf(),
            match *evt_type {
                EventType::End => old(self).unit_end_post(entity, *final(self)),
                EventType::Custom(_) => *final(self) == *old(self),
            },
    {
        match evt_type {
            EventType::End => {
                if let Some(i) = self.find_unit(entity) {
                    if str_eq(self.units[i].player.anim_name.as_str(), "die") {
                        self.despawn_queue.push(entity);
                    } else if str_eq(self.units[i].player.anim_name.as_str(), "born") {
                        if let Some(mut living) = self.units[i].living.take() {
                            match living.intent {
                                UnitIntent::MoveTo(_) | UnitIntent::AttackTo(_) => {
                                    living.state = UnitState::Moving;
                                },
                                UnitIntent::StandAt(_) => {},
                            }
                            self.units[i].living = Some(living);
                        }
                        assert(self.units@ == old(self).units@.update(
                            i as int,
                            born(old(self).units@[i as int]),
                        ));
                    }
                }
            },
            EventType::Custom(_) => {},
        }
    }

    /// Hears one report of the animation player, at the time `now`.
    pub fn anim_event(&mut self, evt: &AnimEvent, now: u64)
        requires
            old(self).wf(),
        ensures
            final(self).wf(),
            exists|roll: i64|
                old(self).roll_allowed(evt.entity, roll) && #[trigger] old(self).anim_event_post(
                    *evt,
                    now,
                    roll,
                    *final(self),
                ),
    {
        match AnimChannel::from_i32(evt.channel) {
            Some(AnimChannel::UnitAction) => {
                self.action_anim_event(evt.entity, &evt.evt_type, now);
                proof {
                    if is_perform(evt.evt_type) {
                        let roll = choose|roll: i64|
                            old(self).roll_allowed(evt.entity, roll) && #[trigger] old(
                                self,
                            ).perform_post(evt.entity, now, roll, *self);
                        assert(old(self).roll_allowed(evt.entity, roll) && old(self).anim_event_post(
                            *evt,
                            now,
                            roll,
                            *self,
                        ));
                    } else {
                        old(self).lemma_some_roll_allowed(evt.entity);
                        let roll = choose|roll: i64| old(self).roll_allowed(evt.entity, roll);
                        assert(old(self).anim_event_post(*evt, now, roll, *self));
                    }
                }
            },
            Some(AnimChannel::Unit) => {
                self.unit_anim_event(evt.entity, &evt.evt_type);
                proof {
                    old(self).lemma_some_roll_allowed(evt.entity);
                    let roll = choose|roll: i64| old(self).roll_allowed(evt.entity, roll);
                    assert(old(self).anim_event_post(*evt, now, roll, *self));
                }
            },
            _ => {
                proof {
                    old(self).lemma_some_roll_allowed(evt.entity);
                    let roll = choose|roll: i64| old(self).roll_allowed(evt.entity, roll);
                    assert(old(self).anim_event_post(*evt, now, roll, *self));
                }
            },
        }
    }

    /// On a field that is in order, every unit's damage has a random part to
    /// draw.
    pub proof fn lemma_some_roll_allowed(self, entity: u64)
        requires
            self.wf(),
        ensures
            exists|roll: i64| self.roll_allowed(entity, roll),
    {
        match index_of(self.units@, 0, entity) {
            Some(i) => {
                assert(self.units@.len() == self.units.len());
                crate::battle::lemma_index_of(self.units@, 0, entity);
                let range = self.units@[i as int].damage.damage_fluctuation_range;
                assert(self.roll_allowed(entity, range.start));
            },
            None => {
                assert(self.roll_allowed(entity, 0));
            },
        }
    }
}

} // verus!
