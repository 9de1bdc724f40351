//! One unit on the battle field: everything that belongs to it in one
//! record, and the steps it takes each tick.

use vstd::prelude::*;
use crate::cocos2d_anim::{
    asked_unless_playing, faced, AnimationFaceDir, AnimationMode, AnimatorView,
    Cocos2dAnimator, Cocos2dAnimatorPlayer,
};
use crate::geometry::{
    approach_point, dist_sq, lemma_approach_point_in_range, lemma_step_never_overshoots,
    lemma_triangle, move_transform_to, sq_below, step_face, step_toward, Point,
};
use crate::resource::action::Action;
use crate::unit::search::Team;
use crate::unit::select::{
    farthest_attack_range, get_farthest_attack_range, select_action, selected_action,
};
use crate::unit::{
    Enemy, PerformingAction, SearchEnemy, Unit, UnitDamage, UnitHealth, UnitIntent, UnitState,
};
use crate::AnimChannel;

verus! {

/// A walker within a tenth of a world unit of its destination has arrived.
pub const MIN_DISTANCE_DIFF: i32 = 100;

/// An attacker within a hundredth of a world unit of its approach point has
/// closed to its attack range.
pub const APPROACH_DIFF: i32 = 10;

/// What only a living unit has. All of it goes when the unit dies.
#[derive(Debug)]
pub struct LivingUnitBundle {
    pub intent: UnitIntent,
    pub enemy: Option<Enemy>,
    pub state: UnitState,
    pub search_enemy: Option<SearchEnemy>,
    pub perform_action: Option<PerformingAction>,
}

/// One unit on the battle field.
#[derive(Debug)]
pub struct UnitEntity {
    pub entity: u64,
    pub team: Team,
    pub position: Point,
    pub unit: Unit,
    pub health: UnitHealth,
    pub damage: UnitDamage,
    pub animator: Cocos2dAnimator,
    pub player: Cocos2dAnimatorPlayer,
    /// `None` once the unit has died.
    pub living: Option<LivingUnitBundle>,
}

/// What a change of intent makes of a living unit: told to move, it moves and
/// gives up its search and its engagement; told to attack, it moves and
/// searches; told to stand, it goes on as it was.
pub open spec fn intent_changed(l: LivingUnitBundle) -> LivingUnitBundle {
    match l.intent {
        UnitIntent::MoveTo(_) => LivingUnitBundle {
            state: UnitState::Moving,
            search_enemy: None,
            enemy: None,
            ..l
        },
        UnitIntent::AttackTo(_) => LivingUnitBundle {
            state: UnitState::Moving,
            search_enemy: Some(SearchEnemy),
            ..l
        },
        UnitIntent::StandAt(_) => l,
    }
}

/// Takes up the unit's intent after it has changed.
pub fn unit_intent_change(living: &mut LivingUnitBundle)
    ensures
        *final(living) == intent_changed(*old(living)),
{
    match living.intent {
        UnitIntent::MoveTo(_) => {
            living.state = UnitState::Moving;
            living.search_enemy = None;
            living.enemy = None;
        },
        UnitIntent::AttackTo(_) => {
            living.state = UnitState::Moving;
            living.search_enemy = Some(SearchEnemy);
        },
        UnitIntent::StandAt(_) => {},
    }
}

/// What one tick makes of a unit without an engagement.
pub struct FreeStep {
    pub state: UnitState,
    pub position: Point,
    pub animator: AnimatorView,
}

/// One tick of a unit without an engagement: idle, it stands; moving, it runs
/// one step toward where its intent sends it and is idle once it has arrived;
/// attacking, it does nothing.
pub open spec fn free_step(
    move_speed: i32,
    state: UnitState,
    intent: UnitIntent,
    position: Point,
    animator: AnimatorView,
    playing: Seq<char>,
) -> FreeStep {
    match state {
        UnitState::Idle => FreeStep {
            state,
            position,
            animator: asked_unless_playing(animator, playing, "stand"@, AnimationMode::Loop),
        },
        UnitState::Moving => {
            let running = asked_unless_playing(animator, playing, "run"@, AnimationMode::Loop);
            match intent {
                UnitIntent::StandAt(_) => FreeStep { state, position, animator: running },
                UnitIntent::MoveTo(dest) | UnitIntent::AttackTo(dest) => {
                    let next = step_toward(position, dest, move_speed as int);
                    FreeStep {
                        state: if sq_below(dist_sq(next, dest), MIN_DISTANCE_DIFF as int) {
                            UnitState::Idle
                        } else {
                            UnitState::Moving
                        },
                        position: next,
                        animator: faced(running, step_face(position, next)),
                    }
                },
            }
        },
        UnitState::Attacking => FreeStep { state, position, animator },
    }
}

/// What one tick makes of an engaged unit.
pub struct EngagedStep {
    pub state: UnitState,
    /// `None` where the engagement ends.
    pub enemy: Option<Enemy>,
    pub position: Point,
    pub animator: AnimatorView,
    /// The place, among the unit's actions, of the action it starts to perform.
    pub performing: Option<usize>,
}

/// The side that a unit at `position` faces to look at `target`.
pub open spec fn face_toward(position: Point, target: Point) -> AnimationFaceDir {
    if position.x > target.x {
        AnimationFaceDir::Left
    } else {
        AnimationFaceDir::Right
    }
}

/// One tick of an engaged unit that performs no action, at the time `now`.
/// `target` is the enemy's body radius and position, or `None` where the
/// enemy is gone.
///
/// Moving, the unit runs one step toward its approach point and is attacking
/// once it stood there; an enemy that is gone ends the engagement. Attacking,
/// it starts the first usable action and faces the enemy, or, where no action
/// is usable, moves again, closing to the farthest reach of the actions that
/// are off cooldown; an enemy that is gone ends the engagement and the unit
/// moves again. An idle unit gives up its engagement.
pub open spec fn engaged_step(
    unit: Unit,
    state: UnitState,
    enemy: Enemy,
    position: Point,
    animator: AnimatorView,
    playing: Seq<char>,
    target: Option<(i32, Point)>,
    now: u64,
) -> EngagedStep {
    match state {
        UnitState::Moving => {
            let running = asked_unless_playing(animator, playing, "run"@, AnimationMode::Loop);
            match target {
                None => EngagedStep {
                    state,
                    enemy: None,
                    position,
                    animator: running,
                    performing: None,
                },
                Some((_, target_pos)) => {
                    let goal = approach_point(position, target_pos, enemy.attack_range as int);
                    let next = step_toward(position, goal, unit.move_speed as int);
                    EngagedStep {
                        state: if sq_below(dist_sq(position, goal), APPROACH_DIFF as int) {
                            UnitState::Attacking
                        } else {
                            UnitState::Moving
                        },
                        enemy: Some(enemy),
                        position: next,
                        animator: faced(running, step_face(position, next)),
                        performing: None,
                    }
                },
            }
        },
        UnitState::Attacking => match target {
            None => EngagedStep {
                state: UnitState::Moving,
                enemy: None,
                position,
                animator,
                performing: None,
            },
            Some((radius, target_pos)) => {
                match selected_action(unit, radius as int, dist_sq(position, target_pos), now) {
                    Some(idx) => EngagedStep {
                        state,
                        enemy: Some(enemy),
                        position,
                        animator: AnimatorView {
                            new_anim: Some(unit.actions@[idx as int].0@),
                            mode: AnimationMode::Once,
                            event_channel: Some(2i32),
                            face_dir: face_toward(position, target_pos),
                            ..animator
                        },
                        performing: Some(idx),
                    },
                    None => EngagedStep {
                        state: UnitState::Moving,
                        enemy: Some(
                            Enemy {
                                target: enemy.target,
                                attack_range: farthest_attack_range(unit, radius as int, now) as i32,
                            },
                        ),
                        position,
                        animator,
                        performing: None,
                    },
                }
            },
        },
        UnitState::Idle => EngagedStep { state, enemy: None, position, animator, performing: None },
    }
}

/// An engaged unit that moves toward an enemy that is there: it comes to attack just when it stood within a
/// hundredth of a world unit of its approach point, as it does wherever it
/// stood nearer to the enemy than its range; until then it goes on moving.
/// Either way it makes its step toward the approach point and stays engaged
/// as it was.
pub proof fn lemma_closing_in_leads_to_attack(
    unit: Unit,
    enemy: Enemy,
    position: Point,
    animator: AnimatorView,
    playing: Seq<char>,
    target_radius: i32,
    target_pos: Point,
    now: u64,
)
    ensures
        ({
            let step = engaged_step(
                unit,
                UnitState::Moving,
                enemy,
                position,
                animator,
                playing,
                Some((target_radius, target_pos)),
                now,
            );
            let goal = approach_point(position, target_pos, enemy.attack_range as int);
            &&& step.state == UnitState::Attacking <==> sq_below(
                dist_sq(position, goal),
                APPROACH_DIFF as int,
            )
            &&& sq_below(dist_sq(position, target_pos), enemy.attack_range as int) ==> step.state
                == UnitState::Attacking
            &&& step.state != UnitState::Attacking ==> step.state == UnitState::Moving
            &&& step.enemy == Some(enemy)
            &&& step.performing is None
            &&& step.position == step_toward(position, goal, unit.move_speed as int)
        }),
{
    let range = enemy.attack_range as int;
    let goal = approach_point(position, target_pos, range);
    if sq_below(dist_sq(position, target_pos), range) {
        lemma_approach_point_in_range(position, target_pos, range);
        assert(goal == position);
        assert(dist_sq(position, goal) == 0) by (nonlinear_arith)
            requires
                goal == position,
        ;
    }
}

/// An engaged unit that comes to attack, having moved at a speed of zero or
/// more and closed to a range of zero or more, stands no farther from its
/// enemy than that range and a hundredth of a world unit.
pub proof fn lemma_attacker_stands_in_reach(
    unit: Unit,
    enemy: Enemy,
    position: Point,
    animator: AnimatorView,
    playing: Seq<char>,
    target_radius: i32,
    target_pos: Point,
    now: u64,
)
    requires
        enemy.attack_range >= 0,
        unit.move_speed >= 0,
    ensures
        ({
            let step = engaged_step(
                unit,
                UnitState::Moving,
                enemy,
                position,
                animator,
                playing,
                Some((target_radius, target_pos)),
                now,
            );
            let reach = enemy.attack_range + APPROACH_DIFF;
            step.state == UnitState::Attacking ==> dist_sq(step.position, target_pos) <= reach
                * reach
        }),
{
    let range = enemy.attack_range as int;
    let goal = approach_point(position, target_pos, range);
    let next = step_toward(position, goal, unit.move_speed as int);
    lemma_approach_point_in_range(position, target_pos, range);
    lemma_step_never_overshoots(position, goal, unit.move_speed as int);
    if sq_below(dist_sq(position, goal), APPROACH_DIFF as int) {
        lemma_triangle(
            goal.x - next.x,
            goal.y - next.y,
            target_pos.x - goal.x,
            target_pos.y - goal.y,
            APPROACH_DIFF as int,
            range,
        );
        let reach = range + APPROACH_DIFF;
        assert(reach * reach == (APPROACH_DIFF + range) * (APPROACH_DIFF + range))
            by (nonlinear_arith)
            requires
                reach == range + APPROACH_DIFF,
        ;
    }
}

/// The actions `actions` with the one at `idx`, if any, used at `now`.
pub open spec fn with_use_marked(
    actions: Seq<(String, Action)>,
    idx: Option<usize>,
    now: u64,
) -> Seq<(String, Action)> {
    match idx {
        Some(i) => actions.update(
            i as int,
            (actions[i as int].0, Action { last_use_time: now, ..actions[i as int].1 }),
        ),
        None => actions,
    }
}

/// `after` is the unit `before` but for its actions, which are `actions`.
pub open spec fn same_unit_with_actions(before: Unit, after: Unit, actions: Seq<(String, Action)>) -> bool {
    &&& after.actions@ == actions
    &&& after.view_range == before.view_range
    &&& after.move_speed == before.move_speed
    &&& after.body_radius == before.body_radius
    &&& after.body_width == before.body_width
    &&& after.body_height == before.body_height
}

impl UnitEntity {
    /// Whether the unit lives.
    pub open spec fn is_living(self) -> bool {
        self.living is Some
    }

    /// Whether the unit lives, has no engagement, and so walks by its intent alone.
    pub open spec fn is_free(self) -> bool {
        self.living matches Some(l) && l.enemy is None
    }

    /// Whether the unit lives, has an engagement and performs no action.
    pub open spec fn is_engaged_and_ready(self) -> bool {
        self.living matches Some(l) && l.enemy is Some && l.perform_action is None
    }

    /// Whether the unit lives, searches for an enemy and has none.
    pub open spec fn is_searching(self) -> bool {
        self.living matches Some(l) && l.enemy is None && l.search_enemy is Some
    }

    /// `after` is what one tick makes of the free unit `self`; a unit that is
    /// not free stays as it is.
    pub open spec fn no_attack_post(self, after: UnitEntity) -> bool {
        if self.is_free() {
            let l = self.living->0;
            let step = free_step(
                self.unit.move_speed,
                l.state,
                l.intent,
                self.position,
                self.animator@,
                self.player.anim_name@,
            );
            &&& after.living == Some(LivingUnitBundle { state: step.state, ..l })
            &&& after.position == step.position
            &&& after.animator@ == step.animator
            &&& after.entity == self.entity
            &&& after.team == self.team
            &&& after.unit == self.unit
            &&& after.health == self.health
            &&& after.damage == self.damage
            &&& after.player == self.player
        } else {
            after == self
        }
    }

    /// One tick of a unit without an engagement.
    pub fn unit_no_attack_sys(&mut self)
        ensures
            old(self).no_attack_post(*final(self)),
    {
        let mut living = match self.living.take() {
            Some(l) => l,
            None => {
                return ;
            },
        };
        if living.enemy.is_some() {
            self.living = Some(living);
            return ;
        }
        match living.state {
            UnitState::Idle => {
                self.animator.play_unless_playing(&self.player, "stand", AnimationMode::Loop);
            },
            UnitState::Moving => {
                self.animator.play_unless_playing(&self.player, "run", AnimationMode::Loop);
                match living.intent {
                    UnitIntent::MoveTo(dest) | UnitIntent::AttackTo(dest) => {
                        let face = move_transform_to(&mut self.position, &dest, self.unit.move_speed);
                        if self.position.is_within(&dest, MIN_DISTANCE_DIFF) {
                            living.state = UnitState::Idle;
                        }
                        self.animator.turn(face);
                    },
                    UnitIntent::StandAt(_) => {},
                }
            },
            UnitState::Attacking => {},
        }
        self.living = Some(living);
    }

    /// `after` is what one tick at `now` makes of the engaged unit `self`,
    /// whose enemy is at `target`; a unit that is not engaged, or performs an
    /// action, stays as it is.
    pub open spec fn attack_enemy_post(self, now: u64, target: Option<(i32, Point)>, after: UnitEntity) -> bool {
        if self.is_engaged_and_ready() {
            let l = self.living->0;
            let step = engaged_step(
                self.unit,
                l.state,
                l.enemy->0,
                self.position,
                self.animator@,
                self.player.anim_name@,
                target,
                now,
            );
            &&& after.living == Some(
                LivingUnitBundle {
                    state: step.state,
                    enemy: step.enemy,
                    perform_action: match step.performing {
                        Some(idx) => Some(
                            PerformingAction { idx, name: self.unit.actions@[idx as int].0 },
                        ),
                        None => None,
                    },
                    ..l
                },
            )
            &&& after.position == step.position
            &&& after.animator@ == step.animator
            &&& same_unit_with_actions(
                self.unit,
                after.unit,
                with_use_marked(self.unit.actions@, step.performing, now),
            )
            &&& after.entity == self.entity
            &&& after.team == self.team
            &&& after.health == self.health
            &&& after.damage == self.damage
            &&& after.player == self.player
        } else {
            after == self
        }
    }

    /// One tick, at the time `now`, of an engaged unit that performs no action.
    /// `target` is the enemy's body radius and position, or `None` where the
    /// enemy is gone.
    pub fn unit_attack_enemy(&mut self, now: u64, target: Option<(i32, Point)>)
        ensures
            old(self).attack_enemy_post(now, target, *final(self)),
    {
        let mut living = match self.living.take() {
            Some(l) => l,
            None => {
                return ;
            },
        };
        let enemy = match living.enemy {
            Some(e) => e,
            None => {
                self.living = Some(living);
                return ;
            },
        };
        if living.perform_action.is_some() {
            self.living = Some(living);
            return ;
        }
        match living.state {
            UnitState::Moving => {
                self.animator.play_unless_playing(&self.player, "run", AnimationMode::Loop);
                match target {
                    None => {
                        living.enemy = None;
                    },
                    Some((_, target_pos)) => {
                        let my_pos = self.position;
                        let goal = my_pos.approach(&target_pos, enemy.attack_range);
                        let face = move_transform_to(&mut self.position, &goal, self.unit.move_speed);
                        self.animator.turn(face);
                        if my_pos.is_within(&goal, APPROACH_DIFF) {
                            living.state = UnitState::Attacking;
                        }
                    },
                }
            },
            UnitState::Attacking => {
                match target {
                    Some((radius, target_pos)) => {
                        let d_sq = self.position.distance_squared(&target_pos);
                        match select_action(&self.unit, radius, d_sq, now) {
                            Some(idx) => {
                                let name = self.unit.actions[idx].0.clone();
                                self.unit.actions[idx].1.last_use_time = now;
                                self.animator.new_anim = Some(name.clone());
                                self.animator.mode = AnimationMode::Once;
                                self.animator.event_channel = Some(AnimChannel::UnitAction.to_i32());
                                self.animator.face_dir = if self.position.x > target_pos.x {
                                    AnimationFaceDir::Left
                                } else {
                                    AnimationFaceDir::Right
                                };
                                living.perform_action = Some(PerformingAction { idx, name });
                            },
                            None => {
                                living.state = UnitState::Moving;
                                living.enemy = Some(
                                    Enemy {
                                        target: enemy.target,
                                        attack_range: get_farthest_attack_range(
                                            &self.unit,
                                            radius,
                                            now,
                                        ),
                                    },
                                );
                            },
                        }
                    },
                    None => {
                        living.enemy = None;
                        living.state = UnitState::Moving;
                    },
                }
            },
            UnitState::Idle => {
                living.enemy = None;
            },
        }
        self.living = Some(living);
    }

    /// `after` is the unit `self` once it has found the enemy `target`, of body
    /// radius `target_radius`, at the time `now`; a unit that does not search,
    /// or has an enemy, stays as it is.
    pub open spec fn engage_post(self, target: u64, target_radius: i32, now: u64, after: UnitEntity) -> bool {
        if self.is_searching() {
            let l = self.living->0;
            &&& after.living == Some(
                LivingUnitBundle {
                    enemy: Some(
                        Enemy {
                            target,
                            attack_range: farthest_attack_range(
                                self.unit,
                                target_radius as int,
                                now,
                            ) as i32,
                        },
                    ),
                    ..l
                },
            )
            &&& after.position == self.position
            &&& after.animator == self.animator
            &&& after.unit == self.unit
            &&& after.entity == self.entity
            &&& after.team == self.team
            &&& after.health == self.health
            &&& after.damage == self.damage
            &&& after.player == self.player
        } else {
            after == self
        }
    }

    /// Engages a searching unit with the enemy `target`, of body radius
    /// `target_radius`, that it has found at the time `now`: it closes to the
    /// farthest reach of its actions that are off cooldown.
    pub fn engage(&mut self, target: u64, target_radius: i32, now: u64)
        ensures
            old(self).engage_post(target, target_radius, now, *final(self)),
    {
        let mut living = match self.living.take() {
            Some(l) => l,
            None => {
                return ;
            },
        };
        if living.enemy.is_none() && living.search_enemy.is_some() {
            living.enemy = Some(
                Enemy {
                    target,
                    attack_range: get_farthest_attack_range(&self.unit, target_radius, now),
                },
            );
        }
        self.living = Some(living);
    }

    /// `after` is the unit `self` after its health was looked at: a living
    /// unit with no health left has died, lost all that only a living unit
    /// has, and plays its death once; any other unit stays as it is.
    pub open spec fn health_post(self, after: UnitEntity) -> bool {
        if self.is_living() && self.health.is_spent() {
            &&& after.living is None
            &&& after.animator@ == (AnimatorView {
                new_anim: Some("die"@),
                mode: AnimationMode::Once,
                event_channel: Some(0i32),
                ..self.animator@
            })
            &&& after.position == self.position
            &&& after.unit == self.unit
            &&& after.entity == self.entity
            &&& after.team == self.team
            &&& after.health == self.health
            &&& after.damage == self.damage
            &&& after.player == self.player
        } else {
            after == self
        }
    }

    /// Looks at the unit's health: a living unit with no health left dies.
    /// Returns whether the unit has died just now.
    pub fn health_system(&mut self) -> (died: bool)
        ensures
            old(self).health_post(*final(self)),
            died == (old(self).is_living() && old(self).health.is_spent()),
    {
        if self.living.is_some() && self.health.health <= 0 {
            self.living = None;
            self.unit_die();
            true
        } else {
            false
        }
    }

    /// Starts the death of a unit: its death animation, once, reported on the
    /// unit channel.
    pub fn unit_die(&mut self)
        ensures
            final(self).animator@ == (AnimatorView {
                new_anim: Some("die"@),
                mode: AnimationMode::Once,
                event_channel: Some(0i32),
                ..old(self).animator@
            }),
            final(self).living == old(self).living,
            final(self).position == old(self).position,
            final(self).unit == old(self).unit,
            final(self).entity == old(self).entity,
            final(self).team == old(self).team,
            final(self).health == old(self).health,
            final(self).damage == old(self).damage,
            final(self).player == old(self).player,
    {
        self.animator.play("die", AnimationMode::Once);
        self.animator.event_channel = Some(AnimChannel::Unit.to_i32());
    }
}

} // verus!
