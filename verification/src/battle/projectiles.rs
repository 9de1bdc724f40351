//! The flight of the projectiles, and what becomes of them when it is over.

use vstd::prelude::*;
use crate::battle::movement::find_in;
use crate::battle::{lookup, summaries, Battle, ProjectileEntity, UnitSummary};
use crate::cocos2d_anim::{asked, AnimationMode};
use crate::geometry::Point;
use crate::resource::action::projectile::{
    flight_end, projectile_finish_fly, projectile_miss, show_miss, FlightEnd, Projectile,
    ProjectileMiss, TargetType, MISS_LINGER_MS,
};
use crate::resource::action::DamageEvent;

verus! {

/// Where the projectile `p` is aimed at now: the aim point of its target, if
/// that is a living unit.
pub open spec fn aim_of(directory: Seq<UnitSummary>, p: Projectile) -> Option<Point> {
    match p.target {
        TargetType::Unit(target) => match lookup(directory, 0, target) {
            Some(s) => if s.living {
                Some(s.aim)
            } else {
                None
            },
            None => None,
        },
        TargetType::Position(_) => None,
    }
}

/// How the flight of the projectile `p` ends at `now`, if it ends then:
/// `None` for a projectile that does not fly or has not come down yet.
pub open spec fn landing_of(
    p: ProjectileEntity,
    directory: Seq<UnitSummary>,
    now: u64,
    count: int,
) -> Option<FlightEnd> {
    if p.fly is Some && p.flight.has_landed(now) {
        Some(flight_end(p.projectile, p.flight.position_at(now), aim_of(directory, p.projectile), count))
    } else {
        None
    }
}

/// `after` is the projectile `p` after the tick at `now`: in flight, it is
/// where its path has it; come down, it flies no more, and if it has missed
/// and stays, it shows its miss and starts to lie.
pub open spec fn flown(
    p: ProjectileEntity,
    directory: Seq<UnitSummary>,
    now: u64,
    count: int,
    after: ProjectileEntity,
) -> bool {
    if p.fly is Some {
        &&& after.entity == p.entity
        &&& after.projectile == p.projectile
        &&& after.flight == p.flight
        &&& after.position == p.flight.position_at(now)
        &&& after.fly == if p.flight.has_landed(now) {
            None
        } else {
            p.fly
        }
        &&& if landing_of(p, directory, now, count) == Some(FlightEnd::Miss) {
            &&& after.miss == Some(ProjectileMiss(0))
            &&& after.animator@ == asked(p.animator@, "missEnd"@, AnimationMode::Once)
        } else {
            &&& after.miss == p.miss
            &&& after.animator == p.animator
        }
    } else {
        after == p
    }
}

/// The damage that the first `n` of `projectiles` order by hitting at `now`.
pub open spec fn hits(
    projectiles: Seq<ProjectileEntity>,
    n: int,
    directory: Seq<UnitSummary>,
    now: u64,
) -> Seq<DamageEvent>
    decreases n,
{
    if n <= 0 {
        Seq::empty()
    } else {
        let before = hits(projectiles, n - 1, directory, now);
        match landing_of(projectiles[n - 1], directory, now, projectiles.len() as int) {
            Some(FlightEnd::Hit(event)) => before.push(event),
            _ => before,
        }
    }
}

/// The handles of those of the first `n` of `projectiles` that leave the
/// field because their flight ends at `now`: those that hit, and those that
/// miss with the field full.
pub open spec fn landed_and_gone(
    projectiles: Seq<ProjectileEntity>,
    n: int,
    directory: Seq<UnitSummary>,
    now: u64,
) -> Seq<u64>
    decreases n,
{
    if n <= 0 {
        Seq::empty()
    } else {
        let before = landed_and_gone(projectiles, n - 1, directory, now);
        match landing_of(projectiles[n - 1], directory, now, projectiles.len() as int) {
            Some(FlightEnd::Hit(_)) | Some(FlightEnd::MissAndGo) => before.push(
                projectiles[n - 1].entity,
            ),
            _ => before,
        }
    }
}

/// `after` is the projectile `p` after `delta` more milliseconds: one that
/// has missed has lain that much longer.
pub open spec fn lain(p: ProjectileEntity, delta: u64, after: ProjectileEntity) -> bool {
    match p.miss {
        Some(m) => after == (ProjectileEntity {
            miss: Some(
                ProjectileMiss(
                    if m.0 + delta > u64::MAX {
                        u64::MAX
                    } else {
                        (m.0 + delta) as u64
                    },
                ),
            ),
            ..p
        }),
        None => after == p,
    }
}

/// Whether the projectile `p` has lain out its time with `delta` more
/// milliseconds.
pub open spec fn lies_out(p: ProjectileEntity, delta: u64) -> bool {
    p.miss matches Some(m) && m.0 < MISS_LINGER_MS && m.0 + delta >= MISS_LINGER_MS
}

/// The handles of those of the first `n` of `projectiles` that have lain out
/// their time with `delta` more milliseconds.
pub open spec fn lain_out(projectiles: Seq<ProjectileEntity>, n: int, delta: u64) -> Seq<u64>
    decreases n,
{
    if n <= 0 {
        Seq::empty()
    } else {
        let before = lain_out(projectiles, n - 1, delta);
        if lies_out(projectiles[n - 1], delta) {
            before.push(projectiles[n - 1].entity)
        } else {
            before
        }
    }
}

impl Battle {
    /// `after` is the field after the projectiles' tick at `now`.
    pub open spec fn projectiles_flown(self, now: u64, after: Battle) -> bool {
        let directory = summaries(self.units@);
        &&& after.units == self.units
        &&& after.search_map == self.search_map
        &&& after.heal_events == self.heal_events
        &&& after.next_entity == self.next_entity
        &&& after.projectiles@.len() == self.projectiles@.len()
        &&& forall|k: int|
            0 <= k < self.projectiles@.len() ==> flown(
                self.projectiles@[k],
                directory,
                now,
                self.projectiles@.len() as int,
                #[trigger] after.projectiles@[k],
            )
        &&& after.damage_events@ == self.damage_events@ + hits(
            self.projectiles@,
            self.projectiles@.len() as int,
            directory,
            now,
        )
        &&& after.despawn_queue@ == self.despawn_queue@ + landed_and_gone(
            self.projectiles@,
            self.projectiles@.len() as int,
            directory,
            now,
        )
    }

    /// Moves every projectile in flight to where its path has it at `now`,
    /// and settles every flight that is over: a hit orders its damage and
    /// leaves the field, a miss stays where it fell for a while, or leaves at
    /// once if the field is full.
    pub fn projectile_fly_to_fixed_target(&mut self, now: u64)
        requires
            old(self).wf(),
        ensures
            final(self).wf(),
            old(self).projectiles_flown(now, *final(self)),
    {
        let directory = self.directory();
        let count = self.projectiles.len();
        let mut k: usize = 0;
        while k < self.projectiles.len()
            invariant
                k <= self.projectiles.len(),
                count == old(self).projectiles@.len(),
                self.projectiles@.len() == old(self).projectiles@.len(),
                directory@ == summaries(old(self).units@),
                old(self).wf(),
                self.units == old(self).units,
                self.search_map == old(self).search_map,
                self.heal_events == old(self).heal_events,
                self.next_entity == old(self).next_entity,
                forall|j: int|
                    0 <= j < k ==> flown(
                        old(self).projectiles@[j],
                        directory@,
                        now,
                        count as int,
                        #[trigger] self.projectiles@[j],
                    ),
                forall|j: int|
                    k <= j < self.projectiles@.len() ==> self.projectiles@[j] == old(
                        self,
                    ).projectiles@[j],
                forall|j: int|
                    0 <= j < self.projectiles@.len() ==> (#[trigger] self.projectiles@[j]).entity
                        == old(self).projectiles@[j].entity && self.projectiles@[j].projectile
                        == old(self).projectiles@[j].projectile,
                self.damage_events@ == old(self).damage_events@ + hits(
                    old(self).projectiles@,
                    k as int,
                    directory@,
                    now,
                ),
                self.despawn_queue@ == old(self).despawn_queue@ + landed_and_gone(
                    old(self).projectiles@,
                    k as int,
                    directory@,
                    now,
                ),
            decreases self.projectiles.len() - k,
        {
            if self.projectiles[k].fly.is_some() {
                let (position, landed) = self.projectiles[k].flight.projectile_fly_to_fixed_target(
                    now,
                );
                self.projectiles[k].position = position;
                if landed {
                    self.projectiles[k].fly = None;
                    let carried = self.projectiles[k].projectile;
                    let aim = match carried.target {
                        TargetType::Unit(target) => match find_in(&directory, target) {
                            Some(s) => if s.living {
                                Some(s.aim)
                            } else {
                                None
                            },
                            None => None,
                        },
                        TargetType::Position(_) => None,
                    };
                    let ghost done = hits(old(self).projectiles@, k as int, directory@, now);
                    let ghost gone = landed_and_gone(old(self).projectiles@, k as int, directory@, now);
                    match projectile_finish_fly(&carried, position, aim, count) {
                        FlightEnd::Hit(event) => {
                            self.damage_events.push(event);
                            self.despawn_queue.push(self.projectiles[k].entity);
                            assert(old(self).damage_events@ + done.push(event) == (old(
                                self,
                            ).damage_events@ + done).push(event));
                            assert(old(self).despawn_queue@ + gone.push(old(self).projectiles@[k as int].entity) == (old(self).despawn_queue@ + gone).push(
                                old(self).projectiles@[k as int].entity,
                            ));
                        },
                        FlightEnd::MissAndGo => {
                            self.despawn_queue.push(self.projectiles[k].entity);
                            assert(old(self).despawn_queue@ + gone.push(old(self).projectiles@[k as int].entity) == (old(self).despawn_queue@ + gone).push(
                                old(self).projectiles@[k as int].entity,
                            ));
                        },
                        FlightEnd::Miss => {
                            show_miss(&mut self.projectiles[k].animator);
                            self.projectiles[k].miss = Some(ProjectileMiss(0));
                        },
                    }
                }
            }
            k += 1;
        }
    }

    /// `after` is the field after `delta` more milliseconds have passed for
    /// the projectiles that have missed.
    pub open spec fn projectiles_lain(self, delta: u64, after: Battle) -> bool {
        &&& after.units == self.units
        &&& after.search_map == self.search_map
        &&& after.damage_events == self.damage_events
        &&& after.heal_events == self.heal_events
        &&& after.next_entity == self.next_entity
        &&& after.projectiles@.len() == self.projectiles@.len()
        &&& forall|k: int|
            0 <= k < self.projectiles@.len() ==> lain(
                self.projectiles@[k],
                delta,
                #[trigger] after.projectiles@[k],
            )
        &&& after.despawn_queue@ == self.despawn_queue@ + lain_out(
            self.projectiles@,
            self.projectiles@.len() as int,
            delta,
        )
    }

    /// Lets `delta` more milliseconds pass for every projectile that has
    /// missed; one that has lain out its time leaves the field.
    pub fn projectile_miss(&mut self, delta: u64)
        ensures
            old(self).wf() ==> final(self).wf(),
            old(self).projectiles_lain(delta, *final(self)),
    {
        let mut k: usize = 0;
        while k < self.projectiles.len()
            invariant
                k <= self.projectiles.len(),
                self.projectiles@.len() == old(self).projectiles@.len(),
                self.units == old(self).units,
                self.search_map == old(self).search_map,
                self.damage_events == old(self).damage_events,
                self.heal_events == old(self).heal_events,
                self.next_entity == old(self).next_entity,
                forall|j: int|
                    0 <= j < k ==> lain(
                        old(self).projectiles@[j],
                        delta,
                        #[trigger] self.projectiles@[j],
                    ),
                forall|j: int|
                    k <= j < self.projectiles@.len() ==> self.projectiles@[j] == old(
                        self,
                    ).projectiles@[j],
                forall|j: int|
                    0 <= j < self.projectiles@.len() ==> (#[trigger] self.projectiles@[j]).entity
                        == old(self).projectiles@[j].entity && self.projectiles@[j].projectile
                        == old(self).projectiles@[j].projectile,
                self.despawn_queue@ == old(self).despawn_queue@ + lain_out(
                    old(self).projectiles@,
                    k as int,
                    delta,
                ),
            decreases self.projectiles.len() - k,
        {
            if let Some(mut miss) = self.projectiles[k].miss {
                let gone = projectile_miss(&mut miss, delta);
                self.projectiles[k].miss = Some(miss);
                if gone {
                    let ghost before = lain_out(old(self).projectiles@, k as int, delta);
                    self.despawn_queue.push(self.projectiles[k].entity);
                    assert(old(self).despawn_queue@ + before.push(
                        old(self).projectiles@[k as int].entity,
                    ) == (old(self).despawn_queue@ + before).push(
                        old(self).projectiles@[k as int].entity,
                    ));
                }
            }
            k += 1;
        }
    }
}

/// A flight is settled once: the tick in which a projectile comes down takes
/// its flight mark away, and a projectile without that mark is left alone by
/// every later tick, which settles nothing for it.
pub proof fn lemma_flight_settled_once(
    p: ProjectileEntity,
    directory: Seq<UnitSummary>,
    now: u64,
    count: int,
    landed: ProjectileEntity,
    later_directory: Seq<UnitSummary>,
    later: u64,
    later_count: int,
    after: ProjectileEntity,
)
    requires
        p.fly is Some,
        p.flight.has_landed(now),
        flown(p, directory, now, count, landed),
        flown(landed, later_directory, later, later_count, after),
    ensures
        landing_of(p, directory, now, count) is Some,
        landed.fly is None,
        landing_of(landed, later_directory, later, later_count) is None,
        after == landed,
{
}

} // verus!
