//! Shooting actions and the flight of what they shoot.

use vstd::prelude::*;
use crate::cocos2d_anim::{asked, AnimationMode, Cocos2dAnimator};
use crate::geometry::{
    ceil_sqrt, ceil_sqrt_u128, clamp_i32, clamp_i64, clamp_to_i32, clamp_to_i64, dist_sq,
    div_toward_zero, Point,
};
use crate::resource::action::DamageEvent;
use crate::unit::{Unit, UnitType};

verus! {

/// One record of the projectile table.
#[derive(Debug)]
pub struct ProjectileInfo {
    pub effect_name: String,
    pub perform_sound: Vec<String>,
    pub bomb_sound: Vec<String>,
    pub effect_level: u32,
    /// Cooldown in milliseconds.
    pub cd_time: u64,
    pub type_allow: Vec<UnitType>,
    /// Thousandths of a point.
    pub base_damage: i64,
    /// Thousandths.
    pub damage_factor: i32,
    /// Thousandths of a world unit.
    pub distance_min: i32,
    /// Thousandths of a world unit.
    pub distance_max: i32,
    pub bullet_animation_name: String,
    /// Thousandths of a world unit per second.
    pub fly_speed: i32,
    /// Thousandths.
    pub bullet_height_factor: i32,
    /// Thousandths of a world unit.
    pub bullet_height_base: i32,
    /// Thousandths of a world unit.
    pub bullet_damage_radius: i32,
    pub buff_level: Vec<u32>,
    pub buff_list: Vec<String>,
    pub fly_effect: String,
    pub shot_num: i32,
}

/// What a shooting action does, resolved from its record.
#[derive(Debug)]
pub struct ProjectileAct {
    /// Thousandths of a point.
    pub base_damage: i64,
    /// Thousandths.
    pub damage_factor: i32,
    /// The path of the bullet's animation.
    pub bullet_animation_name: String,
    /// Thousandths of a world unit per second.
    pub fly_speed: i32,
    /// Thousandths.
    pub bullet_height_factor: i32,
    /// Thousandths of a world unit.
    pub bullet_height_base: i32,
    /// Thousandths of a world unit.
    pub bullet_damage_radius: i32,
    pub shot_num: i32,
    /// The paths of the sounds played when the action is performed.
    pub perform_sound: Vec<String>,
}

/// What a projectile flies at.
#[derive(Clone, Copy, Debug, PartialEq, Eq, Structural)]
pub enum TargetType {
    Unit(u64),
    Position(Point),
}

/// What a projectile carries: its damage, its target, the unit that shot it,
/// and how near to the target's aim point it has to land to hit.
#[derive(Clone, Copy, Debug, PartialEq, Eq, Structural)]
pub struct Projectile {
    /// Thousandths of a point.
    pub damage: i64,
    pub target: TargetType,
    pub src: u64,
    /// Thousandths of a world unit.
    pub tolerance: i32,
}

/// A flight on a fixed path under constant acceleration. Velocity is in
/// thousandths of a world unit per second, acceleration in thousandths of a
/// world unit per second per second, times in milliseconds.
#[derive(Clone, Copy, Debug, PartialEq, Eq, Structural)]
pub struct ProjectileToFixedTarget {
    pub acceleration: Point,
    pub init_velocity: Point,
    pub dest_pos: Point,
    pub src_pos: Point,
    pub fly_duration: u32,
    pub start_time: u64,
}

/// Marks a projectile in flight.
#[derive(Clone, Copy, Debug, PartialEq, Eq, Structural)]
pub struct ProjectileFly;

/// Marks a projectile that has missed, with the milliseconds it has lain
/// where it fell.
#[derive(Clone, Copy, Debug, PartialEq, Eq, Structural)]
pub struct ProjectileMiss(pub u64);

/// A projectile that has missed is taken away after five and a half seconds.
pub const MISS_LINGER_MS: u64 = 5500;

/// With more projectiles than this on the field, one that misses is taken
/// away at once.
pub const PROJECTILE_CAP: usize = 2000;

/// The way made in `t` milliseconds from rest along one axis, at the initial
/// velocity `v` and the acceleration `a`: `v * t + a * t * t / 2`.
pub open spec fn displacement(v: int, a: int, t: int) -> int {
    div_toward_zero(v * t, 1000) + div_toward_zero(a * t * t, 2_000_000)
}

impl ProjectileToFixedTarget {
    /// The time flown at `now`, in milliseconds: nothing before the start,
    /// the whole flight from its end on.
    pub open spec fn time_flown(self, now: u64) -> int {
        if now <= self.start_time {
            0
        } else if now - self.start_time >= self.fly_duration {
            self.fly_duration as int
        } else {
            now - self.start_time
        }
    }

    /// Whether the flight is over at `now`.
    pub open spec fn has_landed(self, now: u64) -> bool {
        now >= self.start_time + self.fly_duration
    }

    /// Where the projectile is at `now`.
    pub open spec fn position_at(self, now: u64) -> Point {
        let t = self.time_flown(now);
        Point {
            x: clamp_i32(
                self.src_pos.x + displacement(
                    self.init_velocity.x as int,
                    self.acceleration.x as int,
                    t,
                ),
            ) as i32,
            y: clamp_i32(
                self.src_pos.y + displacement(
                    self.init_velocity.y as int,
                    self.acceleration.y as int,
                    t,
                ),
            ) as i32,
        }
    }

    /// The velocity along one axis that takes a projectile over the way `d`
    /// in `duration` milliseconds under the acceleration `a`; zero for a
    /// flight that takes no time.
    pub open spec fn launch_velocity(d: int, a: int, duration: int) -> int {
        if duration <= 0 {
            0
        } else {
            clamp_i32(div_toward_zero(d * 1000, duration) - div_toward_zero(a * duration, 2000))
        }
    }

    /// The milliseconds that a flight over the distance whose square is `d_sq`
    /// takes at the speed `fly_speed`, rounded up.
    pub open spec fn duration_for(d_sq: int, fly_speed: int) -> int {
        (ceil_sqrt(d_sq) * 1000 + fly_speed - 1) / fly_speed
    }

    /// `flight` is the flight from `src` to `dest` at the speed `fly_speed`
    /// under the acceleration `acceleration`, started at `now`.
    pub open spec fn is_launch(
        src: Point,
        dest: Point,
        fly_speed: i32,
        acceleration: Point,
        now: u64,
        flight: ProjectileToFixedTarget,
    ) -> bool {
        let duration = Self::duration_for(dist_sq(src, dest), fly_speed as int);
        &&& flight.src_pos == src
        &&& flight.dest_pos == dest
        &&& flight.acceleration == acceleration
        &&& flight.start_time == now
        &&& flight.fly_duration == duration
        &&& flight.init_velocity.x == Self::launch_velocity(
            dest.x - src.x,
            acceleration.x as int,
            duration,
        )
        &&& flight.init_velocity.y == Self::launch_velocity(
            dest.y - src.y,
            acceleration.y as int,
            duration,
        )
    }

    /// Whether a flight from `src` to `dest` at `fly_speed` can be had: the
    /// speed is more than zero and the flight's milliseconds fit in 32 bits.
    pub open spec fn can_launch(src: Point, dest: Point, fly_speed: i32) -> bool {
        fly_speed > 0 && Self::duration_for(dist_sq(src, dest), fly_speed as int) <= u32::MAX
    }

    /// The flight from `src` to `dest` at the speed `fly_speed` under the
    /// acceleration `acceleration`, started at `now`; `None` where no such
    /// flight can be had.
    pub fn launch(src: Point, dest: Point, fly_speed: i32, acceleration: Point, now: u64) -> (flight:
        Option<ProjectileToFixedTarget>)
        ensures
            match flight {
                Some(f) => Self::can_launch(src, dest, fly_speed) && Self::is_launch(
                    src,
                    dest,
                    fly_speed,
                    acceleration,
                    now,
                    f,
                ),
                None => !Self::can_launch(src, dest, fly_speed),
            },
    {
        if fly_speed <= 0 {
            return None;
        }
        let distance: u128 = ceil_sqrt_u128(src.distance_squared(&dest));
        let lifted: u128 = distance * 1000 + (fly_speed as u128) - 1;
        let duration_wide: u128 = lifted / (fly_speed as u128);
        if duration_wide > u32::MAX as u128 {
            return None;
        }
        let duration: u32 = duration_wide as u32;
        Some(
            ProjectileToFixedTarget {
                acceleration,
                init_velocity: Point {
                    x: velocity_for(dest.x as i64 - src.x as i64, acceleration.x, duration),
                    y: velocity_for(dest.y as i64 - src.y as i64, acceleration.y, duration),
                },
                dest_pos: dest,
                src_pos: src,
                fly_duration: duration,
                start_time: now,
            },
        )
    }

    /// Where the projectile is at `now`, and whether its flight is over.
    pub fn projectile_fly_to_fixed_target(&self, now: u64) -> (r: (Point, bool))
        ensures
            r.0 == self.position_at(now),
            r.1 == self.has_landed(now),
    {
        let landed = now >= self.start_time && now - self.start_time >= self.fly_duration as u64;
        let t: i128 = if now <= self.start_time {
            0
        } else if landed {
            self.fly_duration as i128
        } else {
            (now - self.start_time) as i128
        };
        let x = self.src_pos.x as i128 + way(self.init_velocity.x, self.acceleration.x, t);
        let y = self.src_pos.y as i128 + way(self.init_velocity.y, self.acceleration.y, t);
        (Point { x: clamp_to_i32(x), y: clamp_to_i32(y) }, landed)
    }
}

fn velocity_for(d: i64, a: i32, duration: u32) -> (v: i32)
    requires
        -0xffff_ffff <= d <= 0xffff_ffff,
    ensures
        v == ProjectileToFixedTarget::launch_velocity(d as int, a as int, duration as int),
{
    if duration == 0 {
        0
    } else {
        let straight: i128 = (d as i128 * 1000) / (duration as i128);
        let a_wide: i128 = a as i128;
        let t_wide: i128 = duration as i128;
        assert(-0x8000_0000 * 0xffff_ffff <= a_wide * t_wide <= 0x8000_0000 * 0xffff_ffff)
            by (nonlinear_arith)
            requires
                -0x8000_0000 <= a_wide <= 0x8000_0000,
                0 <= t_wide <= 0xffff_ffff,
        ;
        let bend: i128 = (a_wide * t_wide) / 2000;
        clamp_to_i32(straight - bend)
    }
}

fn way(v: i32, a: i32, t: i128) -> (w: i128)
    requires
        0 <= t <= 0xffff_ffff,
    ensures
        w == displacement(v as int, a as int, t as int),
        -0x1_0000_0000_0000_0000_0000_0000 <= w <= 0x1_0000_0000_0000_0000_0000_0000,
{
    let v_wide: i128 = v as i128;
    let a_wide: i128 = a as i128;
    assert(-0x8000_0000 * 0xffff_ffff <= v_wide * t <= 0x8000_0000 * 0xffff_ffff)
        by (nonlinear_arith)
        requires
            -0x8000_0000 <= v_wide <= 0x8000_0000,
            0 <= t <= 0xffff_ffff,
    ;
    assert(-0x8000_0000 * 0xffff_ffff <= a_wide * t <= 0x8000_0000 * 0xffff_ffff)
        by (nonlinear_arith)
        requires
            -0x8000_0000 <= a_wide <= 0x8000_0000,
            0 <= t <= 0xffff_ffff,
    ;
    let at: i128 = a_wide * t;
    assert(-0x8000_0000 * 0xffff_ffff * 0xffff_ffff <= at * t <= 0x8000_0000 * 0xffff_ffff
        * 0xffff_ffff) by (nonlinear_arith)
        requires
            -0x8000_0000 * 0xffff_ffff <= at <= 0x8000_0000 * 0xffff_ffff,
            0 <= t <= 0xffff_ffff,
    ;
    (v_wide * t) / 1000 + (at * t) / 2_000_000
}

/// From the end of its flight on, a projectile stays where it came down.
pub proof fn lemma_rests_after_landing(flight: ProjectileToFixedTarget, now: u64, later: u64)
    requires
        flight.has_landed(now),
        now <= later,
    ensures
        flight.has_landed(later),
        flight.position_at(later) == flight.position_at(now),
{
}

/// A flight without acceleration whose way divides evenly over its time
/// makes, along each axis, the same part of the way in the same part of the
/// time, and comes down on its destination.
pub proof fn lemma_straight_flight(flight: ProjectileToFixedTarget, now: u64, per_ms: Point)
    requires
        flight.acceleration == (Point { x: 0, y: 0 }),
        flight.init_velocity.x == per_ms.x * 1000,
        flight.init_velocity.y == per_ms.y * 1000,
        flight.src_pos.x + per_ms.x * flight.fly_duration == flight.dest_pos.x,
        flight.src_pos.y + per_ms.y * flight.fly_duration == flight.dest_pos.y,
    ensures
        flight.position_at(now).x == flight.src_pos.x + per_ms.x * flight.time_flown(now),
        flight.position_at(now).y == flight.src_pos.y + per_ms.y * flight.time_flown(now),
        flight.has_landed(now) ==> flight.position_at(now) == flight.dest_pos,
{
    let t = flight.time_flown(now);
    lemma_straight_way(per_ms.x as int, t, flight.fly_duration as int);
    lemma_straight_way(per_ms.y as int, t, flight.fly_duration as int);
}

proof fn lemma_straight_way(per_ms: int, t: int, duration: int)
    requires
        0 <= t <= duration,
    ensures
        displacement(per_ms * 1000, 0, t) == per_ms * t,
        (per_ms >= 0 ==> 0 <= per_ms * t <= per_ms * duration),
        (per_ms <= 0 ==> per_ms * duration <= per_ms * t <= 0),
{
    assert(per_ms * 1000 * t == (per_ms * t) * 1000) by (nonlinear_arith);
    assert(0 * t * t == 0) by (nonlinear_arith);
    let w = per_ms * t;
    if w >= 0 {
        assert((w * 1000) / 1000 == w);
    } else {
        assert(-(w * 1000) == (-w) * 1000);
        assert(((-w) * 1000) / 1000 == -w);
    }
    assert(per_ms >= 0 ==> 0 <= per_ms * t <= per_ms * duration) by (nonlinear_arith)
        requires
            0 <= t <= duration,
    ;
    assert(per_ms <= 0 ==> per_ms * duration <= per_ms * t <= 0) by (nonlinear_arith)
        requires
            0 <= t <= duration,
    ;
}

/// Where a unit is aimed at, from its feet: the middle of its body.
pub open spec fn aim_body_offset(unit: Unit) -> Point {
    Point { x: 0, y: div_toward_zero(unit.body_height as int, 2) as i32 }
}

/// Where a unit is aimed at, from its feet: the middle of its body.
pub fn get_unit_aim_body_offset(unit: &Unit) -> (offset: Point)
    ensures
        offset == aim_body_offset(*unit),
{
    Point { x: 0, y: unit.body_height / 2 }
}

/// The aim point of a unit that stands at `position`.
pub open spec fn aim_point(unit: Unit, position: Point) -> Point {
    Point {
        x: position.x,
        y: clamp_i32(position.y + aim_body_offset(unit).y) as i32,
    }
}

/// The aim point of a unit that stands at `position`.
pub fn unit_aim_point(unit: &Unit, position: Point) -> (aim: Point)
    ensures
        aim == aim_point(*unit, position),
{
    let offset = get_unit_aim_body_offset(unit);
    Point { x: position.x, y: clamp_to_i32(position.y as i128 + offset.y as i128) }
}

/// How a flight ends.
#[derive(Clone, Copy, Debug, PartialEq, Eq, Structural)]
pub enum FlightEnd {
    /// The projectile hit: the event is sent and the projectile is taken away.
    Hit(DamageEvent),
    /// The projectile missed and stays where it fell for a while.
    Miss,
    /// The projectile missed and is taken away at once, the field being full.
    MissAndGo,
}

/// A landing at the distance whose square is `d_sq` from the aim point is
/// farther off than `tolerance`.
pub open spec fn is_off_target(d_sq: int, tolerance: int) -> bool {
    tolerance < 0 || d_sq > tolerance * tolerance
}

/// Whether a flight at the aim point `aim` that came down at `landing` has
/// missed: whether the target is gone, or the landing lies farther from the
/// aim point than `tolerance`.
pub open spec fn has_missed(landing: Point, aim: Option<Point>, tolerance: int) -> bool {
    match aim {
        Some(point) => is_off_target(dist_sq(point, landing), tolerance),
        None => true,
    }
}

/// How the flight of `projectile` at a unit ends, having come down at
/// `landing` with `projectile_count` projectiles on the field. `aim` is the
/// aim point of the target where it stands now, or `None` where the target is
/// gone; a projectile whose target is gone has missed.
pub open spec fn flight_end(
    projectile: Projectile,
    landing: Point,
    aim: Option<Point>,
    projectile_count: int,
) -> FlightEnd {
    if has_missed(landing, aim, projectile.tolerance as int) {
        if projectile_count > PROJECTILE_CAP {
            FlightEnd::MissAndGo
        } else {
            FlightEnd::Miss
        }
    } else {
        FlightEnd::Hit(
            DamageEvent {
                src: projectile.src,
                target: projectile.target->Unit_0,
                damage: projectile.damage,
            },
        )
    }
}

/// Settles a flight at a unit once it is over: a landing within the
/// projectile's tolerance of the aim point hits; any other, and any flight
/// at a target that is gone, misses.
pub fn projectile_finish_fly(
    projectile: &Projectile,
    landing: Point,
    aim: Option<Point>,
    projectile_count: usize,
) -> (end: FlightEnd)
    requires
        projectile.target is Unit,
    ensures
        end == flight_end(*projectile, landing, aim, projectile_count as int),
{
    let off = match aim {
        None => true,
        Some(point) => {
            if projectile.tolerance < 0 {
                true
            } else {
                let d_sq = point.distance_squared(&landing);
                let tolerance: u128 = projectile.tolerance as u128;
                assert(tolerance * tolerance <= 0x7fff_ffff * 0x7fff_ffff) by (nonlinear_arith)
                    requires
                        0 <= tolerance <= 0x7fff_ffff,
                ;
                d_sq > tolerance * tolerance
            }
        },
    };
    if off {
        if projectile_count > PROJECTILE_CAP {
            FlightEnd::MissAndGo
        } else {
            FlightEnd::Miss
        }
    } else {
        match projectile.target {
            TargetType::Unit(target) => FlightEnd::Hit(
                DamageEvent { src: projectile.src, target, damage: projectile.damage },
            ),
            TargetType::Position(_) => FlightEnd::Miss,
        }
    }
}

/// Shows a miss: the projectile plays its miss once.
pub fn show_miss(animator: &mut Cocos2dAnimator)
    ensures
        final(animator)@ == asked(old(animator)@, "missEnd"@, AnimationMode::Once),
{
    animator.play("missEnd", AnimationMode::Once);
}

/// Lets `delta` more milliseconds pass for a projectile that has missed, and
/// says whether it is to be taken away: whether it has now lain for its whole
/// time, and had not before.
pub fn projectile_miss(miss: &mut ProjectileMiss, delta: u64) -> (gone: bool)
    ensures
        final(miss).0 == if old(miss).0 + delta > u64::MAX {
            u64::MAX
        } else {
            (old(miss).0 + delta) as u64
        },
        gone == (old(miss).0 < MISS_LINGER_MS && old(miss).0 + delta >= MISS_LINGER_MS),
{
    let before = miss.0;
    miss.0 = if u64::MAX - before < delta {
        u64::MAX
    } else {
        before + delta
    };
    before < MISS_LINGER_MS && miss.0 >= MISS_LINGER_MS
}

/// The height that a bullet of `act` rises to over a way whose squared
/// length is `d_sq`: the base height and, with each world unit of the way,
/// the height factor.
pub open spec fn arc_height(act: ProjectileAct, d_sq: int) -> int {
    act.bullet_height_base + div_toward_zero(
        act.bullet_height_factor * ceil_sqrt(d_sq),
        crate::SCALE as int,
    )
}

/// The acceleration that bends a flight of `duration` milliseconds between
/// two points of equal height into an arc that rises to `height`:
/// `-8 * height / duration^2`; zero for a flight that takes no time.
pub open spec fn arc_acceleration(height: int, duration: int) -> int {
    if duration <= 0 {
        0
    } else {
        clamp_i32(-div_toward_zero(8 * height * 1_000_000, duration * duration))
    }
}

/// The damage of a bullet: the action's base damage and, times the action's
/// factor in thousandths, the unit's base damage with the random part `roll`;
/// held to 64 bits.
pub open spec fn projectile_damage(base_damage: i64, unit_damage: i64, roll: i64, factor: i32) -> i64 {
    clamp_i64(base_damage + div_toward_zero((unit_damage + roll) * factor, crate::SCALE as int)) as i64
}

/// `shot` is what the unit `src` at `src_pos` shoots with the action `act`
/// at the unit `target`, aimed at where that unit's aim point is at `now`: a
/// bullet that hits within the action's bullet radius, on an arc that ends in
/// the aim point.
pub open spec fn is_shot(
    act: ProjectileAct,
    src: u64,
    src_pos: Point,
    target: u64,
    target_aim: Point,
    unit_damage: i64,
    roll: i64,
    now: u64,
    shot: (Projectile, ProjectileToFixedTarget),
) -> bool {
    let d_sq = dist_sq(src_pos, target_aim);
    let duration = ProjectileToFixedTarget::duration_for(d_sq, act.fly_speed as int);
    let bend = Point { x: 0, y: arc_acceleration(arc_height(act, d_sq), duration) as i32 };
    &&& shot.0 == (Projectile {
        damage: projectile_damage(act.base_damage, unit_damage, roll, act.damage_factor),
        target: TargetType::Unit(target),
        src,
        tolerance: act.bullet_damage_radius,
    })
    &&& ProjectileToFixedTarget::is_launch(src_pos, target_aim, act.fly_speed, bend, now, shot.1)
}

fn compute_projectile_damage(base_damage: i64, unit_damage: i64, roll: i64, factor: i32) -> (damage:
    i64)
    ensures
        damage == projectile_damage(base_damage, unit_damage, roll, factor),
{
    let sum: i128 = unit_damage as i128 + roll as i128;
    let factor_wide: i128 = factor as i128;
    assert(-0x1_0000_0000_0000_0000 * 0x8000_0000 <= sum * factor_wide <= 0x1_0000_0000_0000_0000
        * 0x8000_0000) by (nonlinear_arith)
        requires
            -0x1_0000_0000_0000_0000 <= sum <= 0x1_0000_0000_0000_0000,
            -0x8000_0000 <= factor_wide <= 0x8000_0000,
    ;
    let scaled: i128 = sum * factor_wide;
    assert(scaled == (unit_damage + roll) * factor) by (nonlinear_arith)
        requires
            scaled == sum * factor_wide,
            sum == unit_damage + roll,
            factor_wide == factor,
    ;
    clamp_to_i64(base_damage as i128 + scaled / (crate::SCALE as i128))
}

fn compute_arc_acceleration(act: &ProjectileAct, distance: u128, duration: u32) -> (a: i32)
    requires
        distance <= 0x1_0000_0000_0000_0000,
    ensures
        a == arc_acceleration(
            act.bullet_height_base + div_toward_zero(
                act.bullet_height_factor * distance,
                crate::SCALE as int,
            ),
            duration as int,
        ),
{
    if duration == 0 {
        return 0;
    }
    let factor: i128 = act.bullet_height_factor as i128;
    let way: i128 = distance as i128;
    assert(-0x8000_0000 * 0x1_0000_0000_0000_0000 <= factor * way <= 0x8000_0000
        * 0x1_0000_0000_0000_0000) by (nonlinear_arith)
        requires
            -0x8000_0000 <= factor <= 0x8000_0000,
            0 <= way <= 0x1_0000_0000_0000_0000,
    ;
    let height: i128 = act.bullet_height_base as i128 + (factor * way) / (crate::SCALE as i128);
    let t: i128 = duration as i128;
    assert(0 < t * t <= 0xffff_ffff * 0xffff_ffff) by (nonlinear_arith)
        requires
            0 < t <= 0xffff_ffff,
    ;
    let lifted: i128 = 8 * height * 1_000_000;
    clamp_to_i32(-(lifted / (t * t)))
}

/// What the unit `src` at `src_pos` shoots with the action `act` at the unit
/// `target`, whose aim point is at `target_aim`, at the time `now`, with the
/// random part `roll` of its damage. `None` where the action's speed does not
/// allow a flight.
pub fn shoot(
    act: &ProjectileAct,
    src: u64,
    src_pos: Point,
    target: u64,
    target_aim: Point,
    unit_damage: i64,
    roll: i64,
    now: u64,
) -> (shot: Option<(Projectile, ProjectileToFixedTarget)>)
    ensures
        match shot {
            Some(s) => ProjectileToFixedTarget::can_launch(src_pos, target_aim, act.fly_speed)
                && is_shot(*act, src, src_pos, target, target_aim, unit_damage, roll, now, s),
            None => !ProjectileToFixedTarget::can_launch(src_pos, target_aim, act.fly_speed),
        },
{
    if act.fly_speed <= 0 {
        return None;
    }
    let distance: u128 = ceil_sqrt_u128(src_pos.distance_squared(&target_aim));
    let lifted: u128 = distance * 1000 + (act.fly_speed as u128) - 1;
    let duration_wide: u128 = lifted / (act.fly_speed as u128);
    if duration_wide > u32::MAX as u128 {
        return None;
    }
    let bend = Point { x: 0, y: compute_arc_acceleration(act, distance, duration_wide as u32) };
    match ProjectileToFixedTarget::launch(src_pos, target_aim, act.fly_speed, bend, now) {
        Some(flight) => Some(
            (
                Projectile {
                    damage: compute_projectile_damage(
                        act.base_damage,
                        unit_damage,
                        roll,
                        act.damage_factor,
                    ),
                    target: TargetType::Unit(target),
                    src,
                    tolerance: act.bullet_damage_radius,
                },
                flight,
            ),
        ),
        None => None,
    }
}

} // verus!
