//! Points, distances and bounded steps, in thousandths of a world unit.
//!
//! Every length of the battle field is an integer count of thousandths of a
//! world unit. Distances are compared by their squares, so no comparison
//! rounds; where a length itself is needed (to scale a direction) the square
//! root is rounded up, which keeps a scaled direction from growing longer
//! than the length asked for.

use vstd::prelude::*;

verus! {

/// A position or displacement on the battle field, in thousandths of a world unit.
#[derive(Clone, Copy, Debug, PartialEq, Eq, Structural)]
pub struct Point {
    pub x: i32,
    pub y: i32,
}

/// The side that a unit's sprite faces.
#[derive(Clone, Copy, Debug, PartialEq, Eq, Structural)]
pub enum AnimationFaceDir {
    Left,
    Right,
}

/// The squared Euclidean distance between two points.
pub open spec fn dist_sq(a: Point, b: Point) -> int {
    (b.x - a.x) * (b.x - a.x) + (b.y - a.y) * (b.y - a.y)
}

/// `d` is a distance (not squared) that is strictly below the length `bound`.
/// A bound of zero or less is below every distance.
pub open spec fn sq_below(d_sq: int, bound: int) -> bool {
    bound > 0 && d_sq < bound * bound
}

/// Division that rounds toward zero.
pub open spec fn div_toward_zero(a: int, b: int) -> int
    recommends
        b > 0,
{
    if a >= 0 {
        a / b
    } else {
        -((-a) / b)
    }
}

/// `r` is the square root of `n`, rounded up.
pub open spec fn is_ceil_sqrt(n: int, r: int) -> bool {
    &&& r >= 0
    &&& r * r >= n
    &&& r > 0 ==> (r - 1) * (r - 1) < n
}

/// The square root of `n`, rounded up.
pub open spec fn ceil_sqrt(n: int) -> int {
    choose|r: int| is_ceil_sqrt(n, r)
}

/// `v` held to the range of `i32`.
pub open spec fn clamp_i32(v: int) -> int {
    if v < i32::MIN {
        i32::MIN as int
    } else if v > i32::MAX {
        i32::MAX as int
    } else {
        v
    }
}

/// `v` held to the range of `i64`.
pub open spec fn clamp_i64(v: int) -> int {
    if v < i64::MIN {
        i64::MIN as int
    } else if v > i64::MAX {
        i64::MAX as int
    } else {
        v
    }
}

/// One component `d` of a direction of length `len`, rescaled to the length `r`.
/// A direction of length zero stays zero.
pub open spec fn scale_component(d: int, r: int, len: int) -> int {
    if len <= 0 {
        0
    } else {
        div_toward_zero(d * r, len)
    }
}

/// The displacement `(dx, dy)` cut down to the length `limit`: unchanged where
/// it is strictly shorter than `limit`, else rescaled to `limit` (backwards for
/// a negative `limit`).
pub open spec fn clamp_length(dx: int, dy: int, limit: int) -> (int, int) {
    let d_sq = dx * dx + dy * dy;
    if sq_below(d_sq, limit) {
        (dx, dy)
    } else {
        let len = ceil_sqrt(d_sq);
        (scale_component(dx, limit, len), scale_component(dy, limit, len))
    }
}

/// Where a walker at `pos` stands after one step of at most `speed` toward `dest`.
pub open spec fn step_toward(pos: Point, dest: Point, speed: int) -> Point {
    let step = clamp_length(dest.x - pos.x, dest.y - pos.y, speed);
    Point { x: clamp_i32(pos.x + step.0) as i32, y: clamp_i32(pos.y + step.1) as i32 }
}

/// The side faced after a step from `before` to `after`; `None` where the step
/// has no horizontal part.
pub open spec fn step_face(before: Point, after: Point) -> Option<AnimationFaceDir> {
    if after.x > before.x {
        Some(AnimationFaceDir::Right)
    } else if after.x < before.x {
        Some(AnimationFaceDir::Left)
    } else {
        None
    }
}

/// The point that an attacker at `pos` walks to in order to stand `range` away
/// from `target`: the target, moved back toward the attacker by `range`, or the
/// attacker's own place where it already stands closer than that.
pub open spec fn approach_point(pos: Point, target: Point, range: int) -> Point {
    let back = clamp_length(target.x - pos.x, target.y - pos.y, range);
    Point { x: clamp_i32(target.x - back.0) as i32, y: clamp_i32(target.y - back.1) as i32 }
}

/// A number has one rounded-up square root.
pub proof fn lemma_ceil_sqrt_unique(n: int, r1: int, r2: int)
    requires
        is_ceil_sqrt(n, r1),
        is_ceil_sqrt(n, r2),
    ensures
        r1 == r2,
        ceil_sqrt(n) == r1,
{
    if r1 < r2 {
        assert(r1 * r1 <= (r2 - 1) * (r2 - 1)) by (nonlinear_arith)
            requires
                0 <= r1 <= r2 - 1,
        ;
    }
    if r2 < r1 {
        assert(r2 * r2 <= (r1 - 1) * (r1 - 1)) by (nonlinear_arith)
            requires
                0 <= r2 <= r1 - 1,
        ;
    }
    let c = ceil_sqrt(n);
    assert(is_ceil_sqrt(n, c));
    if c < r1 {
        assert(c * c <= (r1 - 1) * (r1 - 1)) by (nonlinear_arith)
            requires
                0 <= c <= r1 - 1,
        ;
    }
    if r1 < c {
        assert(r1 * r1 <= (c - 1) * (c - 1)) by (nonlinear_arith)
            requires
                0 <= r1 <= c - 1,
        ;
    }
}

/// A rescaled component keeps the sign of `d` and is no longer than `d`, where
/// the length asked for is between zero and the direction's own length.
pub proof fn lemma_scale_component_within(d: int, r: int, len: int)
    requires
        0 <= r <= len,
    ensures
        d >= 0 ==> 0 <= scale_component(d, r, len) <= d,
        d <= 0 ==> d <= scale_component(d, r, len) <= 0,
        scale_component(d, r, len) * scale_component(d, r, len) * len * len <= d * d * r * r,
{
    if len > 0 {
        let m = if d >= 0 {
            d
        } else {
            -d
        };
        let q = (m * r) / len;
        assert(0 <= q <= m && q * len <= m * r) by (nonlinear_arith)
            requires
                0 <= m,
                0 <= r <= len,
                len > 0,
                q == (m * r) / len,
        ;
        assert(d * r == if d >= 0 {
            m * r
        } else {
            -(m * r)
        }) by (nonlinear_arith)
            requires
                m == if d >= 0 {
                    d
                } else {
                    -d
                },
        ;
        assert(m * r >= 0) by (nonlinear_arith)
            requires
                m >= 0,
                r >= 0,
        ;
        let s = scale_component(d, r, len);
        assert(s == q || s == -q);
        assert(s * s == q * q) by (nonlinear_arith)
            requires
                s == q || s == -q,
        ;
        assert(q * q * len * len <= m * m * r * r) by (nonlinear_arith)
            requires
                0 <= q,
                0 <= len,
                q * len <= m * r,
        ;
        assert(m * m == d * d) by (nonlinear_arith)
            requires
                m == d || m == -d,
        ;
        assert(s * s * len * len == q * q * len * len) by (nonlinear_arith)
            requires
                s * s == q * q,
        ;
        assert(m * m * r * r == d * d * r * r) by (nonlinear_arith)
            requires
                m * m == d * d,
        ;
    } else {
        assert(d * d * r * r >= 0) by (nonlinear_arith)
            requires
                r == 0,
        ;
    }
}

/// A displacement cut down to a length of zero or more keeps its direction,
/// reaches no further than it did, and is no longer than the length asked for.
pub proof fn lemma_clamp_length_bounds(dx: int, dy: int, limit: int)
    requires
        limit >= 0,
    ensures
        ({
            let c = clamp_length(dx, dy, limit);
            &&& (dx >= 0 ==> 0 <= c.0 <= dx)
            &&& (dx <= 0 ==> dx <= c.0 <= 0)
            &&& (dy >= 0 ==> 0 <= c.1 <= dy)
            &&& (dy <= 0 ==> dy <= c.1 <= 0)
            &&& c.0 * c.0 + c.1 * c.1 <= limit * limit
            &&& (sq_below(dx * dx + dy * dy, limit) ==> c == (dx, dy))
        }),
{
    let d_sq = dx * dx + dy * dy;
    assert(dx * dx >= 0 && dy * dy >= 0) by (nonlinear_arith);
    if !sq_below(d_sq, limit) {
        let len = ceil_sqrt(d_sq);
        lemma_sqrt_exists(d_sq);
        if limit == 0 {
            assert(0 <= limit <= len);
        } else {
            assert(d_sq >= limit * limit);
            assert(limit <= len) by (nonlinear_arith)
                requires
                    len * len >= d_sq,
                    d_sq >= limit * limit,
                    limit > 0,
                    len >= 0,
            ;
        }
        lemma_scale_component_within(dx, limit, len);
        lemma_scale_component_within(dy, limit, len);
        let sx = scale_component(dx, limit, len);
        let sy = scale_component(dy, limit, len);
        if len > 0 {
            assert(sx * sx + sy * sy <= limit * limit) by (nonlinear_arith)
                requires
                    sx * sx * len * len <= dx * dx * limit * limit,
                    sy * sy * len * len <= dy * dy * limit * limit,
                    dx * dx + dy * dy <= len * len,
                    len > 0,
                    limit >= 0,
            ;
        } else {
            assert(limit * limit >= 0) by (nonlinear_arith);
        }
    }
}

/// Every natural number has a rounded-up square root.
pub proof fn lemma_sqrt_exists(n: int)
    requires
        n >= 0,
    ensures
        is_ceil_sqrt(n, ceil_sqrt(n)),
    decreases n,
{
    if n == 0 {
        assert(is_ceil_sqrt(0, 0));
    } else {
        lemma_sqrt_exists(n - 1);
        let r = ceil_sqrt(n - 1);
        assert(r * r >= n - 1);
        if r * r >= n {
            if r > 0 {
                assert((r - 1) * (r - 1) < n);
            }
            assert(is_ceil_sqrt(n, r));
        } else {
            assert(r * r == n - 1);
            assert((r + 1) * (r + 1) >= n) by (nonlinear_arith)
                requires
                    r * r == n - 1,
                    r >= 0,
            ;
            assert(is_ceil_sqrt(n, r + 1));
        }
    }
}

/// A walker never overshoots: after a step at a speed of zero or more it stands
/// between where it stood and its destination, no farther from the destination
/// than before, and has moved no farther than its speed.
pub proof fn lemma_step_never_overshoots(pos: Point, dest: Point, speed: int)
    requires
        speed >= 0,
    ensures
        ({
            let next = step_toward(pos, dest, speed);
            &&& (pos.x <= dest.x ==> pos.x <= next.x <= dest.x)
            &&& (pos.x >= dest.x ==> dest.x <= next.x <= pos.x)
            &&& (pos.y <= dest.y ==> pos.y <= next.y <= dest.y)
            &&& (pos.y >= dest.y ==> dest.y <= next.y <= pos.y)
            &&& dist_sq(next, dest) <= dist_sq(pos, dest)
            &&& dist_sq(pos, next) <= speed * speed
            &&& (sq_below(dist_sq(pos, dest), speed) ==> next == dest)
        }),
{
    let dx = dest.x - pos.x;
    let dy = dest.y - pos.y;
    lemma_clamp_length_bounds(dx, dy, speed);
    let c = clamp_length(dx, dy, speed);
    let next = step_toward(pos, dest, speed);
    assert(next.x == pos.x + c.0);
    assert(next.y == pos.y + c.1);
    let rx = dest.x - next.x;
    let ry = dest.y - next.y;
    assert(rx * rx <= dx * dx) by (nonlinear_arith)
        requires
            (dx >= 0 && 0 <= rx <= dx) || (dx <= 0 && dx <= rx <= 0),
    ;
    assert(ry * ry <= dy * dy) by (nonlinear_arith)
        requires
            (dy >= 0 && 0 <= ry <= dy) || (dy <= 0 && dy <= ry <= 0),
    ;
}

/// A walker gets on: at a speed of two thousandths or more, a step moves it
/// unless it stands at its destination.
pub proof fn lemma_step_makes_way(pos: Point, dest: Point, speed: int)
    requires
        speed >= 2,
        pos != dest,
    ensures
        step_toward(pos, dest, speed) != pos,
{
    let dx = dest.x - pos.x;
    let dy = dest.y - pos.y;
    let d_sq = dx * dx + dy * dy;
    lemma_clamp_length_bounds(dx, dy, speed);
    assert(dx * dx >= 0 && dy * dy >= 0) by (nonlinear_arith);
    if !sq_below(d_sq, speed) {
        let len = ceil_sqrt(d_sq);
        lemma_sqrt_exists(d_sq);
        let ax = if dx >= 0 {
            dx
        } else {
            -dx
        };
        let ay = if dy >= 0 {
            dy
        } else {
            -dy
        };
        let m = if ax >= ay {
            ax
        } else {
            ay
        };
        assert(m >= 1);
        assert(ax * ax == dx * dx && ay * ay == dy * dy) by (nonlinear_arith)
            requires
                ax == dx || ax == -dx,
                ay == dy || ay == -dy,
        ;
        assert(d_sq <= 2 * (m * m)) by (nonlinear_arith)
            requires
                d_sq == ax * ax + ay * ay,
                0 <= ax <= m,
                0 <= ay <= m,
        ;
        assert(len <= 2 * m) by (nonlinear_arith)
            requires
                len > 0 ==> (len - 1) * (len - 1) < d_sq,
                d_sq <= 2 * (m * m),
                m >= 1,
                len >= 0,
        ;
        assert(d_sq >= 1) by (nonlinear_arith)
            requires
                d_sq == ax * ax + ay * ay,
                ax >= 1 || ay >= 1,
                ax >= 0,
                ay >= 0,
        ;
        assert(len >= 1) by (nonlinear_arith)
            requires
                len * len >= d_sq,
                d_sq >= 1,
                len >= 0,
        ;
        let q = (m * speed) / len;
        assert(q >= 1) by (nonlinear_arith)
            requires
                q == (m * speed) / len,
                1 <= len <= 2 * m,
                speed >= 2,
                m >= 1,
        ;
        assert(m * speed >= 0) by (nonlinear_arith)
            requires
                m >= 0,
                speed >= 0,
        ;
        if ax >= ay {
            assert(dx * speed == if dx >= 0 {
                m * speed
            } else {
                -(m * speed)
            }) by (nonlinear_arith)
                requires
                    m == if dx >= 0 {
                        dx
                    } else {
                        -dx
                    },
            ;
            assert(scale_component(dx, speed, len) != 0);
        } else {
            assert(dy * speed == if dy >= 0 {
                m * speed
            } else {
                -(m * speed)
            }) by (nonlinear_arith)
                requires
                    m == if dy >= 0 {
                        dy
                    } else {
                        -dy
                    },
            ;
            assert(scale_component(dy, speed, len) != 0);
        }
    }
}

/// The way over a point between is no shorter than the way straight across:
/// a displacement no longer than `p` followed by one no longer than `q` is no
/// longer than `p + q`.
pub proof fn lemma_triangle(a: int, b: int, c: int, d: int, p: int, q: int)
    requires
        a * a + b * b <= p * p,
        c * c + d * d <= q * q,
        p >= 0,
        q >= 0,
    ensures
        (a + c) * (a + c) + (b + d) * (b + d) <= (p + q) * (p + q),
{
    let first = a * a + b * b;
    let second = c * c + d * d;
    let s = a * c + b * d;
    assert(first >= 0 && second >= 0) by (nonlinear_arith)
        requires
            first == a * a + b * b,
            second == c * c + d * d,
    ;
    let aa = a * a;
    let bb = b * b;
    let cc = c * c;
    let dd = d * d;
    let ac = a * c;
    let bd = b * d;
    let ad = a * d;
    let bc = b * c;
    assert(aa * cc == ac * ac) by (nonlinear_arith)
        requires
            aa == a * a,
            cc == c * c,
            ac == a * c,
    ;
    assert(bb * dd == bd * bd) by (nonlinear_arith)
        requires
            bb == b * b,
            dd == d * d,
            bd == b * d,
    ;
    assert(aa * dd == ad * ad) by (nonlinear_arith)
        requires
            aa == a * a,
            dd == d * d,
            ad == a * d,
    ;
    assert(bb * cc == bc * bc) by (nonlinear_arith)
        requires
            bb == b * b,
            cc == c * c,
            bc == b * c,
    ;
    assert(ad * bc == ac * bd) by (nonlinear_arith)
        requires
            ad == a * d,
            bc == b * c,
            ac == a * c,
            bd == b * d,
    ;
    assert(first * second == aa * cc + aa * dd + bb * cc + bb * dd) by (nonlinear_arith)
        requires
            first == aa + bb,
            second == cc + dd,
    ;
    assert(s * s == ac * ac + 2 * (ac * bd) + bd * bd) by (nonlinear_arith)
        requires
            s == ac + bd,
    ;
    let cross = ad - bc;
    assert(cross * cross == ad * ad - 2 * (ad * bc) + bc * bc) by (nonlinear_arith)
        requires
            cross == ad - bc,
    ;
    assert(cross * cross >= 0) by (nonlinear_arith);
    assert(first * second - s * s == cross * cross);
    assert(first * second <= (p * q) * (p * q)) by (nonlinear_arith)
        requires
            0 <= first <= p * p,
            0 <= second <= q * q,
    ;
    assert(s <= p * q) by (nonlinear_arith)
        requires
            s * s <= (p * q) * (p * q),
            p >= 0,
            q >= 0,
    ;
    assert((a + c) * (a + c) + (b + d) * (b + d) == first + second + 2 * s) by (nonlinear_arith)
        requires
            first == a * a + b * b,
            second == c * c + d * d,
            s == a * c + b * d,
    ;
    assert((p + q) * (p + q) == p * p + q * q + 2 * (p * q)) by (nonlinear_arith);
}

/// An attacker that has reached its approach point stands no farther from the
/// target than the range it closed to, for a range of zero or more.
pub proof fn lemma_approach_point_in_range(pos: Point, target: Point, range: int)
    requires
        range >= 0,
    ensures
        dist_sq(approach_point(pos, target, range), target) <= range * range,
        sq_below(dist_sq(pos, target), range) ==> approach_point(pos, target, range) == pos,
{
    let dx = target.x - pos.x;
    let dy = target.y - pos.y;
    lemma_clamp_length_bounds(dx, dy, range);
    let c = clamp_length(dx, dy, range);
    let p = approach_point(pos, target, range);
    assert(p.x == target.x - c.0);
    assert(p.y == target.y - c.1);
}

/// The square root of `n`, rounded up.
pub fn ceil_sqrt_u128(n: u128) -> (r: u128)
    ensures
        is_ceil_sqrt(n as int, r as int),
        r == ceil_sqrt(n as int),
        r <= 0x1_0000_0000_0000_0000,
{
    if n == 0 {
        proof {
            lemma_ceil_sqrt_unique(0, 0, 0);
        }
        return 0;
    }
    let mut lo: u128 = 0;
    let mut hi: u128 = 0x1_0000_0000_0000_0000;
    assert(hi * hi >= n) by (nonlinear_arith)
        requires
            hi == 0x1_0000_0000_0000_0000,
            n <= u128::MAX,
    ;
    while hi - lo > 1
        invariant
            lo < hi <= 0x1_0000_0000_0000_0000,
            lo * lo < n,
            hi * hi >= n,
        decreases hi - lo,
    {
        let mid: u128 = lo + (hi - lo) / 2;
        assert(mid * mid <= 0xffff_ffff_ffff_ffff * 0xffff_ffff_ffff_ffff) by (nonlinear_arith)
            requires
                0 <= mid <= 0xffff_ffff_ffff_ffff,
        ;
        if mid * mid < n {
            lo = mid;
        } else {
            hi = mid;
        }
    }
    proof {
        assert(hi == lo + 1);
        lemma_ceil_sqrt_unique(n as int, hi as int, hi as int);
    }
    hi
}

/// `v` held to the range of `i64`.
pub fn clamp_to_i64(v: i128) -> (r: i64)
    ensures
        r == clamp_i64(v as int),
{
    if v < i64::MIN as i128 {
        i64::MIN
    } else if v > i64::MAX as i128 {
        i64::MAX
    } else {
        v as i64
    }
}

/// `v` held to the range of `i32`.
pub fn clamp_to_i32(v: i128) -> (r: i32)
    ensures
        r == clamp_i32(v as int),
{
    if v < i32::MIN as i128 {
        i32::MIN
    } else if v > i32::MAX as i128 {
        i32::MAX
    } else {
        v as i32
    }
}

pub fn is_below(d_sq: u128, bound: i32) -> (b: bool)
    ensures
        b == sq_below(d_sq as int, bound as int),
{
    if bound <= 0 {
        false
    } else {
        let bound_wide: u128 = bound as u128;
        assert(bound_wide * bound_wide <= 0x7fff_ffff * 0x7fff_ffff) by (nonlinear_arith)
            requires
                0 <= bound_wide <= 0x7fff_ffff,
        ;
        d_sq < bound_wide * bound_wide
    }
}

fn scale(d: i64, r: i32, len: u128) -> (s: i128)
    requires
        -0xffff_ffff <= d <= 0xffff_ffff,
        len <= 0x1_0000_0000_0000_0000,
    ensures
        s == scale_component(d as int, r as int, len as int),
        -0x8000_0000_0000_0000 <= s <= 0x8000_0000_0000_0000,
{
    if len == 0 {
        0
    } else {
        let dw: i128 = d as i128;
        let rw: i128 = r as i128;
        assert(-0x8000_0000_0000_0000 <= dw * rw <= 0x8000_0000_0000_0000) by (nonlinear_arith)
            requires
                -0xffff_ffff <= dw <= 0xffff_ffff,
                -0x8000_0000 <= rw <= 0x7fff_ffff,
        ;
        let prod: i128 = dw * rw;
        prod / (len as i128)
    }
}

fn clamp_length_exec(dx: i64, dy: i64, limit: i32) -> (r: (i128, i128))
    requires
        -0xffff_ffff <= dx <= 0xffff_ffff,
        -0xffff_ffff <= dy <= 0xffff_ffff,
    ensures
        (r.0 as int, r.1 as int) == clamp_length(dx as int, dy as int, limit as int),
        -0x8000_0000_0000_0000 <= r.0 <= 0x8000_0000_0000_0000,
        -0x8000_0000_0000_0000 <= r.1 <= 0x8000_0000_0000_0000,
{
    let dxw: i128 = dx as i128;
    let dyw: i128 = dy as i128;
    assert(0 <= dxw * dxw <= 0xffff_ffff * 0xffff_ffff) by (nonlinear_arith)
        requires
            -0xffff_ffff <= dxw <= 0xffff_ffff,
    ;
    assert(0 <= dyw * dyw <= 0xffff_ffff * 0xffff_ffff) by (nonlinear_arith)
        requires
            -0xffff_ffff <= dyw <= 0xffff_ffff,
    ;
    let d_sq: u128 = (dxw * dxw + dyw * dyw) as u128;
    if is_below(d_sq, limit) {
        (dxw, dyw)
    } else {
        let len = ceil_sqrt_u128(d_sq);
        (scale(dx, limit, len), scale(dy, limit, len))
    }
}

impl Point {
    /// The squared distance from `self` to `other`.
    pub fn distance_squared(&self, other: &Point) -> (d: u128)
        ensures
            d == dist_sq(*self, *other),
    {
        let dx: i128 = other.x as i128 - self.x as i128;
        let dy: i128 = other.y as i128 - self.y as i128;
        assert(0 <= dx * dx <= 0xffff_ffff * 0xffff_ffff) by (nonlinear_arith)
            requires
                -0xffff_ffff <= dx <= 0xffff_ffff,
        ;
        assert(0 <= dy * dy <= 0xffff_ffff * 0xffff_ffff) by (nonlinear_arith)
            requires
                -0xffff_ffff <= dy <= 0xffff_ffff,
        ;
        (dx * dx + dy * dy) as u128
    }

    /// Whether `other` lies strictly closer to `self` than `bound`.
    pub fn is_within(&self, other: &Point, bound: i32) -> (b: bool)
        ensures
            b == sq_below(dist_sq(*self, *other), bound as int),
    {
        is_below(self.distance_squared(other), bound)
    }

    /// The point to walk to in order to stand `range` away from `target`.
    pub fn approach(&self, target: &Point, range: i32) -> (p: Point)
        ensures
            p == approach_point(*self, *target, range as int),
    {
        let dx: i64 = target.x as i64 - self.x as i64;
        let dy: i64 = target.y as i64 - self.y as i64;
        let back = clamp_length_exec(dx, dy, range);
        Point {
            x: clamp_to_i32(target.x as i128 - back.0),
            y: clamp_to_i32(target.y as i128 - back.1),
        }
    }
}

/// Moves `pos` one step of at most `speed` toward `dest` and says which side the
/// walker now faces: the side of the step's horizontal part, or `None` where it
/// has none.
pub fn move_transform_to(pos: &mut Point, dest: &Point, speed: i32) -> (face: Option<
    AnimationFaceDir,
>)
    ensures
        *final(pos) == step_toward(*old(pos), *dest, speed as int),
        face == step_face(*old(pos), *final(pos)),
{
    let dx: i64 = dest.x as i64 - pos.x as i64;
    let dy: i64 = dest.y as i64 - pos.y as i64;
    let step = clamp_length_exec(dx, dy, speed);
    let before_x: i32 = pos.x;
    pos.x = clamp_to_i32(pos.x as i128 + step.0);
    pos.y = clamp_to_i32(pos.y as i128 + step.1);
    if pos.x > before_x {
        Some(AnimationFaceDir::Right)
    } else if pos.x < before_x {
        Some(AnimationFaceDir::Left)
    } else {
        None
    }
}

} // verus!
