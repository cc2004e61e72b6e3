//! Planar points, world bounds and the axis-aligned overlap test.

use vstd::prelude::*;

verus! {

use vstd::math::abs;

/// A point or an extent in playfield coordinates, in milli-units
/// (one thousandth of a world unit).
#[derive(Clone, Copy, PartialEq, Eq, Structural, Debug)]
pub struct Vec2i {
    pub x: i64,
    pub y: i64,
}

/// Largest coordinate magnitude an entity position may carry.
pub const POS_LIMIT: i64 = 100_000_000;

/// Largest width or height an entity extent may carry.
pub const SIZE_LIMIT: i64 = 10_000_000;

/// The point lies within the world bounds.
pub open spec fn in_world(p: Vec2i) -> bool {
    -POS_LIMIT <= p.x <= POS_LIMIT && -POS_LIMIT <= p.y <= POS_LIMIT
}

/// The extent is a sane width/height pair.
pub open spec fn valid_size(s: Vec2i) -> bool {
    0 <= s.x <= SIZE_LIMIT && 0 <= s.y <= SIZE_LIMIT
}

/// Two axis-aligned boxes, given by their centers and full extents,
/// overlap with positive area: on each axis the distance between the
/// centers, doubled, falls strictly inside the sum of the extents.
pub open spec fn boxes_overlap(a: Vec2i, a_size: Vec2i, b: Vec2i, b_size: Vec2i) -> bool {
    &&& -(a_size.x + b_size.x) < 2 * (a.x - b.x) < a_size.x + b_size.x
    &&& -(a_size.y + b_size.y) < 2 * (a.y - b.y) < a_size.y + b_size.y
}

/// Axis-aligned overlap test between two boxes given by center and full
/// extent.
pub fn aabb_overlap(a: Vec2i, a_size: Vec2i, b: Vec2i, b_size: Vec2i) -> (r: bool)
    requires
        in_world(a),
        in_world(b),
        valid_size(a_size),
        valid_size(b_size),
    ensures
        r == boxes_overlap(a, a_size, b, b_size),
{
    let dx: i64 = 2 * (a.x - b.x);
    let dy: i64 = 2 * (a.y - b.y);
    let wx: i64 = a_size.x + b_size.x;
    let wy: i64 = a_size.y + b_size.y;
    -wx < dx && dx < wx && -wy < dy && dy < wy
}

/// Largest step an entity may take in one tick, in milli-units.
pub const SPEED_LIMIT: i64 = 500_000;

/// `mid` lies between `a` and `b` inclusive, whichever way round.
pub open spec fn between(a: int, mid: int, b: int) -> bool {
    (a <= mid <= b) || (b <= mid <= a)
}

/// Integer square root: the largest `r` with `r * r <= n`.
pub open spec fn sqrt_floor(n: nat) -> nat
    decreases n,
{
    if n == 0 {
        0
    } else {
        let r = sqrt_floor((n - 1) as nat);
        if (r + 1) * (r + 1) <= n {
            r + 1
        } else {
            r
        }
    }
}

/// The integer square root brackets its argument between consecutive
/// squares.
pub proof fn lemma_sqrt_floor_bounds(n: nat)
    ensures
        sqrt_floor(n) * sqrt_floor(n) <= n,
        n < (sqrt_floor(n) + 1) * (sqrt_floor(n) + 1),
    decreases n,
{
    if n == 0 {
        assert(sqrt_floor(n) == 0);
        assert(sqrt_floor(n) * sqrt_floor(n) == 0 && (sqrt_floor(n) + 1) * (sqrt_floor(n) + 1)
            == 1) by (nonlinear_arith)
            requires
                sqrt_floor(n) == 0,
        ;
    } else {
        lemma_sqrt_floor_bounds((n - 1) as nat);
        let r = sqrt_floor((n - 1) as nat);
        assert(r * r <= n - 1);
        assert(n - 1 < (r + 1) * (r + 1));
        if (r + 1) * (r + 1) <= n {
            assert(sqrt_floor(n) == r + 1);
            assert(n == (r + 1) * (r + 1));
            assert((r + 1) * (r + 1) < (r + 2) * (r + 2)) by (nonlinear_arith)
                requires
                    r >= 0,
            ;
        } else {
            assert(sqrt_floor(n) == r);
        }
    }
}

/// A value bracketed between consecutive squares is the integer square
/// root.
pub proof fn lemma_sqrt_floor_unique(n: nat, r: nat)
    requires
        r * r <= n,
        n < (r + 1) * (r + 1),
    ensures
        r == sqrt_floor(n),
{
    let s = sqrt_floor(n);
    lemma_sqrt_floor_bounds(n);
    if r < s {
        assert((r + 1) * (r + 1) <= s * s) by (nonlinear_arith)
            requires
                0 <= r,
                r + 1 <= s,
        ;
    }
    if s < r {
        assert((s + 1) * (s + 1) <= r * r) by (nonlinear_arith)
            requires
                0 <= s,
                s + 1 <= r,
        ;
    }
}

/// Integer square root by bisection.
pub fn isqrt(n: u64) -> (r: u64)
    ensures
        r == sqrt_floor(n as nat),
{
    let mut lo: u64 = 0;
    let mut hi: u64 = 0x1_0000_0000;
    while lo + 1 < hi
        invariant
            lo < hi <= 0x1_0000_0000,
            (lo as int) * (lo as int) <= n as int,
            (n as int) < (hi as int) * (hi as int),
        decreases hi - lo,
    {
        let mid: u64 = lo + (hi - lo) / 2;
        assert((mid as int) * (mid as int) < 0x1_0000_0000_0000_0000) by (nonlinear_arith)
            requires
                0 <= mid < 0x1_0000_0000,
        ;
        if mid * mid <= n {
            lo = mid;
        } else {
            hi = mid;
        }
    }
    proof {
        lemma_sqrt_floor_unique(n as nat, lo as nat);
    }
    lo
}

/// Squared Euclidean distance between two points.
pub open spec fn dist_sq(a: Vec2i, b: Vec2i) -> int {
    (a.x - b.x) * (a.x - b.x) + (a.y - b.y) * (a.y - b.y)
}

/// One clamped move of a single coordinate: from `org` toward `dst` by
/// `m`, stopping at `dst` rather than passing it.
pub open spec fn coord_step(org: int, dst: int, m: int) -> int {
    if org > dst {
        if org - m >= dst {
            org - m
        } else {
            dst
        }
    } else if org < dst {
        if org + m <= dst {
            org + m
        } else {
            dst
        }
    } else {
        org
    }
}

/// The clamped pursuit step: each coordinate moves toward `dst` by the
/// fraction `max_step / dist` of its delta, where `dist` is the integer
/// square root of the squared distance, clamped at `dst`.  At distance
/// zero nothing moves.
pub open spec fn pursuit_step(org: Vec2i, dst: Vec2i, max_step: int) -> Vec2i {
    let d = sqrt_floor(dist_sq(org, dst) as nat) as int;
    if d == 0 {
        org
    } else {
        Vec2i {
            x: coord_step(org.x as int, dst.x as int, (abs(org.x - dst.x) * max_step) / d) as i64,
            y: coord_step(org.y as int, dst.y as int, (abs(org.y - dst.y) * max_step) / d) as i64,
        }
    }
}

/// The integer distance between two points: the square root of the
/// squared distance, rounded down.
pub fn distance(a: Vec2i, b: Vec2i) -> (r: u64)
    requires
        in_world(a),
        in_world(b),
    ensures
        r == sqrt_floor(dist_sq(a, b) as nat),
{
    let dx: i64 = a.x - b.x;
    let dy: i64 = a.y - b.y;
    let adx: i64 = if dx < 0 {
        -dx
    } else {
        dx
    };
    let ady: i64 = if dy < 0 {
        -dy
    } else {
        dy
    };
    proof {
        assert(adx * adx == dx * dx && ady * ady == dy * dy) by (nonlinear_arith)
            requires
                adx == if dx < 0 { -dx as int } else { dx as int },
                ady == if dy < 0 { -dy as int } else { dy as int },
        ;
        assert(0 <= adx * adx + ady * ady <= 2 * 200_000_000 * 200_000_000) by (nonlinear_arith)
            requires
                0 <= adx <= 200_000_000,
                0 <= ady <= 200_000_000,
        ;
    }
    let sq: u64 = (adx * adx + ady * ady) as u64;
    isqrt(sq)
}

/// Moves `org` toward `dst` by at most `max_step` along the connecting
/// line, never overshooting `dst` on either axis.
pub fn step_toward(org: Vec2i, dst: Vec2i, max_step: i64) -> (p: Vec2i)
    requires
        in_world(org),
        in_world(dst),
        0 <= max_step <= SPEED_LIMIT,
    ensures
        p == pursuit_step(org, dst, max_step as int),
        between(org.x as int, p.x as int, dst.x as int),
        between(org.y as int, p.y as int, dst.y as int),
        abs(p.x - dst.x) <= abs(org.x - dst.x),
        abs(p.y - dst.y) <= abs(org.y - dst.y),
        in_world(p),
        org == dst ==> p == org,
    {
    let dx: i64 = org.x - dst.x;
    let dy: i64 = org.y - dst.y;
    let adx: i64 = if dx < 0 {
        -dx
    } else {
        dx
    };
    let ady: i64 = if dy < 0 {
        -dy
    } else {
        dy
    };
    proof {
        assert(adx * adx == dx * dx && ady * ady == dy * dy) by (nonlinear_arith)
            requires
                adx == if dx < 0 { -dx as int } else { dx as int },
                ady == if dy < 0 { -dy as int } else { dy as int },
        ;
        assert(0 <= adx * adx + ady * ady <= 2 * 200_000_000 * 200_000_000) by (nonlinear_arith)
            requires
                0 <= adx <= 200_000_000,
                0 <= ady <= 200_000_000,
        ;
    }
    let sq: u64 = (adx * adx + ady * ady) as u64;
    let d: u64 = isqrt(sq);
    if d == 0 {
        proof {
            lemma_sqrt_floor_bounds(sq as nat);
            assert(sq as int == 0) by (nonlinear_arith)
                requires
                    sqrt_floor(sq as nat) == 0,
                    (sq as int) < ((sqrt_floor(sq as nat) + 1) * (sqrt_floor(sq as nat) + 1)),
                    (sq as int) >= 0,
            ;
            assert(dx == 0 && dy == 0) by (nonlinear_arith)
                requires
                    dx * dx + dy * dy == 0,
            ;
        }
        org
    } else {
        proof {
            assert(0 <= adx * max_step <= 200_000_000 * 500_000) by (nonlinear_arith)
                requires
                    0 <= adx <= 200_000_000,
                    0 <= max_step <= 500_000,
            ;
            assert(0 <= ady * max_step <= 200_000_000 * 500_000) by (nonlinear_arith)
                requires
                    0 <= ady <= 200_000_000,
                    0 <= max_step <= 500_000,
            ;
            vstd::arithmetic::div_mod::lemma_div_is_ordered(
                adx * max_step,
                (200_000_000 * 500_000) as int,
                d as int,
            );
            vstd::arithmetic::div_mod::lemma_div_is_ordered(
                ady * max_step,
                (200_000_000 * 500_000) as int,
                d as int,
            );
            vstd::arithmetic::div_mod::lemma_div_nonincreasing((200_000_000 * 500_000) as int, d as int);
        }
        let mx: i64 = (((adx * max_step) as u64) / d) as i64;
        let my: i64 = (((ady * max_step) as u64) / d) as i64;
        let px: i64 = if dx > 0 {
            let t: i64 = org.x - mx;
            if t >= dst.x {
                t
            } else {
                dst.x
            }
        } else if dx < 0 {
            let t: i64 = org.x + mx;
            if t <= dst.x {
                t
            } else {
                dst.x
            }
        } else {
            org.x
        };
        let py: i64 = if dy > 0 {
            let t: i64 = org.y - my;
            if t >= dst.y {
                t
            } else {
                dst.y
            }
        } else if dy < 0 {
            let t: i64 = org.y + my;
            if t <= dst.y {
                t
            } else {
                dst.y
            }
        } else {
            org.y
        };
        proof {
            vstd::arithmetic::div_mod::lemma_div_pos_is_pos((adx * max_step) as int, d as int);
            vstd::arithmetic::div_mod::lemma_div_pos_is_pos((ady * max_step) as int, d as int);
        }
        Vec2i { x: px, y: py }
    }
}

} // verus!
