//! Fixed-point trigonometry on centi-degree angles.
//!
//! Angles are integers in centi-degrees (one hundredth of a degree), kept
//! normalized into `[0, ANGLE_FULL)`.  Sine and cosine are rational
//! approximations scaled by `TRIG_ONE`; they are exact at the quarter-turn
//! points and never leave `[-TRIG_ONE, TRIG_ONE]`.

use vstd::prelude::*;

verus! {

use vstd::arithmetic::div_mod::{lemma_div_is_ordered, lemma_div_multiples_vanish, lemma_div_pos_is_pos};

/// Centi-degrees in a full turn.
pub const ANGLE_FULL: i64 = 36000;

/// Centi-degrees in a half turn.
pub const ANGLE_HALF: i64 = 18000;

/// Centi-degrees in a quarter turn.
pub const ANGLE_QUARTER: i64 = 9000;

/// Fixed-point scale: this value stands for one.
pub const TRIG_ONE: i64 = 10000;

/// The angle lies in the normalized range of one full turn.
pub open spec fn angle_norm(a: int) -> bool {
    0 <= a < ANGLE_FULL
}

/// Half-turn sine kernel: for `a` in `[0, ANGLE_HALF]` centi-degrees,
/// `4 p / (405_000_000 - p)` with `p = a (ANGLE_HALF - a)`, scaled by
/// `TRIG_ONE`.  This rational form is zero at both ends of the half turn
/// and exactly `TRIG_ONE` at the quarter turn.
pub open spec fn sine_half(a: int) -> int {
    let p = a * (ANGLE_HALF - a);
    (4 * TRIG_ONE * p) / (405_000_000 - p)
}

/// Fixed-point sine of a normalized centi-degree angle.
pub open spec fn sine(a: int) -> int {
    if a < ANGLE_HALF {
        sine_half(a)
    } else {
        -sine_half(a - ANGLE_HALF)
    }
}

/// Fixed-point cosine of a normalized centi-degree angle: the sine a
/// quarter turn ahead.
pub open spec fn cosine(a: int) -> int {
    sine(
        if a + ANGLE_QUARTER < ANGLE_FULL {
            a + ANGLE_QUARTER
        } else {
            a + ANGLE_QUARTER - ANGLE_FULL
        },
    )
}

/// The half-turn kernel stays within `[0, TRIG_ONE]`.
pub proof fn lemma_sine_half_bounds(a: int)
    requires
        0 <= a <= ANGLE_HALF,
    ensures
        0 <= sine_half(a) <= TRIG_ONE,
{
    assert(0 <= a * (18000 - a) <= 81_000_000) by (nonlinear_arith)
        requires
            0 <= a <= 18000,
    {
        assert((a - 9000) * (a - 9000) >= 0);
    }
    let p = a * (ANGLE_HALF - a);
    let num = 4 * TRIG_ONE * p;
    let den = 405_000_000 - p;
    assert(den >= 324_000_000);
    lemma_div_pos_is_pos(num, den);
    assert(5 * p <= 405_000_000);
    assert(num == 40000 * p);
    assert(TRIG_ONE * den == 10000 * (405_000_000 - p)) by (nonlinear_arith)
        requires
            den == 405_000_000 - p,
    ;
    assert(num <= TRIG_ONE * den);
    lemma_div_is_ordered(num, TRIG_ONE * den, den);
    lemma_div_multiples_vanish(TRIG_ONE as int, den);
    assert((TRIG_ONE * den) / den == TRIG_ONE);
}

/// Half-turn sine kernel on `[0, ANGLE_HALF]`.
fn sine_half_fp(a: i64) -> (r: i64)
    requires
        0 <= a <= ANGLE_HALF,
    ensures
        r == sine_half(a as int),
        0 <= r <= TRIG_ONE,
{
    proof {
        lemma_sine_half_bounds(a as int);
        assert(0 <= (a as int) * (18000 - a as int) <= 81_000_000) by (nonlinear_arith)
            requires
                0 <= a as int <= 18000,
        {
            assert((a as int - 9000) * (a as int - 9000) >= 0);
        }
    }
    let p: i64 = a * (ANGLE_HALF - a);
    let num: u64 = (4 * TRIG_ONE * p) as u64;
    let den: u64 = (405_000_000 - p) as u64;
    (num / den) as i64
}

/// Fixed-point sine of a normalized centi-degree angle.
pub fn sine_fp(a: i64) -> (r: i64)
    requires
        angle_norm(a as int),
    ensures
        r == sine(a as int),
        -TRIG_ONE <= r <= TRIG_ONE,
{
    if a < ANGLE_HALF {
        sine_half_fp(a)
    } else {
        -sine_half_fp(a - ANGLE_HALF)
    }
}

/// Fixed-point cosine of a normalized centi-degree angle.
pub fn cosine_fp(a: i64) -> (r: i64)
    requires
        angle_norm(a as int),
    ensures
        r == cosine(a as int),
        -TRIG_ONE <= r <= TRIG_ONE,
{
    let b: i64 = if a + ANGLE_QUARTER < ANGLE_FULL {
        a + ANGLE_QUARTER
    } else {
        a + ANGLE_QUARTER - ANGLE_FULL
    };
    sine_fp(b)
}

/// A sum of a normalized angle and a step of less than one turn, brought
/// back into the normalized range.
pub open spec fn angle_wrap(s: int) -> int {
    if s < 0 {
        s + ANGLE_FULL
    } else if s >= ANGLE_FULL {
        s - ANGLE_FULL
    } else {
        s
    }
}

/// Adds a bounded step to a normalized angle and renormalizes, shifting
/// by at most one full turn.
pub fn angle_add(a: i64, delta: i64) -> (r: i64)
    requires
        angle_norm(a as int),
        -ANGLE_FULL < delta < ANGLE_FULL,
    ensures
        angle_norm(r as int),
        r == angle_wrap(a + delta),
{
    let s: i64 = a + delta;
    if s < 0 {
        s + ANGLE_FULL
    } else if s >= ANGLE_FULL {
        s - ANGLE_FULL
    } else {
        s
    }
}

/// Scales a fixed-point product back down by `TRIG_ONE`, truncating
/// toward zero as the host arithmetic does.
pub open spec fn fp_scale(v: int) -> int {
    if v >= 0 {
        v / (TRIG_ONE as int)
    } else {
        -((-v) / (TRIG_ONE as int))
    }
}

/// A product bounded by `b` times the scale scales down to within `b`.
pub proof fn lemma_fp_scale_bound(v: int, b: int)
    requires
        0 <= b,
        -(b * TRIG_ONE) <= v <= b * TRIG_ONE,
    ensures
        -b <= fp_scale(v) <= b,
{
    if v >= 0 {
        lemma_div_pos_is_pos(v, TRIG_ONE as int);
        lemma_div_is_ordered(v, b * TRIG_ONE, TRIG_ONE as int);
        lemma_div_multiples_vanish(b, TRIG_ONE as int);
    } else {
        lemma_div_pos_is_pos(-v, TRIG_ONE as int);
        lemma_div_is_ordered(-v, b * TRIG_ONE, TRIG_ONE as int);
        lemma_div_multiples_vanish(b, TRIG_ONE as int);
    }
}

/// Fixed-point scale-down on machine integers.
pub fn fp_scale_fp(v: i64) -> (r: i64)
    requires
        -2_000_000_000_000 <= v <= 2_000_000_000_000,
    ensures
        r == fp_scale(v as int),
{
    proof {
        if v >= 0 {
            vstd::arithmetic::div_mod::lemma_div_pos_is_pos(v as int, TRIG_ONE as int);
            vstd::arithmetic::div_mod::lemma_div_nonincreasing(v as int, TRIG_ONE as int);
        } else {
            vstd::arithmetic::div_mod::lemma_div_pos_is_pos(-(v as int), TRIG_ONE as int);
            vstd::arithmetic::div_mod::lemma_div_nonincreasing(-(v as int), TRIG_ONE as int);
        }
    }
    if v >= 0 {
        ((v as u64) / (TRIG_ONE as u64)) as i64
    } else {
        -(((-v) as u64 / (TRIG_ONE as u64)) as i64)
    }
}

/// Octant-folded arc tangent kernel: the angle of the ray to `(ax, ay)`
/// with both coordinates nonnegative, linearly interpolated within each
/// octant, in centi-degrees within `[0, ANGLE_QUARTER]`.
pub open spec fn arctan_octant(ay: int, ax: int) -> int {
    if ax >= ay {
        if ax == 0 {
            0
        } else {
            (4500 * ay) / ax
        }
    } else {
        9000 - (4500 * ax) / ay
    }
}

/// Piecewise-linear arc tangent of two arguments: the centi-degree angle
/// of the ray from the origin to `(x, y)`, in `[-ANGLE_HALF, ANGLE_HALF]`.
pub open spec fn arctan2(y: int, x: int) -> int {
    let q = arctan_octant(vstd::math::abs(y) as int, vstd::math::abs(x) as int);
    if x >= 0 && y >= 0 {
        q
    } else if x < 0 && y >= 0 {
        ANGLE_HALF - q
    } else if x < 0 {
        q - ANGLE_HALF
    } else {
        -q
    }
}

/// The octant kernel stays within one quarter turn.
pub proof fn lemma_arctan_octant_bounds(ay: int, ax: int)
    requires
        0 <= ay,
        0 <= ax,
    ensures
        0 <= arctan_octant(ay, ax) <= ANGLE_QUARTER,
{
    if ax >= ay {
        if ax != 0 {
            lemma_div_pos_is_pos(4500 * ay, ax);
            assert(4500 * ay <= 4500 * ax) by (nonlinear_arith)
                requires
                    ay <= ax,
            ;
            lemma_div_is_ordered(4500 * ay, 4500 * ax, ax);
            lemma_div_multiples_vanish(4500, ax);
        }
    } else {
        lemma_div_pos_is_pos(4500 * ax, ay);
        assert(4500 * ax <= 4500 * ay) by (nonlinear_arith)
            requires
                ax <= ay,
        ;
        lemma_div_is_ordered(4500 * ax, 4500 * ay, ay);
        lemma_div_multiples_vanish(4500, ay);
    }
}

/// Octant kernel on machine integers.
fn arctan_octant_fp(ay: i64, ax: i64) -> (r: i64)
    requires
        0 <= ay <= 1_000_000_000,
        0 <= ax <= 1_000_000_000,
    ensures
        r == arctan_octant(ay as int, ax as int),
        0 <= r <= ANGLE_QUARTER,
{
    proof {
        lemma_arctan_octant_bounds(ay as int, ax as int);
    }
    if ax >= ay {
        if ax == 0 {
            0
        } else {
            (((4500 * ay) as u64) / (ax as u64)) as i64
        }
    } else {
        9000 - (((4500 * ax) as u64) / (ay as u64)) as i64
    }
}

/// Piecewise-linear arc tangent of two arguments, in centi-degrees.
pub fn arctan2_fp(y: i64, x: i64) -> (r: i64)
    requires
        -1_000_000_000 <= y <= 1_000_000_000,
        -1_000_000_000 <= x <= 1_000_000_000,
    ensures
        r == arctan2(y as int, x as int),
        -ANGLE_HALF <= r <= ANGLE_HALF,
{
    let ay: i64 = if y < 0 {
        -y
    } else {
        y
    };
    let ax: i64 = if x < 0 {
        -x
    } else {
        x
    };
    let q: i64 = arctan_octant_fp(ay, ax);
    if x >= 0 && y >= 0 {
        q
    } else if x < 0 && y >= 0 {
        ANGLE_HALF - q
    } else if x < 0 {
        q - ANGLE_HALF
    } else {
        -q
    }
}

} // verus!
