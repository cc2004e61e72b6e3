//! Enemy entities and their per-tick formation-arc motion.
//!
//! Each tick an enemy steers for the point of its formation's ellipse at
//! a tentatively advanced phase angle, moves toward it by at most its
//! speed without overshooting, and commits the angle advance only once it
//! is close enough to the target; far away the angle holds, so the enemy
//! keeps approaching the same point instead of letting the angle run off.

use vstd::prelude::*;

verus! {

use crate::config::{Config, Speed};
use crate::formation::{Formation, formation_wf};
use crate::geom::{Vec2i, dist_sq, pursuit_step, sqrt_floor, step_toward, distance, SPEED_LIMIT};
use crate::trig::{angle_wrap, cosine, sine, fp_scale, fp_scale_fp, cosine_fp, sine_fp, angle_add, lemma_fp_scale_bound, TRIG_ONE};
use vstd::arithmetic::div_mod::{lemma_div_pos_is_pos, lemma_div_is_ordered, lemma_div_is_ordered_by_denominator};

/// Largest coordinate magnitude an enemy can reach: spawn edges and
/// ellipse targets both stay well inside it.
pub const ENEMY_POS_LIMIT: i64 = 20_000_000;

/// An enemy entity.
#[derive(Clone, Copy, PartialEq, Eq, Structural, Debug)]
pub struct Enemy {
    /// Center of the enemy's box.
    pub pos: Vec2i,
    /// Collision extent.
    pub size: Vec2i,
    /// Step per tick along the pursuit line.
    pub speed: Speed,
    /// The enemy's own copy of its formation, with its own phase angle.
    pub formation: Formation,
}

/// The enemy is within its travel range and carries the configured
/// extent, a sane speed and a well-formed formation.
pub open spec fn enemy_wf(e: Enemy, cfg: Config) -> bool {
    &&& -ENEMY_POS_LIMIT <= e.pos.x <= ENEMY_POS_LIMIT
    &&& -ENEMY_POS_LIMIT <= e.pos.y <= ENEMY_POS_LIMIT
    &&& e.size == cfg.enemy_size
    &&& 0 < e.speed.0 <= SPEED_LIMIT
    &&& formation_wf(e.formation)
}

/// Per-tick advance of the phase angle, in centi-degrees: the tick's
/// travel distance normalized by the smaller orbit radius.
pub open spec fn angle_step(speed_step: int, min_radius: int) -> int {
    3648 * speed_step / min_radius
}

/// The smaller of the two orbit radii.
pub open spec fn min_radius(f: Formation) -> int {
    if f.radius.x <= f.radius.y {
        f.radius.x as int
    } else {
        f.radius.y as int
    }
}

/// Direction of angular travel: forward for formations that started on
/// the right edge, backward otherwise.
pub open spec fn turn_dir(f: Formation) -> int {
    if f.start.x > 0 {
        1
    } else {
        -1
    }
}

/// The angle the enemy steers for this tick.
pub open spec fn tentative_angle(e: Enemy) -> int {
    angle_wrap(
        e.formation.angle + turn_dir(e.formation) * angle_step(
            e.speed.0 as int,
            min_radius(e.formation),
        ),
    )
}

/// The point of a formation's ellipse at a phase angle.
pub open spec fn ellipse_point(f: Formation, a: int) -> Vec2i {
    Vec2i {
        x: (fp_scale(f.radius.x * cosine(a)) + f.offset.x) as i64,
        y: (fp_scale(f.radius.y * sine(a)) + f.offset.y) as i64,
    }
}

/// Distance under which the phase angle commits its tentative advance:
/// the tick's step times the per-second speed over twenty.
pub open spec fn advance_threshold(speed_step: int) -> int {
    speed_step * speed_step * 3 / 1000
}

/// One motion tick of an enemy: pursue the ellipse point at the
/// tentatively advanced angle, clamped at the target, and commit the
/// angle only when already within the advance threshold of that point.
pub open spec fn enemy_step(e: Enemy) -> Enemy {
    let a = tentative_angle(e);
    let target = ellipse_point(e.formation, a);
    let d = sqrt_floor(dist_sq(e.pos, target) as nat);
    let na: int = if d < advance_threshold(e.speed.0 as int) {
        a
    } else {
        e.formation.angle as int
    };
    Enemy {
        pos: pursuit_step(e.pos, target, e.speed.0 as int),
        size: e.size,
        speed: e.speed,
        formation: Formation {
            start: e.formation.start,
            radius: e.formation.radius,
            offset: e.formation.offset,
            angle: na as i64,
            group_id: e.formation.group_id,
        },
    }
}

/// Advances one enemy along its formation arc by one tick.
pub fn enemy_move_one(e: &Enemy, cfg: &Config) -> (ne: Enemy)
    requires
        cfg.valid(),
        enemy_wf(*e, *cfg),
    ensures
        ne == enemy_step(*e),
        enemy_wf(ne, *cfg),
{
    let f = e.formation;
    let minr: i64 = if f.radius.x <= f.radius.y {
        f.radius.x
    } else {
        f.radius.y
    };
    let num: i64 = 3648 * e.speed.0;
    proof {
        lemma_div_pos_is_pos(num as int, minr as int);
        lemma_div_is_ordered_by_denominator(num as int, 80_000, minr as int);
        lemma_div_is_ordered(num as int, 1_824_000_000, 80_000);
    }
    let steps: i64 = ((num as u64) / (minr as u64)) as i64;
    let delta: i64 = if f.start.x > 0 {
        steps
    } else {
        -steps
    };
    let a: i64 = angle_add(f.angle, delta);
    let c: i64 = cosine_fp(a);
    let s: i64 = sine_fp(a);
    proof {
        assert(-(f.radius.x * TRIG_ONE) <= f.radius.x * c <= f.radius.x * TRIG_ONE
            && -(f.radius.y * TRIG_ONE) <= f.radius.y * s <= f.radius.y * TRIG_ONE
            && -2_000_000_000_000 <= f.radius.x * c <= 2_000_000_000_000
            && -2_000_000_000_000 <= f.radius.y * s <= 2_000_000_000_000) by (nonlinear_arith)
            requires
                0 <= f.radius.x < 150_000,
                0 <= f.radius.y <= 150_000,
                -TRIG_ONE <= c <= TRIG_ONE,
                -TRIG_ONE <= s <= TRIG_ONE,
                TRIG_ONE == 10_000,
        ;
        lemma_fp_scale_bound(f.radius.x * c, f.radius.x as int);
        lemma_fp_scale_bound(f.radius.y * s, f.radius.y as int);
    }
    let px: i64 = fp_scale_fp(f.radius.x * c);
    let py: i64 = fp_scale_fp(f.radius.y * s);
    let target = Vec2i { x: px + f.offset.x, y: py + f.offset.y };
    let d: u64 = distance(e.pos, target);
    let npos: Vec2i = step_toward(e.pos, target, e.speed.0);
    proof {
        assert(0 <= e.speed.0 * e.speed.0 <= 250_000_000_000) by (nonlinear_arith)
            requires
                0 < e.speed.0 <= 500_000,
        ;
    }
    let thresh: u64 = ((e.speed.0 * e.speed.0) as u64) * 3 / 1000;
    let na: i64 = if d < thresh {
        a
    } else {
        f.angle
    };
    Enemy {
        pos: npos,
        size: e.size,
        speed: e.speed,
        formation: Formation {
            start: f.start,
            radius: f.radius,
            offset: f.offset,
            angle: na,
            group_id: f.group_id,
        },
    }
}

} // verus!
