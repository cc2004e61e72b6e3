//! Elliptical-arc formation templates and their rate-limited generator.

use vstd::prelude::*;

verus! {

use crate::config::Config;
use crate::geom::Vec2i;
use crate::rng::{random_bool, random_in_range};
use crate::trig::{arctan2, arctan2_fp, angle_norm, ANGLE_FULL};

/// Smallest horizontal orbit radius a formation is rolled with.
pub const FORMATION_RADIUS_MIN: i64 = 80_000;

/// One past the largest horizontal orbit radius a formation is rolled
/// with.
pub const FORMATION_RADIUS_MAX: i64 = 150_000;

/// The fixed vertical orbit radius of every formation.
pub const FORMATION_RADIUS_Y: i64 = 100_000;

/// A shared trajectory template: enemies of one batch copy its shape and
/// then advance their own phase angle independently.
#[derive(Clone, Copy, PartialEq, Eq, Structural, Debug)]
pub struct Formation {
    /// Spawn point, at a horizontal playfield edge.
    pub start: Vec2i,
    /// Orbit radii of the ellipse.
    pub radius: Vec2i,
    /// Center of the ellipse.
    pub offset: Vec2i,
    /// Current phase angle, in normalized centi-degrees.
    pub angle: i64,
    /// Identifier of the batch this template was generated for.
    pub group_id: u64,
}

/// The generator: keeps the template being handed out until its member
/// cap is reached, then rolls a fresh one.
#[derive(Clone, Copy, PartialEq, Eq, Structural, Debug)]
pub struct FormationMaker {
    /// Monotonic counter of generated templates.
    pub group_seq: u64,
    /// The template currently being shared, if any.
    pub current_formation: Option<Formation>,
    /// How many enemies were given the current template.
    pub current_formation_members: u32,
}

/// The phase angle a fresh formation starts with: the arc tangent of the
/// start point relative to the ellipse center, brought into the
/// normalized range.
pub open spec fn initial_angle(start: Vec2i, offset: Vec2i) -> int {
    let a = arctan2(start.y - offset.y, start.x - offset.x);
    if a < 0 {
        a + ANGLE_FULL
    } else {
        a
    }
}

/// The shape bounds every formation in the world satisfies, however it
/// was rolled.
pub open spec fn formation_wf(f: Formation) -> bool {
    &&& FORMATION_RADIUS_MIN <= f.radius.x < FORMATION_RADIUS_MAX
    &&& f.radius.y == FORMATION_RADIUS_Y
    &&& -5_000_000 <= f.offset.x <= 5_000_000
    &&& 0 <= f.offset.y <= 5_000_000
    &&& -10_000_000 <= f.start.x <= 10_000_000
    &&& -5_000_000 <= f.start.y <= 5_000_000
    &&& angle_norm(f.angle as int)
}

/// What holds of a freshly generated formation, whatever the draws came
/// out as: the start point sits on a horizontal playfield edge at a
/// vertical offset within the margin, the center and radii lie in their
/// configured ranges, and the phase angle faces the start point.
pub open spec fn fresh_formation_ok(cfg: Config, f: Formation) -> bool {
    &&& f.start.x == cfg.win_w || f.start.x == -cfg.win_w
    &&& -cfg.h_span() <= f.start.y < cfg.h_span()
    &&& -cfg.w_span() <= f.offset.x < cfg.w_span()
    &&& 0 <= f.offset.y < cfg.h_span()
    &&& FORMATION_RADIUS_MIN <= f.radius.x < FORMATION_RADIUS_MAX
    &&& f.radius.y == FORMATION_RADIUS_Y
    &&& f.angle == initial_angle(f.start, f.offset)
}

impl FormationMaker {
    /// A generator that has produced nothing yet.
    pub open spec fn initial() -> FormationMaker {
        FormationMaker { group_seq: 0, current_formation: Option::None, current_formation_members: 0 }
    }

    /// The generator's bookkeeping is sound against the configuration.
    pub open spec fn wf(self, cfg: Config) -> bool {
        &&& self.current_formation matches Option::Some(f) ==> formation_wf(f)
        &&& self.current_formation_members <= cfg.max_formation_members
    }

    /// A fresh generator.
    pub fn new() -> (m: FormationMaker)
        ensures
            m == FormationMaker::initial(),
    {
        FormationMaker { group_seq: 0, current_formation: Option::None, current_formation_members: 0 }
    }

    /// Relates the generator before and after one `make` call to the
    /// formation handed out: either the current template was reused and
    /// its member count ticked up, or a fresh template was rolled under
    /// the next group identifier and installed with one member.
    pub open spec fn make_post(cfg: Config, pre: FormationMaker, post: FormationMaker, f: Formation) -> bool {
        if pre.current_formation is Some && pre.current_formation_members < cfg.max_formation_members {
            &&& f == pre.current_formation->Some_0
            &&& post.current_formation == pre.current_formation
            &&& post.current_formation_members == pre.current_formation_members + 1
            &&& post.group_seq == pre.group_seq
        } else {
            &&& fresh_formation_ok(cfg, f)
            &&& f.group_id == pre.group_seq + 1
            &&& post.group_seq == pre.group_seq + 1
            &&& post.current_formation == Option::Some(f)
            &&& post.current_formation_members == 1
        }
    }

    /// Hands out a formation for one more enemy: a copy of the current
    /// template while its member cap lasts, a freshly rolled one
    /// otherwise.
    pub fn make(&mut self, cfg: &Config) -> (f: Formation)
        requires
            cfg.valid(),
            old(self).wf(*cfg),
            old(self).group_seq < u64::MAX,
        ensures
            final(self).wf(*cfg),
            FormationMaker::make_post(*cfg, *old(self), *final(self), f),
            formation_wf(f),
    {
        if let Option::Some(tmpl) = self.current_formation {
            if self.current_formation_members < cfg.max_formation_members {
                self.current_formation_members = self.current_formation_members + 1;
                return tmpl;
            }
        }
        let hs: i64 = cfg.win_h / 2 - crate::config::SPAWN_MARGIN;
        let ws: i64 = cfg.win_w / 2 - crate::config::SPAWN_MARGIN;
        let x: i64 = if random_bool() {
            cfg.win_w
        } else {
            -cfg.win_w
        };
        let y: i64 = random_in_range(-hs, hs);
        let ox: i64 = random_in_range(-ws, ws);
        let oy: i64 = random_in_range(0, hs);
        let rx: i64 = random_in_range(FORMATION_RADIUS_MIN, FORMATION_RADIUS_MAX);
        let a0: i64 = arctan2_fp(y - oy, x - ox);
        let angle: i64 = if a0 < 0 {
            a0 + ANGLE_FULL
        } else {
            a0
        };
        self.group_seq = self.group_seq + 1;
        let f = Formation {
            start: Vec2i { x, y },
            radius: Vec2i { x: rx, y: FORMATION_RADIUS_Y },
            offset: Vec2i { x: ox, y: oy },
            angle,
            group_id: self.group_seq,
        };
        self.current_formation = Option::Some(f);
        self.current_formation_members = 1;
        f
    }
}

} // verus!
