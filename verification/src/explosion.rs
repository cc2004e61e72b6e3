//! Explosion requests and the self-terminating frame animation.

use vstd::prelude::*;

verus! {

use crate::config::Config;
use crate::geom::{Vec2i, in_world};

/// A transient request to start an explosion animation at a point.
#[derive(Clone, Copy, PartialEq, Eq, Structural, Debug)]
pub struct ExplosionToSpawn(pub Vec2i);

/// A running explosion animation.
#[derive(Clone, Copy, PartialEq, Eq, Structural, Debug)]
pub struct Explosion {
    /// Where the animation plays.
    pub pos: Vec2i,
    /// Current frame index.
    pub frame: u32,
    /// Ticks spent in the current frame so far.
    pub elapsed: u64,
}

/// A live explosion is in the world, on a frame that exists, partway
/// through its hold interval.
pub open spec fn explosion_wf(e: Explosion, cfg: Config) -> bool {
    &&& in_world(e.pos)
    &&& e.frame < cfg.explosion_frames
    &&& e.elapsed < cfg.explosion_interval
}

/// The animation a request starts: first frame, interval just begun.
pub open spec fn fresh_explosion(r: ExplosionToSpawn) -> Explosion {
    Explosion { pos: r.0, frame: 0, elapsed: 0 }
}

/// One animation tick: the interval counts up; when it fills, the frame
/// advances and the interval restarts; advancing past the last frame
/// ends the animation.
pub open spec fn animate_one(e: Explosion, cfg: Config) -> Option<Explosion> {
    if e.elapsed + 1 >= cfg.explosion_interval {
        if e.frame + 1 >= cfg.explosion_frames {
            Option::None
        } else {
            Option::Some(Explosion { pos: e.pos, frame: (e.frame + 1) as u32, elapsed: 0 })
        }
    } else {
        Option::Some(Explosion { pos: e.pos, frame: e.frame, elapsed: (e.elapsed + 1) as u64 })
    }
}

/// The animation pass over a sequence: each explosion takes one
/// animation tick; the finished ones are gone.
pub open spec fn animate_all(s: Seq<Explosion>, cfg: Config) -> Seq<Explosion>
    decreases s.len(),
{
    if s.len() == 0 {
        Seq::empty()
    } else {
        let rest = animate_all(s.drop_last(), cfg);
        match animate_one(s.last(), cfg) {
            Option::None => rest,
            Option::Some(ne) => rest.push(ne),
        }
    }
}

/// How many ticks the animation has been running: full frames times the
/// interval, plus the ticks in the current frame.
pub open spec fn explosion_age(e: Explosion, cfg: Config) -> int {
    e.frame * cfg.explosion_interval + e.elapsed
}

/// Total ticks an explosion lives: one interval per frame.
pub open spec fn explosion_lifetime(cfg: Config) -> int {
    cfg.explosion_frames * cfg.explosion_interval
}

/// One animation tick ends the explosion exactly when its age has
/// reached the last tick of its lifetime; otherwise it survives with its
/// age grown by one.
pub proof fn lemma_animate_age(e: Explosion, cfg: Config)
    requires
        cfg.valid(),
        explosion_wf(e, cfg),
    ensures
        animate_one(e, cfg) is None <==> explosion_age(e, cfg) == explosion_lifetime(cfg) - 1,
        animate_one(e, cfg) matches Option::Some(ne) ==> explosion_wf(ne, cfg)
            && explosion_age(ne, cfg) == explosion_age(e, cfg) + 1 && ne.pos == e.pos,
        explosion_age(e, cfg) < explosion_lifetime(cfg),
{
    let fr = e.frame as int;
    let el = e.elapsed as int;
    let iv = cfg.explosion_interval as int;
    let nf = cfg.explosion_frames as int;
    assert(fr * iv + el < nf * iv) by (nonlinear_arith)
        requires
            0 <= fr,
            0 <= el,
            1 <= iv,
            fr <= nf - 1,
            el <= iv - 1,
    ;
    if el + 1 >= iv && fr + 1 >= nf {
        assert(fr * iv == (nf - 1) * iv) by (nonlinear_arith)
            requires
                fr == nf - 1,
        ;
        assert((nf - 1) * iv + (iv - 1) == nf * iv - 1) by (nonlinear_arith);
    } else {
        if el + 1 >= iv {
            assert((fr + 1) * iv == fr * iv + iv) by (nonlinear_arith);
        }
        assert(fr * iv + el != nf * iv - 1) by (nonlinear_arith)
            requires
                0 <= fr,
                0 <= el,
                1 <= iv,
                1 <= nf,
                fr <= nf - 1,
                el <= iv - 1,
                !(el + 1 >= iv && fr + 1 >= nf),
        ;
    }
}

/// The whole animation from a state: `None` once a tick has ended it.
pub open spec fn explosion_run(e: Explosion, cfg: Config, n: nat) -> Option<Explosion>
    decreases n,
{
    if n == 0 {
        Option::Some(e)
    } else {
        match animate_one(e, cfg) {
            Option::None => Option::None,
            Option::Some(ne) => explosion_run(ne, cfg, (n - 1) as nat),
        }
    }
}

/// An explosion survives exactly as many animation ticks as its
/// lifetime has left: starting fresh, it is alive through tick
/// `lifetime - 1` and gone at tick `lifetime`, never before.
pub proof fn lemma_explosion_lifetime(e: Explosion, cfg: Config, n: nat)
    requires
        cfg.valid(),
        explosion_wf(e, cfg),
    ensures
        explosion_run(e, cfg, n) is Some <==> explosion_age(e, cfg) + n < explosion_lifetime(cfg),
        explosion_run(e, cfg, n) matches Option::Some(ne) ==> explosion_wf(ne, cfg)
            && explosion_age(ne, cfg) == explosion_age(e, cfg) + n && ne.pos == e.pos,
    decreases n,
{
    lemma_animate_age(e, cfg);
    if n > 0 {
        match animate_one(e, cfg) {
            Option::None => {},
            Option::Some(ne) => {
                lemma_explosion_lifetime(ne, cfg, (n - 1) as nat);
            },
        }
    }
}

} // verus!
