//! The global properties of the simulation, stated and proved once.

use vstd::prelude::*;

verus! {

use vstd::math::abs;
use crate::collision::{enemy_is_hit, killed_positions};
use crate::config::Config;
use crate::enemy::Enemy;
use crate::formation::{Formation, FormationMaker};
use crate::geom::{
    Vec2i,
    between,
    coord_step,
    dist_sq,
    in_world,
    pursuit_step,
    sqrt_floor,
    lemma_sqrt_floor_bounds,
    SPEED_LIMIT,
};
use crate::laser::{Laser, move_player_lasers, move_enemy_lasers};
use crate::player::initial_player;
use crate::world::{GameModel, model_wf, player_spawn_spec, spawn_now};

/// The live-enemy counter always equals the number of live enemy
/// entities, and being unsigned it can never go negative.
pub proof fn lemma_enemy_counter_matches(m: GameModel)
    requires
        model_wf(m),
    ensures
        m.active_enemies == m.enemies.len(),
        m.active_enemies >= 0,
{
}

/// How many live players a model holds.
pub open spec fn player_count(m: GameModel) -> int {
    if m.player is Some {
        1int
    } else {
        0int
    }
}

/// At most one live player exists at any time, and exactly one when the
/// lifecycle says the player is on.
pub proof fn lemma_at_most_one_player(m: GameModel)
    requires
        model_wf(m),
    ensures
        player_count(m) <= 1,
        m.player_state.on <==> player_count(m) == 1,
{
}

/// The enemy motion step never overshoots the formation target: the new
/// position lies between the old position and the target on each axis,
/// so the distance to the target never grows.
pub proof fn lemma_pursuit_no_overshoot(org: Vec2i, dst: Vec2i, max_step: int)
    requires
        in_world(org),
        in_world(dst),
        0 <= max_step <= SPEED_LIMIT,
    ensures
        between(org.x as int, pursuit_step(org, dst, max_step).x as int, dst.x as int),
        between(org.y as int, pursuit_step(org, dst, max_step).y as int, dst.y as int),
        abs(pursuit_step(org, dst, max_step).x - dst.x) <= abs(org.x - dst.x),
        abs(pursuit_step(org, dst, max_step).y - dst.y) <= abs(org.y - dst.y),
{
    assert(dist_sq(org, dst) >= 0) by (nonlinear_arith);
    let d = sqrt_floor(dist_sq(org, dst) as nat) as int;
    lemma_sqrt_floor_bounds(dist_sq(org, dst) as nat);
    if d == 0 {
        assert(dist_sq(org, dst) == 0) by (nonlinear_arith)
            requires
                sqrt_floor(dist_sq(org, dst) as nat) == 0,
                dist_sq(org, dst) >= 0,
                (dist_sq(org, dst) as nat) < ((sqrt_floor(dist_sq(org, dst) as nat) + 1) * (
                sqrt_floor(dist_sq(org, dst) as nat) + 1)),
        ;
        assert(org.x == dst.x && org.y == dst.y) by (nonlinear_arith)
            requires
                (org.x - dst.x) * (org.x - dst.x) + (org.y - dst.y) * (org.y - dst.y) == 0,
        ;
    } else {
        let mx = (abs(org.x - dst.x) * max_step) / d;
        let my = (abs(org.y - dst.y) * max_step) / d;
        assert(abs(org.x - dst.x) * max_step >= 0 && abs(org.y - dst.y) * max_step >= 0)
            by (nonlinear_arith)
            requires
                max_step >= 0,
        ;
        vstd::arithmetic::div_mod::lemma_div_pos_is_pos(abs(org.x - dst.x) * max_step, d);
        vstd::arithmetic::div_mod::lemma_div_pos_is_pos(abs(org.y - dst.y) * max_step, d);
        assert(mx >= 0 && my >= 0);
        assert(between(org.x as int, coord_step(org.x as int, dst.x as int, mx), dst.x as int));
        assert(between(org.y as int, coord_step(org.y as int, dst.y as int, my), dst.y as int));
    }
}

/// Formation reuse: with a member cap of two and a fresh generator, the
/// first and second formations handed out are the same template, and
/// the third request rolls a new formation under the next group
/// identifier.  Each enemy still keeps its own copy of the template, so
/// the shared shape never shares position state.
pub proof fn lemma_formation_reuse(
    cfg: Config,
    m0: FormationMaker,
    m1: FormationMaker,
    m2: FormationMaker,
    m3: FormationMaker,
    f1: Formation,
    f2: Formation,
    f3: Formation,
)
    requires
        cfg.max_formation_members == 2,
        m0.current_formation is None,
        FormationMaker::make_post(cfg, m0, m1, f1),
        FormationMaker::make_post(cfg, m1, m2, f2),
        FormationMaker::make_post(cfg, m2, m3, f3),
    ensures
        f2 == f1,
        f3.group_id == f1.group_id + 1,
        f3.group_id != f1.group_id,
        m3.current_formation == Option::Some(f3),
{
}

/// Player respawn timing: a dead, never-shot player spawns at the very
/// next lifecycle check; after a kill at some tick, no check within the
/// respawn delay spawns, and the first check past the delay does.
pub proof fn lemma_respawn_timing(m: GameModel)
    requires
        !m.player_state.on,
    ensures
        m.player_state.last_shot == 0 ==> player_spawn_spec(m).player == Option::Some(
            initial_player(m.cfg),
        ),
        m.player_state.last_shot > 0 && m.now <= m.player_state.last_shot + m.cfg.respawn_delay
            ==> player_spawn_spec(m) == m,
        m.player_state.last_shot > 0 && m.now > m.player_state.last_shot + m.cfg.respawn_delay
            ==> player_spawn_spec(m).player == Option::Some(initial_player(m.cfg)),
{
    assert(m.player_state.last_shot > 0 && m.now <= m.player_state.last_shot
        + m.cfg.respawn_delay ==> !spawn_now(m));
}

/// Projectile culling: after the player-laser movement pass, no player
/// laser sits above the window height.
pub proof fn lemma_player_laser_culling(s: Seq<Laser>, cfg: Config)
    ensures
        forall|i: int|
            0 <= i < move_player_lasers(s, cfg).len() && (#[trigger] move_player_lasers(s, cfg)[i]).origin
                is FromPlayer ==> move_player_lasers(s, cfg)[i].pos.y <= cfg.win_h,
    decreases s.len(),
{
    if s.len() > 0 {
        lemma_player_laser_culling(s.drop_last(), cfg);
    }
}

/// Projectile culling: after the enemy-laser movement pass, no enemy
/// laser sits below half the window height plus the cull margin.
pub proof fn lemma_enemy_laser_culling(s: Seq<Laser>, cfg: Config)
    ensures
        forall|i: int|
            0 <= i < move_enemy_lasers(s, cfg).len() && (#[trigger] move_enemy_lasers(s, cfg)[i]).origin
                is FromEnemy ==> move_enemy_lasers(s, cfg)[i].pos.y >= -(cfg.win_h / 2)
                - cfg.laser_cull_margin,
    decreases s.len(),
{
    if s.len() > 0 {
        lemma_enemy_laser_culling(s.drop_last(), cfg);
    }
}

/// Same-tick multi-hit dedup: an enemy overlapped by any number of
/// lasers at once is destroyed exactly once — it contributes one killed
/// position, so the counter drops by one, not by the number of lasers.
pub proof fn lemma_multi_hit_single_decrement(e: Enemy, ls: Seq<Laser>)
    requires
        enemy_is_hit(e, ls),
    ensures
        killed_positions(seq![e], ls) == seq![e.pos],
{
    assert(seq![e].drop_last() =~= Seq::<Enemy>::empty());
    assert(killed_positions(Seq::<Enemy>::empty(), ls) == Seq::<Vec2i>::empty());
    assert(seq![e].last() == e);
    assert(killed_positions(seq![e], ls) == Seq::<Vec2i>::empty().push(e.pos));
    assert(killed_positions(seq![e], ls) =~= seq![e.pos]);
}

} // verus!
