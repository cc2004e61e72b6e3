//! Laser projectiles: movement, culling bounds and origin tags.

use vstd::prelude::*;

verus! {

use crate::config::{Config, Speed};
use crate::geom::{Vec2i, in_world, SPEED_LIMIT};

/// Who fired a laser; the tag alone decides which collision pass the
/// laser takes part in.
#[derive(Clone, Copy, PartialEq, Eq, Structural, Debug)]
pub enum Origin {
    /// Fired by the player; moves up, may only hit enemies.
    FromPlayer,
    /// Fired by an enemy; moves down, may only hit the player.
    FromEnemy,
}

/// A laser projectile.
#[derive(Clone, Copy, PartialEq, Eq, Structural, Debug)]
pub struct Laser {
    /// Center of the laser's box.
    pub pos: Vec2i,
    /// Collision extent.
    pub size: Vec2i,
    /// Step per tick; the direction comes from the origin tag.
    pub speed: Speed,
    /// Who fired it.
    pub origin: Origin,
}

/// The laser is in the world and carries the configured extent and a
/// sane speed.
pub open spec fn laser_wf(l: Laser, cfg: Config) -> bool {
    &&& in_world(l.pos)
    &&& l.size == cfg.laser_size
    &&& 0 < l.speed.0 <= SPEED_LIMIT
}

/// A player laser one tick later: moved up by its speed.
pub open spec fn player_laser_moved(l: Laser) -> Laser {
    Laser { pos: Vec2i { x: l.pos.x, y: (l.pos.y + l.speed.0) as i64 }, ..l }
}

/// An enemy laser one tick later: moved down by its speed.
pub open spec fn enemy_laser_moved(l: Laser) -> Laser {
    Laser { pos: Vec2i { x: l.pos.x, y: (l.pos.y - l.speed.0) as i64 }, ..l }
}

/// A moved player laser leaves the playfield once above the window
/// height.
pub open spec fn player_laser_out(l: Laser, cfg: Config) -> bool {
    l.pos.y > cfg.win_h
}

/// A moved enemy laser leaves the playfield once below half the window
/// height plus the cull margin.
pub open spec fn enemy_laser_out(l: Laser, cfg: Config) -> bool {
    l.pos.y < -(cfg.win_h / 2) - cfg.laser_cull_margin
}

/// The player-laser movement pass over a sequence: each player laser
/// moves up and is dropped once out of bounds; enemy lasers pass through
/// untouched.
pub open spec fn move_player_lasers(s: Seq<Laser>, cfg: Config) -> Seq<Laser>
    decreases s.len(),
{
    if s.len() == 0 {
        Seq::empty()
    } else {
        let rest = move_player_lasers(s.drop_last(), cfg);
        let l = s.last();
        if l.origin is FromPlayer {
            let m = player_laser_moved(l);
            if player_laser_out(m, cfg) {
                rest
            } else {
                rest.push(m)
            }
        } else {
            rest.push(l)
        }
    }
}

/// The enemy-laser movement pass over a sequence: each enemy laser moves
/// down and is dropped once out of bounds; player lasers pass through
/// untouched.
pub open spec fn move_enemy_lasers(s: Seq<Laser>, cfg: Config) -> Seq<Laser>
    decreases s.len(),
{
    if s.len() == 0 {
        Seq::empty()
    } else {
        let rest = move_enemy_lasers(s.drop_last(), cfg);
        let l = s.last();
        if l.origin is FromEnemy {
            let m = enemy_laser_moved(l);
            if enemy_laser_out(m, cfg) {
                rest
            } else {
                rest.push(m)
            }
        } else {
            rest.push(l)
        }
    }
}

} // verus!
