//! The player entity and its lifecycle bookkeeping.

use vstd::prelude::*;

verus! {

use crate::config::{Config, Speed};
use crate::geom::{Vec2i, SPEED_LIMIT};

/// Largest coordinate magnitude the player may be moved to; one spawn
/// offset below the world bounds, so anything fired from the player is
/// still in the world.
pub const PLAYER_POS_LIMIT: i64 = 99_000_000;

/// Lifecycle bookkeeping that outlives the player entity itself.
#[derive(Clone, Copy, PartialEq, Eq, Structural, Debug)]
pub struct PlayerState {
    /// A player entity is currently alive.
    pub on: bool,
    /// Tick at which the player was last shot; zero if never.
    pub last_shot: u64,
}

impl Default for PlayerState {
    /// Dead and never shot, so the first lifecycle check spawns at once.
    fn default() -> (s: Self)
        ensures
            !s.on,
            s.last_shot == 0,
    {
        PlayerState { on: false, last_shot: 0 }
    }
}

impl PlayerState {
    /// Records the kill: the player is gone as of `time`.
    pub fn shot(&mut self, time: u64)
        ensures
            !final(self).on,
            final(self).last_shot == time,
    {
        self.on = false;
        self.last_shot = time;
    }

    /// Records the (re)spawn: alive, with the shot timestamp cleared.
    pub fn spawned(&mut self)
        ensures
            final(self).on,
            final(self).last_shot == 0,
    {
        self.on = true;
        self.last_shot = 0;
    }
}

/// The player entity.
#[derive(Clone, Copy, PartialEq, Eq, Structural, Debug)]
pub struct Player {
    /// Center of the player's box.
    pub pos: Vec2i,
    /// Collision extent.
    pub size: Vec2i,
    /// Step per tick when moving.
    pub speed: Speed,
    /// The next fire press may shoot (single shot per press).
    pub ready_fire: bool,
}

/// The player is within its movement range and carries the configured
/// extent and a sane speed.
pub open spec fn player_wf(p: Player, cfg: Config) -> bool {
    &&& -PLAYER_POS_LIMIT <= p.pos.x <= PLAYER_POS_LIMIT
    &&& -PLAYER_POS_LIMIT <= p.pos.y <= PLAYER_POS_LIMIT
    &&& p.size == cfg.player_size
    &&& 0 < p.speed.0 <= SPEED_LIMIT
}

/// The player as spawned: centered horizontally, the configured height
/// above the bottom edge, ready to fire.
pub open spec fn initial_player(cfg: Config) -> Player {
    Player {
        pos: Vec2i { x: 0, y: (-(cfg.win_h / 2) + cfg.player_spawn_y) as i64 },
        size: cfg.player_size,
        speed: Speed(cfg.speed_step),
        ready_fire: true,
    }
}

/// The player's horizontal position after one movement input: the step
/// in the input's direction, saturated at the movement range.
pub open spec fn moved_player_x(x: int, dir: int, step: int) -> int {
    let nx = x + dir * step;
    if nx < -PLAYER_POS_LIMIT {
        -PLAYER_POS_LIMIT as int
    } else if nx > PLAYER_POS_LIMIT {
        PLAYER_POS_LIMIT as int
    } else {
        nx
    }
}

} // verus!
