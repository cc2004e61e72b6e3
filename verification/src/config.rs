//! Tunable constants of the simulation.

use vstd::prelude::*;

verus! {

use crate::geom::{Vec2i, valid_size, SPEED_LIMIT};

/// Default step per tick of every moving entity, in milli-units:
/// 500 world units per second at 60 ticks per second.
pub const DEFAULT_SPEED_STEP: i64 = 8333;

/// A moving entity's speed: its step per tick, in milli-units.
#[derive(Clone, Copy, PartialEq, Eq, Structural, Debug)]
pub struct Speed(pub i64);

impl Default for Speed {
    /// The stock speed shared by the player, enemies and lasers.
    fn default() -> (s: Self)
        ensures
            s.0 == DEFAULT_SPEED_STEP,
    {
        Speed(DEFAULT_SPEED_STEP)
    }
}

/// Everything the simulation can be tuned by.  Distances are in
/// milli-units, durations in ticks.
#[derive(Clone, Copy, PartialEq, Eq, Structural, Debug)]
pub struct Config {
    /// Playfield width.
    pub win_w: i64,
    /// Playfield height.
    pub win_h: i64,
    /// Step per tick given to every spawned entity.
    pub speed_step: i64,
    /// Cap on simultaneously live enemies.
    pub max_enemies: u32,
    /// Enemies sharing one formation before a new one is generated.
    pub max_formation_members: u32,
    /// Ticks the player stays dead after being shot.
    pub respawn_delay: u64,
    /// Ticks between enemy spawn attempts.
    pub spawn_interval: u64,
    /// Ticks between enemy volleys.
    pub fire_interval: u64,
    /// Ticks between player respawn checks.
    pub lifecycle_interval: u64,
    /// Frames of the explosion animation.
    pub explosion_frames: u32,
    /// Ticks each explosion frame is held.
    pub explosion_interval: u64,
    /// Collision extent of the player.
    pub player_size: Vec2i,
    /// Collision extent of an enemy.
    pub enemy_size: Vec2i,
    /// Collision extent of a laser.
    pub laser_size: Vec2i,
    /// Height of the player spawn point above the bottom edge.
    pub player_spawn_y: i64,
    /// Horizontal offset of each laser of the player's symmetric pair.
    pub fire_x_offset: i64,
    /// Vertical offset between a shooter and its fresh laser.
    pub laser_y_offset: i64,
    /// Extra margin below the playfield before enemy lasers are culled.
    pub laser_cull_margin: i64,
}

/// Margin kept from the playfield edges when rolling spawn positions.
pub const SPAWN_MARGIN: i64 = 100_000;

impl Config {
    /// The configuration is within the bounds the world arithmetic is
    /// proved for.
    pub open spec fn valid(self) -> bool {
        &&& 300_000 <= self.win_w <= 10_000_000
        &&& 300_000 <= self.win_h <= 10_000_000
        &&& 0 < self.speed_step <= SPEED_LIMIT
        &&& 1 <= self.max_enemies <= 1_000_000
        &&& 1 <= self.max_formation_members
        &&& 1 <= self.spawn_interval
        &&& 1 <= self.fire_interval
        &&& 1 <= self.lifecycle_interval
        &&& 1 <= self.explosion_frames
        &&& 1 <= self.explosion_interval
        &&& valid_size(self.player_size)
        &&& valid_size(self.enemy_size)
        &&& valid_size(self.laser_size)
        &&& 0 <= self.player_spawn_y <= 1_000_000
        &&& 0 <= self.fire_x_offset <= 1_000_000
        &&& 0 <= self.laser_y_offset <= 1_000_000
        &&& 0 <= self.laser_cull_margin <= 1_000_000
    }

    /// Half the playfield height minus the spawn margin.
    pub open spec fn h_span(self) -> int {
        self.win_h / 2 - SPAWN_MARGIN
    }

    /// Half the playfield width minus the spawn margin.
    pub open spec fn w_span(self) -> int {
        self.win_w / 2 - SPAWN_MARGIN
    }

    /// The stock tuning: a 600 by 600 playfield at 60 ticks per second,
    /// speed 500 units per second, two enemies, two formation members,
    /// a two-second respawn delay, one-second spawn and 0.9-second fire
    /// cadence, half-second respawn checks, and a 16-frame explosion at
    /// 0.05 seconds per frame.
    pub fn standard() -> (c: Config)
        ensures
            c == standard_config(),
            c.valid(),
    {
        Config {
            win_w: 600_000,
            win_h: 600_000,
            speed_step: DEFAULT_SPEED_STEP,
            max_enemies: 2,
            max_formation_members: 2,
            respawn_delay: 120,
            spawn_interval: 60,
            fire_interval: 54,
            lifecycle_interval: 30,
            explosion_frames: 16,
            explosion_interval: 3,
            player_size: Vec2i { x: 72_000, y: 37_500 },
            enemy_size: Vec2i { x: 46_500, y: 42_000 },
            laser_size: Vec2i { x: 4_500, y: 27_000 },
            player_spawn_y: 23_750,
            fire_x_offset: 31_000,
            laser_y_offset: 15_000,
            laser_cull_margin: 50_000,
        }
    }
}

/// The value `Config::standard` returns.
pub open spec fn standard_config() -> Config {
    Config {
        win_w: 600_000,
        win_h: 600_000,
        speed_step: DEFAULT_SPEED_STEP,
        max_enemies: 2,
        max_formation_members: 2,
        respawn_delay: 120,
        spawn_interval: 60,
        fire_interval: 54,
        lifecycle_interval: 30,
        explosion_frames: 16,
        explosion_interval: 3,
        player_size: Vec2i { x: 72_000, y: 37_500 },
        enemy_size: Vec2i { x: 46_500, y: 42_000 },
        laser_size: Vec2i { x: 4_500, y: 27_000 },
        player_spawn_y: 23_750,
        fire_x_offset: 31_000,
        laser_y_offset: 15_000,
        laser_cull_margin: 50_000,
    }
}

} // verus!
