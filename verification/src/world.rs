//! The simulation state and the per-tick passes that advance it.
//!
//! `GameState` holds every entity and counter; its view `GameModel`
//! abstracts the vectors to sequences, and each pass is specified as a
//! function (or, where random draws are involved, a relation) on that
//! model.

use vstd::prelude::*;

verus! {

use crate::collision::{
    laser_spent_scan,
    enemy_hit_scan,
    surviving_enemies,
    killed_positions,
    remaining_lasers,
    lemma_kill_split,
    player_hit_count,
    lasers_after_player_hit,
};
use crate::config::{Config, Speed};
use crate::enemy::{Enemy, enemy_wf, enemy_step, enemy_move_one};
use crate::explosion::{
    Explosion,
    ExplosionToSpawn,
    explosion_wf,
    fresh_explosion,
    animate_all,
};
use crate::formation::{Formation, FormationMaker};
use crate::geom::{Vec2i, in_world, boxes_overlap, aabb_overlap};
use crate::laser::{
    Laser,
    Origin,
    laser_wf,
    player_laser_moved,
    enemy_laser_moved,
    player_laser_out,
    enemy_laser_out,
    move_player_lasers,
    move_enemy_lasers,
};
use crate::player::{
    Player,
    PlayerState,
    player_wf,
    initial_player,
    moved_player_x,
    PLAYER_POS_LIMIT,
};

/// The mathematical state of the simulation: the entity vectors seen as
/// sequences.
#[verifier::ext_equal]
pub struct GameModel {
    /// The tuning the simulation runs under.
    pub cfg: Config,
    /// Ticks since the simulation started.
    pub now: u64,
    /// The live-enemy counter.
    pub active_enemies: u32,
    /// Player lifecycle bookkeeping.
    pub player_state: PlayerState,
    /// The formation generator.
    pub maker: FormationMaker,
    /// The player entity, if alive.
    pub player: Option<Player>,
    /// Live enemies.
    pub enemies: Seq<Enemy>,
    /// Live lasers of both origins.
    pub lasers: Seq<Laser>,
    /// Explosion requests waiting to be turned into animations.
    pub explosion_queue: Seq<ExplosionToSpawn>,
    /// Running explosion animations.
    pub explosions: Seq<Explosion>,
    /// Ticks since the last enemy spawn trigger.
    pub spawn_timer: u64,
    /// Ticks since the last enemy fire trigger.
    pub fire_timer: u64,
    /// Ticks since the last player respawn check.
    pub lifecycle_timer: u64,
    /// Whether the fire input was held last tick.
    pub fire_held_prev: bool,
}

/// The whole simulation: every entity and counter of one run.
pub struct GameState {
    /// The tuning the simulation runs under.
    pub cfg: Config,
    /// Ticks since the simulation started.
    pub now: u64,
    /// The live-enemy counter.
    pub active_enemies: u32,
    /// Player lifecycle bookkeeping.
    pub player_state: PlayerState,
    /// The formation generator.
    pub maker: FormationMaker,
    /// The player entity, if alive.
    pub player: Option<Player>,
    /// Live enemies.
    pub enemies: Vec<Enemy>,
    /// Live lasers of both origins.
    pub lasers: Vec<Laser>,
    /// Explosion requests waiting to be turned into animations.
    pub explosion_queue: Vec<ExplosionToSpawn>,
    /// Running explosion animations.
    pub explosions: Vec<Explosion>,
    /// Ticks since the last enemy spawn trigger.
    pub spawn_timer: u64,
    /// Ticks since the last enemy fire trigger.
    pub fire_timer: u64,
    /// Ticks since the last player respawn check.
    pub lifecycle_timer: u64,
    /// Whether the fire input was held last tick.
    pub fire_held_prev: bool,
}

impl View for GameState {
    type V = GameModel;

    open spec fn view(&self) -> GameModel {
        GameModel {
            cfg: self.cfg,
            now: self.now,
            active_enemies: self.active_enemies,
            player_state: self.player_state,
            maker: self.maker,
            player: self.player,
            enemies: self.enemies@,
            lasers: self.lasers@,
            explosion_queue: self.explosion_queue@,
            explosions: self.explosions@,
            spawn_timer: self.spawn_timer,
            fire_timer: self.fire_timer,
            lifecycle_timer: self.lifecycle_timer,
            fire_held_prev: self.fire_held_prev,
        }
    }
}

/// The invariant every pass preserves: the enemy counter matches the
/// live enemies, at most one player exists and exactly when the
/// lifecycle says so, every entity is well-formed, and the interval
/// timers are mid-cycle.
pub open spec fn model_wf(m: GameModel) -> bool {
    &&& m.cfg.valid()
    &&& m.active_enemies == m.enemies.len()
    &&& m.active_enemies <= m.cfg.max_enemies
    &&& forall|i: int| 0 <= i < m.enemies.len() ==> enemy_wf(#[trigger] m.enemies[i], m.cfg)
    &&& forall|i: int| 0 <= i < m.lasers.len() ==> laser_wf(#[trigger] m.lasers[i], m.cfg)
    &&& forall|i: int|
        0 <= i < m.explosion_queue.len() ==> in_world((#[trigger] m.explosion_queue[i]).0)
    &&& forall|i: int| 0 <= i < m.explosions.len() ==> explosion_wf(#[trigger] m.explosions[i], m.cfg)
    &&& m.player matches Option::Some(p) ==> player_wf(p, m.cfg)
    &&& m.player_state.on <==> m.player is Some
    &&& m.player_state.last_shot <= m.now
    &&& m.maker.wf(m.cfg)
    &&& m.spawn_timer < m.cfg.spawn_interval
    &&& m.fire_timer < m.cfg.fire_interval
    &&& m.lifecycle_timer < m.cfg.lifecycle_interval
}

/// The player respawn gate: no player is alive, and either the player
/// was never shot or the respawn delay has fully elapsed.
pub open spec fn spawn_now(m: GameModel) -> bool {
    &&& !m.player_state.on
    &&& m.player_state.last_shot == 0 || m.now > m.player_state.last_shot + m.cfg.respawn_delay
}

/// The player lifecycle pass on the model: under the respawn gate, a
/// fresh player appears at the spawn point and the shot timestamp
/// clears; otherwise nothing changes.
pub open spec fn player_spawn_spec(m: GameModel) -> GameModel {
    if spawn_now(m) {
        GameModel {
            player: Option::Some(initial_player(m.cfg)),
            player_state: PlayerState { on: true, last_shot: 0 },
            ..m
        }
    } else {
        m
    }
}

/// Direction of the player's horizontal input: left wins over right.
pub open spec fn move_dir(left: bool, right: bool) -> int {
    if left {
        -1
    } else if right {
        1
    } else {
        0
    }
}

/// The player movement pass on the model: the player, if alive, steps
/// horizontally by its speed in the input direction, saturating at the
/// movement range.
pub open spec fn player_movement_spec(m: GameModel, left: bool, right: bool) -> GameModel {
    match m.player {
        Option::Some(p) => GameModel {
            player: Option::Some(
                Player {
                    pos: Vec2i {
                        x: moved_player_x(p.pos.x as int, move_dir(left, right), p.speed.0 as int) as i64,
                        y: p.pos.y,
                    },
                    ..p
                },
            ),
            ..m
        },
        Option::None => m,
    }
}

/// A laser fired by the player, offset horizontally by `xoff` and
/// raised by the configured muzzle offset.
pub open spec fn player_laser(cfg: Config, p: Player, xoff: int) -> Laser {
    Laser {
        pos: Vec2i { x: (p.pos.x + xoff) as i64, y: (p.pos.y + cfg.laser_y_offset) as i64 },
        size: cfg.laser_size,
        speed: Speed(cfg.speed_step),
        origin: Origin::FromPlayer,
    }
}

/// The player shooting pass on the model: while the fire input is held
/// and the ready flag is set, a symmetric pair of lasers spawns and the
/// flag clears; releasing the input re-arms the flag.  The previous
/// input state is remembered for the release edge.
pub open spec fn player_shoots_spec(m: GameModel, fire: bool) -> GameModel {
    match m.player {
        Option::Some(p) => {
            let fired = p.ready_fire && fire;
            let released = m.fire_held_prev && !fire;
            let lasers = if fired {
                m.lasers.push(player_laser(m.cfg, p, m.cfg.fire_x_offset as int)).push(
                    player_laser(m.cfg, p, -m.cfg.fire_x_offset as int),
                )
            } else {
                m.lasers
            };
            let ready = if released {
                true
            } else if fired {
                false
            } else {
                p.ready_fire
            };
            GameModel {
                lasers,
                player: Option::Some(Player { ready_fire: ready, ..p }),
                fire_held_prev: fire,
                ..m
            }
        },
        Option::None => GameModel { fire_held_prev: fire, ..m },
    }
}

impl GameState {
    /// The invariant, on the state itself.
    pub open spec fn wf(&self) -> bool {
        model_wf(self@)
    }

    /// A simulation at tick zero: no entities, the player dead and never
    /// shot, all counters cleared.
    pub fn new(cfg: Config) -> (s: GameState)
        requires
            cfg.valid(),
        ensures
            s.wf(),
            s@ == initial_model(cfg),
    {
        let s = GameState {
            cfg,
            now: 0,
            active_enemies: 0,
            player_state: PlayerState { on: false, last_shot: 0 },
            maker: FormationMaker::new(),
            player: Option::None,
            enemies: Vec::new(),
            lasers: Vec::new(),
            explosion_queue: Vec::new(),
            explosions: Vec::new(),
            spawn_timer: 0,
            fire_timer: 0,
            lifecycle_timer: 0,
            fire_held_prev: false,
        };
        proof {
            assert(s@ =~= initial_model(cfg));
        }
        s
    }

    /// Spawns the player when the respawn gate is open: dead, and never
    /// shot or past the respawn delay.
    pub fn player_spawn(&mut self)
        requires
            old(self).wf(),
        ensures
            final(self).wf(),
            final(self)@ == player_spawn_spec(old(self)@),
    {
        let do_spawn: bool = if !self.player_state.on {
            if self.player_state.last_shot == 0 {
                true
            } else {
                self.now - self.player_state.last_shot > self.cfg.respawn_delay
            }
        } else {
            false
        };
        if do_spawn {
            let bottom: i64 = -(((self.cfg.win_h as u64) / 2) as i64);
            let p = Player {
                pos: Vec2i { x: 0, y: bottom + self.cfg.player_spawn_y },
                size: self.cfg.player_size,
                speed: Speed(self.cfg.speed_step),
                ready_fire: true,
            };
            self.player = Option::Some(p);
            self.player_state.spawned();
        }
        proof {
            assert(self@ =~= player_spawn_spec(old(self)@));
        }
    }

    /// Moves the player one step in the input direction; left wins over
    /// right, no input holds still.
    pub fn player_movement(&mut self, left: bool, right: bool)
        requires
            old(self).wf(),
        ensures
            final(self).wf(),
            final(self)@ == player_movement_spec(old(self)@, left, right),
    {
        match self.player {
            Option::Some(p) => {
                let delta: i64 = if left {
                    -p.speed.0
                } else if right {
                    p.speed.0
                } else {
                    0
                };
                let nx0: i64 = p.pos.x + delta;
                let nx: i64 = if nx0 < -PLAYER_POS_LIMIT {
                    -PLAYER_POS_LIMIT
                } else if nx0 > PLAYER_POS_LIMIT {
                    PLAYER_POS_LIMIT
                } else {
                    nx0
                };
                self.player = Option::Some(
                    Player {
                        pos: Vec2i { x: nx, y: p.pos.y },
                        size: p.size,
                        speed: p.speed,
                        ready_fire: p.ready_fire,
                    },
                );
            },
            Option::None => {},
        }
        proof {
            assert(self@ =~= player_movement_spec(old(self)@, left, right));
        }
    }

    /// Fires a symmetric laser pair while the fire input is held and the
    /// ready flag allows it; releasing the input re-arms the flag.
    pub fn player_shoots(&mut self, fire: bool)
        requires
            old(self).wf(),
        ensures
            final(self).wf(),
            final(self)@ == player_shoots_spec(old(self)@, fire),
    {
        match self.player {
            Option::Some(p) => {
                if p.ready_fire && fire {
                    let l1 = Laser {
                        pos: Vec2i {
                            x: p.pos.x + self.cfg.fire_x_offset,
                            y: p.pos.y + self.cfg.laser_y_offset,
                        },
                        size: self.cfg.laser_size,
                        speed: Speed(self.cfg.speed_step),
                        origin: Origin::FromPlayer,
                    };
                    let l2 = Laser {
                        pos: Vec2i {
                            x: p.pos.x - self.cfg.fire_x_offset,
                            y: p.pos.y + self.cfg.laser_y_offset,
                        },
                        size: self.cfg.laser_size,
                        speed: Speed(self.cfg.speed_step),
                        origin: Origin::FromPlayer,
                    };
                    self.lasers.push(l1);
                    self.lasers.push(l2);
                }
                let released: bool = self.fire_held_prev && !fire;
                let armed: bool = if released {
                    true
                } else if p.ready_fire && fire {
                    false
                } else {
                    p.ready_fire
                };
                self.player = Option::Some(
                    Player { pos: p.pos, size: p.size, speed: p.speed, ready_fire: armed },
                );
            },
            Option::None => {},
        }
        self.fire_held_prev = fire;
        proof {
            assert(self@ =~= player_shoots_spec(old(self)@, fire));
        }
    }
}

/// The player-laser movement pass on the model: player lasers move up
/// and leave once above the window height.
pub open spec fn laser_movement_spec(m: GameModel) -> GameModel {
    GameModel { lasers: move_player_lasers(m.lasers, m.cfg), ..m }
}

/// The enemy-laser movement pass on the model: enemy lasers move down
/// and leave once below the playfield and its cull margin.
pub open spec fn enemy_laser_movement_spec(m: GameModel) -> GameModel {
    GameModel { lasers: move_enemy_lasers(m.lasers, m.cfg), ..m }
}

/// The enemy movement pass on the model: every enemy takes its formation
/// arc step.
pub open spec fn enemy_movement_spec(m: GameModel) -> GameModel {
    GameModel { enemies: m.enemies.map_values(|e: Enemy| enemy_step(e)), ..m }
}

/// A laser fired by an enemy, dropped by the configured muzzle offset.
pub open spec fn enemy_laser(cfg: Config, e: Enemy) -> Laser {
    Laser {
        pos: Vec2i { x: e.pos.x, y: (e.pos.y - cfg.laser_y_offset) as i64 },
        size: cfg.laser_size,
        speed: Speed(cfg.speed_step),
        origin: Origin::FromEnemy,
    }
}

/// The enemy fire pass on the model: every live enemy contributes one
/// downward laser.
pub open spec fn enemy_fire_spec(m: GameModel) -> GameModel {
    GameModel { lasers: m.lasers + m.enemies.map_values(|e: Enemy| enemy_laser(m.cfg, e)), ..m }
}

/// The enemy an accepted spawn adds: at its formation's start point,
/// with the stock extent and speed.
pub open spec fn spawned_enemy(cfg: Config, f: Formation) -> Enemy {
    Enemy { pos: f.start, size: cfg.enemy_size, speed: Speed(cfg.speed_step), formation: f }
}

/// The enemy spawn pass as a relation (the formation involves random
/// draws): below the enemy cap the generator hands out `f` as `make`
/// describes and the enemy joins with the counter ticking up; at the
/// cap the pass is a complete no-op, the generator included.
pub open spec fn enemy_spawn_rel(pre: GameModel, post: GameModel, f: Formation) -> bool {
    if pre.active_enemies < pre.cfg.max_enemies {
        &&& FormationMaker::make_post(pre.cfg, pre.maker, post.maker, f)
        &&& post.enemies == pre.enemies.push(spawned_enemy(pre.cfg, f))
        &&& post.active_enemies == pre.active_enemies + 1
        &&& post == (GameModel {
            maker: post.maker,
            enemies: post.enemies,
            active_enemies: post.active_enemies,
            ..pre
        })
    } else {
        post == pre
    }
}

impl GameState {
    /// Moves every player laser up by its speed and culls those above
    /// the window height.
    pub fn laser_movement(&mut self)
        requires
            old(self).wf(),
        ensures
            final(self).wf(),
            final(self)@ == laser_movement_spec(old(self)@),
    {
        let n: usize = self.lasers.len();
        let mut kept: Vec<Laser> = Vec::new();
        let mut i: usize = 0;
        while i < n
            invariant
                old(self).wf(),
                i <= n,
                n == old(self).lasers@.len(),
                self == old(self),
                kept@ == move_player_lasers(old(self).lasers@.subrange(0, i as int), old(self).cfg),
                forall|k: int| 0 <= k < kept@.len() ==> laser_wf(#[trigger] kept@[k], old(self).cfg),
            decreases n - i,
        {
            let l = self.lasers[i];
            proof {
                assert(old(self)@.lasers[i as int] == l);
                assert(laser_wf(l, old(self).cfg));
                assert(old(self).lasers@.subrange(0, (i + 1) as int).drop_last() =~= old(
                    self,
                ).lasers@.subrange(0, i as int));
            }
            match l.origin {
                Origin::FromPlayer => {
                    let ny: i64 = l.pos.y + l.speed.0;
                    if !(ny > self.cfg.win_h) {
                        kept.push(
                            Laser {
                                pos: Vec2i { x: l.pos.x, y: ny },
                                size: l.size,
                                speed: l.speed,
                                origin: l.origin,
                            },
                        );
                    }
                },
                Origin::FromEnemy => {
                    kept.push(l);
                },
            }
            i = i + 1;
        }
        proof {
            assert(old(self).lasers@.subrange(0, n as int) =~= old(self).lasers@);
        }
        self.lasers = kept;
        proof {
            assert(self@ =~= laser_movement_spec(old(self)@));
        }
    }

    /// Moves every enemy laser down by its speed and culls those below
    /// the playfield and its margin.
    pub fn enemy_laser_movement(&mut self)
        requires
            old(self).wf(),
        ensures
            final(self).wf(),
            final(self)@ == enemy_laser_movement_spec(old(self)@),
    {
        let n: usize = self.lasers.len();
        let mut kept: Vec<Laser> = Vec::new();
        let mut i: usize = 0;
        while i < n
            invariant
                old(self).wf(),
                i <= n,
                n == old(self).lasers@.len(),
                self == old(self),
                kept@ == move_enemy_lasers(old(self).lasers@.subrange(0, i as int), old(self).cfg),
                forall|k: int| 0 <= k < kept@.len() ==> laser_wf(#[trigger] kept@[k], old(self).cfg),
            decreases n - i,
        {
            let l = self.lasers[i];
            proof {
                assert(old(self)@.lasers[i as int] == l);
                assert(laser_wf(l, old(self).cfg));
                assert(old(self).lasers@.subrange(0, (i + 1) as int).drop_last() =~= old(
                    self,
                ).lasers@.subrange(0, i as int));
            }
            match l.origin {
                Origin::FromEnemy => {
                    let ny: i64 = l.pos.y - l.speed.0;
                    let floor: i64 = -(((self.cfg.win_h as u64) / 2) as i64) - self.cfg.laser_cull_margin;
                    if !(ny < floor) {
                        kept.push(
                            Laser {
                                pos: Vec2i { x: l.pos.x, y: ny },
                                size: l.size,
                                speed: l.speed,
                                origin: l.origin,
                            },
                        );
                    }
                },
                Origin::FromPlayer => {
                    kept.push(l);
                },
            }
            i = i + 1;
        }
        proof {
            assert(old(self).lasers@.subrange(0, n as int) =~= old(self).lasers@);
        }
        self.lasers = kept;
        proof {
            assert(self@ =~= enemy_laser_movement_spec(old(self)@));
        }
    }

    /// Advances every enemy one step along its formation arc.
    pub fn enemy_movement(&mut self)
        requires
            old(self).wf(),
        ensures
            final(self).wf(),
            final(self)@ == enemy_movement_spec(old(self)@),
    {
        let n: usize = self.enemies.len();
        let mut moved: Vec<Enemy> = Vec::new();
        let mut i: usize = 0;
        while i < n
            invariant
                old(self).wf(),
                i <= n,
                n == old(self).enemies@.len(),
                self == old(self),
                moved@ == old(self).enemies@.subrange(0, i as int).map_values(
                    |e: Enemy| enemy_step(e),
                ),
                forall|k: int| 0 <= k < moved@.len() ==> enemy_wf(#[trigger] moved@[k], old(self).cfg),
            decreases n - i,
        {
            let ne = enemy_move_one(&self.enemies[i], &self.cfg);
            moved.push(ne);
            proof {
                assert(old(self).enemies@.subrange(0, (i + 1) as int).map_values(
                    |e: Enemy| enemy_step(e),
                ) =~= old(self).enemies@.subrange(0, i as int).map_values(
                    |e: Enemy| enemy_step(e),
                ).push(enemy_step(old(self).enemies@[i as int])));
            }
            i = i + 1;
        }
        proof {
            assert(old(self).enemies@.subrange(0, n as int) =~= old(self).enemies@);
        }
        self.enemies = moved;
        proof {
            assert(self@ =~= enemy_movement_spec(old(self)@));
        }
    }

    /// Lets every live enemy fire one downward laser.
    pub fn enemy_fire(&mut self)
        requires
            old(self).wf(),
        ensures
            final(self).wf(),
            final(self)@ == enemy_fire_spec(old(self)@),
    {
        let n: usize = self.enemies.len();
        let mut volley: Vec<Laser> = Vec::new();
        let mut i: usize = 0;
        while i < n
            invariant
                old(self).wf(),
                i <= n,
                n == old(self).enemies@.len(),
                self == old(self),
                volley@ == old(self).enemies@.subrange(0, i as int).map_values(
                    |e: Enemy| enemy_laser(old(self).cfg, e),
                ),
                forall|k: int| 0 <= k < volley@.len() ==> laser_wf(#[trigger] volley@[k], old(self).cfg),
            decreases n - i,
        {
            let e = self.enemies[i];
            volley.push(
                Laser {
                    pos: Vec2i { x: e.pos.x, y: e.pos.y - self.cfg.laser_y_offset },
                    size: self.cfg.laser_size,
                    speed: Speed(self.cfg.speed_step),
                    origin: Origin::FromEnemy,
                },
            );
            proof {
                assert(old(self).enemies@.subrange(0, (i + 1) as int).map_values(
                    |e: Enemy| enemy_laser(old(self).cfg, e),
                ) =~= old(self).enemies@.subrange(0, i as int).map_values(
                    |e: Enemy| enemy_laser(old(self).cfg, e),
                ).push(enemy_laser(old(self).cfg, old(self).enemies@[i as int])));
            }
            i = i + 1;
        }
        proof {
            assert(old(self).enemies@.subrange(0, n as int) =~= old(self).enemies@);
        }
        self.lasers.append(&mut volley);
        proof {
            assert(self@ =~= enemy_fire_spec(old(self)@));
        }
    }

    /// While the enemy cap allows, requests a formation and spawns one
    /// enemy at its start point; at the cap nothing happens, the
    /// formation generator included.
    pub fn enemy_spawn(&mut self)
        requires
            old(self).wf(),
            old(self).maker.group_seq < u64::MAX,
        ensures
            final(self).wf(),
            exists|f: Formation| enemy_spawn_rel(old(self)@, final(self)@, f),
    {
        if self.active_enemies < self.cfg.max_enemies {
            let f = self.maker.make(&self.cfg);
            self.enemies.push(
                Enemy {
                    pos: f.start,
                    size: self.cfg.enemy_size,
                    speed: Speed(self.cfg.speed_step),
                    formation: f,
                },
            );
            self.active_enemies = self.active_enemies + 1;
            proof {
                assert(enemy_spawn_rel(old(self)@, self@, f));
            }
        } else {
            proof {
                let ghost f = vstd::pervasive::arbitrary::<Formation>();
                assert(self@ =~= old(self)@);
                assert(enemy_spawn_rel(old(self)@, self@, f));
            }
        }
    }
}

/// The laser-versus-enemy collision pass on the model: every enemy a
/// player laser overlaps dies exactly once, the counter drops by the
/// number of enemies destroyed, every spent player laser is gone, and
/// one explosion request per destroyed enemy is queued at its position.
pub open spec fn laser_hit_enemy_spec(m: GameModel) -> GameModel {
    GameModel {
        enemies: surviving_enemies(m.enemies, m.lasers),
        lasers: remaining_lasers(m.lasers, m.enemies),
        active_enemies: (m.active_enemies - killed_positions(m.enemies, m.lasers).len()) as u32,
        explosion_queue: m.explosion_queue + killed_positions(m.enemies, m.lasers).map_values(
            |p: Vec2i| ExplosionToSpawn(p),
        ),
        ..m
    }
}

/// The laser-versus-player collision pass on the model: if any enemy
/// laser overlaps the player, the player dies, the shot tick is
/// recorded, the hitters are gone, and one explosion request per hitter
/// is queued at the player's position.
pub open spec fn laser_hit_player_spec(m: GameModel) -> GameModel {
    match m.player {
        Option::Some(p) => {
            let hits = player_hit_count(m.lasers, p);
            if hits > 0 {
                GameModel {
                    lasers: lasers_after_player_hit(m.lasers, p),
                    player: Option::None,
                    player_state: PlayerState { on: false, last_shot: m.now },
                    explosion_queue: m.explosion_queue + Seq::new(
                        hits as nat,
                        |k: int| ExplosionToSpawn(p.pos),
                    ),
                    ..m
                }
            } else {
                m
            }
        },
        Option::None => m,
    }
}

impl GameState {
    /// Resolves player lasers against enemies: each overlapped enemy is
    /// destroyed once (the counter never double-decrements for one
    /// enemy), each spent laser is destroyed, and an explosion request
    /// is queued per destroyed enemy.
    pub fn laser_hit_enemy(&mut self)
        requires
            old(self).wf(),
        ensures
            final(self).wf(),
            final(self)@ == laser_hit_enemy_spec(old(self)@),
    {
        let nl: usize = self.lasers.len();
        let mut kept_lasers: Vec<Laser> = Vec::new();
        let mut i: usize = 0;
        while i < nl
            invariant
                old(self).wf(),
                self == old(self),
                i <= nl,
                nl == old(self)@.lasers.len(),
                kept_lasers@ == remaining_lasers(
                    old(self)@.lasers.subrange(0, i as int),
                    old(self)@.enemies,
                ),
                forall|k: int|
                    0 <= k < kept_lasers@.len() ==> laser_wf(#[trigger] kept_lasers@[k], old(self).cfg),
            decreases nl - i,
        {
            let l = self.lasers[i];
            proof {
                assert(old(self)@.lasers[i as int] == l);
                assert(laser_wf(l, old(self).cfg));
                assert(old(self)@.lasers.subrange(0, (i + 1) as int).drop_last() =~= old(
                    self,
                )@.lasers.subrange(0, i as int));
            }
            let spent = laser_spent_scan(&l, &self.enemies, &self.cfg);
            if !spent {
                kept_lasers.push(l);
            }
            i = i + 1;
        }
        proof {
            assert(old(self)@.lasers.subrange(0, nl as int) =~= old(self)@.lasers);
        }
        let ne: usize = self.enemies.len();
        let mut kept_enemies: Vec<Enemy> = Vec::new();
        let mut j: usize = 0;
        while j < ne
            invariant
                old(self).wf(),
                j <= ne,
                ne == old(self)@.enemies.len(),
                self.cfg == old(self).cfg,
                self.now == old(self).now,
                self.player_state == old(self).player_state,
                self.maker == old(self).maker,
                self.player == old(self).player,
                self.enemies == old(self).enemies,
                self.lasers == old(self).lasers,
                self.explosions == old(self).explosions,
                self.spawn_timer == old(self).spawn_timer,
                self.fire_timer == old(self).fire_timer,
                self.lifecycle_timer == old(self).lifecycle_timer,
                self.fire_held_prev == old(self).fire_held_prev,
                kept_enemies@ == surviving_enemies(
                    old(self)@.enemies.subrange(0, j as int),
                    old(self)@.lasers,
                ),
                self.explosion_queue@ == old(self)@.explosion_queue + killed_positions(
                    old(self)@.enemies.subrange(0, j as int),
                    old(self)@.lasers,
                ).map_values(|p: Vec2i| ExplosionToSpawn(p)),
                self.active_enemies == old(self)@.active_enemies - killed_positions(
                    old(self)@.enemies.subrange(0, j as int),
                    old(self)@.lasers,
                ).len(),
                killed_positions(old(self)@.enemies.subrange(0, j as int), old(self)@.lasers).len()
                    <= j,
                forall|k: int|
                    0 <= k < kept_enemies@.len() ==> enemy_wf(
                        #[trigger] kept_enemies@[k],
                        old(self).cfg,
                    ),
                forall|k: int|
                    0 <= k < self.explosion_queue@.len() ==> in_world(
                        (#[trigger] self.explosion_queue@[k]).0,
                    ),
            decreases ne - j,
        {
            let e = self.enemies[j];
            proof {
                assert(old(self)@.enemies[j as int] == e);
                assert(enemy_wf(e, old(self).cfg));
                assert(old(self)@.enemies.subrange(0, (j + 1) as int).drop_last() =~= old(
                    self,
                )@.enemies.subrange(0, j as int));
            }
            if enemy_hit_scan(&self.lasers, &e, &self.cfg) {
                self.explosion_queue.push(ExplosionToSpawn(e.pos));
                self.active_enemies = self.active_enemies - 1;
                proof {
                    let f = |p: Vec2i| ExplosionToSpawn(p);
                    assert(killed_positions(
                        old(self)@.enemies.subrange(0, (j + 1) as int),
                        old(self)@.lasers,
                    ).map_values(f) =~= killed_positions(
                        old(self)@.enemies.subrange(0, j as int),
                        old(self)@.lasers,
                    ).map_values(f).push(ExplosionToSpawn(e.pos)));
                }
            } else {
                kept_enemies.push(e);
            }
            j = j + 1;
        }
        proof {
            assert(old(self)@.enemies.subrange(0, ne as int) =~= old(self)@.enemies);
        }
        self.lasers = kept_lasers;
        self.enemies = kept_enemies;
        proof {
            lemma_kill_split(old(self)@.enemies, old(self)@.lasers);
            assert(self@ =~= laser_hit_enemy_spec(old(self)@));
        }
    }

    /// Resolves enemy lasers against the player: on any overlap the
    /// player is destroyed, the shot tick recorded, the hitters removed,
    /// and one explosion request queued per hitter at the player's
    /// position.
    pub fn laser_hit_player(&mut self)
        requires
            old(self).wf(),
        ensures
            final(self).wf(),
            final(self)@ == laser_hit_player_spec(old(self)@),
    {
        match self.player {
            Option::Some(p) => {
                let nl: usize = self.lasers.len();
                let mut kept: Vec<Laser> = Vec::new();
                let mut hits: usize = 0;
                let mut i: usize = 0;
                while i < nl
                    invariant
                        old(self).wf(),
                        old(self).player == Option::Some(p),
                        i <= nl,
                        nl == old(self)@.lasers.len(),
                        hits <= i,
                        self.cfg == old(self).cfg,
                        self.now == old(self).now,
                        self.active_enemies == old(self).active_enemies,
                        self.player_state == old(self).player_state,
                        self.maker == old(self).maker,
                        self.player == old(self).player,
                        self.enemies == old(self).enemies,
                        self.lasers == old(self).lasers,
                        self.explosions == old(self).explosions,
                        self.spawn_timer == old(self).spawn_timer,
                        self.fire_timer == old(self).fire_timer,
                        self.lifecycle_timer == old(self).lifecycle_timer,
                        self.fire_held_prev == old(self).fire_held_prev,
                        hits == player_hit_count(old(self)@.lasers.subrange(0, i as int), p),
                        kept@ == lasers_after_player_hit(
                            old(self)@.lasers.subrange(0, i as int),
                            p,
                        ),
                        self.explosion_queue@ == old(self)@.explosion_queue + Seq::new(
                            hits as nat,
                            |k: int| ExplosionToSpawn(p.pos),
                        ),
                        forall|k: int|
                            0 <= k < kept@.len() ==> laser_wf(#[trigger] kept@[k], old(self).cfg),
                    decreases nl - i,
                {
                    let l = self.lasers[i];
                    proof {
                        assert(old(self)@.lasers[i as int] == l);
                        assert(laser_wf(l, old(self).cfg));
                        assert(player_wf(p, old(self).cfg));
                        assert(old(self)@.lasers.subrange(0, (i + 1) as int).drop_last() =~= old(
                            self,
                        )@.lasers.subrange(0, i as int));
                    }
                    let is_hit = if l.origin == Origin::FromEnemy {
                        aabb_overlap(l.pos, l.size, p.pos, p.size)
                    } else {
                        false
                    };
                    if is_hit {
                        self.explosion_queue.push(ExplosionToSpawn(p.pos));
                        hits = hits + 1;
                        proof {
                            assert(Seq::new(hits as nat, |k: int| ExplosionToSpawn(p.pos)) =~= Seq::new(
                                (hits - 1) as nat,
                                |k: int| ExplosionToSpawn(p.pos),
                            ).push(ExplosionToSpawn(p.pos)));
                        }
                    } else {
                        kept.push(l);
                    }
                    i = i + 1;
                }
                proof {
                    assert(old(self)@.lasers.subrange(0, nl as int) =~= old(self)@.lasers);
                }
                self.lasers = kept;
                if hits > 0 {
                    self.player = Option::None;
                    self.player_state.shot(self.now);
                }
                proof {
                    if hits == 0 {
                        crate::collision::lemma_no_hit_keeps_lasers(old(self)@.lasers, p);
                    }
                    assert(self@ =~= laser_hit_player_spec(old(self)@));
                }
            },
            Option::None => {
                proof {
                    assert(self@ =~= laser_hit_player_spec(old(self)@));
                }
            },
        }
    }
}

/// The explosion spawn pass on the model: every queued request becomes a
/// fresh animation at its position, and the queue empties.
pub open spec fn explosion_to_spawn_spec(m: GameModel) -> GameModel {
    GameModel {
        explosions: m.explosions + m.explosion_queue.map_values(
            |r: ExplosionToSpawn| fresh_explosion(r),
        ),
        explosion_queue: Seq::empty(),
        ..m
    }
}

/// The explosion animation pass on the model: every animation takes one
/// tick; the finished ones are gone.
pub open spec fn animate_explosion_spec(m: GameModel) -> GameModel {
    GameModel { explosions: animate_all(m.explosions, m.cfg), ..m }
}

impl GameState {
    /// Turns every queued explosion request into a fresh animation.
    pub fn explosion_to_spawn(&mut self)
        requires
            old(self).wf(),
        ensures
            final(self).wf(),
            final(self)@ == explosion_to_spawn_spec(old(self)@),
    {
        let n: usize = self.explosion_queue.len();
        let mut spawned: Vec<Explosion> = Vec::new();
        let mut i: usize = 0;
        while i < n
            invariant
                old(self).wf(),
                self == old(self),
                i <= n,
                n == old(self)@.explosion_queue.len(),
                spawned@ == old(self)@.explosion_queue.subrange(0, i as int).map_values(
                    |r: ExplosionToSpawn| fresh_explosion(r),
                ),
                forall|k: int|
                    0 <= k < spawned@.len() ==> explosion_wf(#[trigger] spawned@[k], old(self).cfg),
            decreases n - i,
        {
            let r = self.explosion_queue[i];
            proof {
                assert(old(self)@.explosion_queue[i as int] == r);
                assert(in_world(r.0));
            }
            spawned.push(Explosion { pos: r.0, frame: 0, elapsed: 0 });
            proof {
                let f = |q: ExplosionToSpawn| fresh_explosion(q);
                assert(old(self)@.explosion_queue.subrange(0, (i + 1) as int).map_values(f) =~= old(
                    self,
                )@.explosion_queue.subrange(0, i as int).map_values(f).push(fresh_explosion(r)));
            }
            i = i + 1;
        }
        proof {
            assert(old(self)@.explosion_queue.subrange(0, n as int) =~= old(self)@.explosion_queue);
        }
        self.explosions.append(&mut spawned);
        self.explosion_queue.clear();
        proof {
            assert(self@ =~= explosion_to_spawn_spec(old(self)@));
        }
    }

    /// Advances every explosion animation one tick, removing the
    /// finished ones.
    pub fn animate_explosion(&mut self)
        requires
            old(self).wf(),
        ensures
            final(self).wf(),
            final(self)@ == animate_explosion_spec(old(self)@),
    {
        let n: usize = self.explosions.len();
        let mut kept: Vec<Explosion> = Vec::new();
        let mut i: usize = 0;
        while i < n
            invariant
                old(self).wf(),
                self == old(self),
                i <= n,
                n == old(self)@.explosions.len(),
                kept@ == animate_all(old(self)@.explosions.subrange(0, i as int), old(self).cfg),
                forall|k: int|
                    0 <= k < kept@.len() ==> explosion_wf(#[trigger] kept@[k], old(self).cfg),
            decreases n - i,
        {
            let x = self.explosions[i];
            proof {
                assert(old(self)@.explosions[i as int] == x);
                assert(explosion_wf(x, old(self).cfg));
                assert(old(self)@.explosions.subrange(0, (i + 1) as int).drop_last() =~= old(
                    self,
                )@.explosions.subrange(0, i as int));
            }
            if x.elapsed + 1 >= self.cfg.explosion_interval {
                if !(x.frame + 1 >= self.cfg.explosion_frames) {
                    kept.push(Explosion { pos: x.pos, frame: x.frame + 1, elapsed: 0 });
                }
            } else {
                kept.push(Explosion { pos: x.pos, frame: x.frame, elapsed: x.elapsed + 1 });
            }
            i = i + 1;
        }
        proof {
            assert(old(self)@.explosions.subrange(0, n as int) =~= old(self)@.explosions);
        }
        self.explosions = kept;
        proof {
            assert(self@ =~= animate_explosion_spec(old(self)@));
        }
    }
}

/// The clock advance at the head of a tick: time moves one tick and
/// each interval timer counts up, wrapping when its interval fills.
pub open spec fn advance_clock(m: GameModel) -> GameModel {
    GameModel {
        now: (m.now + 1) as u64,
        spawn_timer: if m.spawn_timer + 1 >= m.cfg.spawn_interval {
            0u64
        } else {
            (m.spawn_timer + 1) as u64
        },
        fire_timer: if m.fire_timer + 1 >= m.cfg.fire_interval {
            0u64
        } else {
            (m.fire_timer + 1) as u64
        },
        lifecycle_timer: if m.lifecycle_timer + 1 >= m.cfg.lifecycle_interval {
            0u64
        } else {
            (m.lifecycle_timer + 1) as u64
        },
        ..m
    }
}

/// The enemy spawn trigger fires this tick.
pub open spec fn spawn_due(m: GameModel) -> bool {
    m.spawn_timer + 1 >= m.cfg.spawn_interval
}

/// The enemy fire trigger fires this tick.
pub open spec fn fire_due(m: GameModel) -> bool {
    m.fire_timer + 1 >= m.cfg.fire_interval
}

/// The player respawn check fires this tick.
pub open spec fn lifecycle_due(m: GameModel) -> bool {
    m.lifecycle_timer + 1 >= m.cfg.lifecycle_interval
}

/// Everything a tick does after the (possibly random) enemy spawn:
/// shooting, firing, movement, both collision passes, the respawn
/// check, and the explosion passes, in that fixed order.
pub open spec fn tick_after_spawn(
    s: GameModel,
    left: bool,
    right: bool,
    fire: bool,
    fire_now: bool,
    lifecycle_now: bool,
) -> GameModel {
    let s2 = player_shoots_spec(s, fire);
    let s3 = if fire_now {
        enemy_fire_spec(s2)
    } else {
        s2
    };
    let s4 = player_movement_spec(s3, left, right);
    let s5 = laser_movement_spec(s4);
    let s6 = enemy_movement_spec(s5);
    let s7 = enemy_laser_movement_spec(s6);
    let s8 = laser_hit_enemy_spec(s7);
    let s9 = laser_hit_player_spec(s8);
    let s10 = if lifecycle_now {
        player_spawn_spec(s9)
    } else {
        s9
    };
    let s11 = explosion_to_spawn_spec(s10);
    animate_explosion_spec(s11)
}

/// One whole simulation tick as a relation on models: the clock
/// advances, the enemy spawner runs when due (its formation involves
/// random draws, so this step is related, not computed), and the
/// remaining passes follow deterministically in their fixed order.
pub open spec fn tick_rel(
    pre: GameModel,
    post: GameModel,
    left: bool,
    right: bool,
    fire: bool,
) -> bool {
    if spawn_due(pre) {
        exists|s: GameModel, fm: Formation|
            #[trigger] enemy_spawn_rel(advance_clock(pre), s, fm) && post == tick_after_spawn(
                s,
                left,
                right,
                fire,
                fire_due(pre),
                lifecycle_due(pre),
            )
    } else {
        post == tick_after_spawn(
            advance_clock(pre),
            left,
            right,
            fire,
            fire_due(pre),
            lifecycle_due(pre),
        )
    }
}

impl GameState {
    /// One simulation tick: advance the clock and its interval
    /// triggers, then run spawning, shooting, movement, collisions,
    /// the respawn check and the explosion passes in their fixed order.
    #[verifier::rlimit(100)]
    pub fn tick(&mut self, left: bool, right: bool, fire: bool)
        requires
            old(self).wf(),
            old(self).now < u64::MAX,
            old(self).maker.group_seq < u64::MAX,
        ensures
            final(self).wf(),
            final(self).now == old(self).now + 1,
            final(self).cfg == old(self).cfg,
            tick_rel(old(self)@, final(self)@, left, right, fire),
    {
        let ghost pre = self@;
        self.now = self.now + 1;
        let spawn_now_due: bool = self.spawn_timer + 1 >= self.cfg.spawn_interval;
        let fire_now_due: bool = self.fire_timer + 1 >= self.cfg.fire_interval;
        let lifecycle_now_due: bool = self.lifecycle_timer + 1 >= self.cfg.lifecycle_interval;
        self.spawn_timer = if spawn_now_due {
            0
        } else {
            self.spawn_timer + 1
        };
        self.fire_timer = if fire_now_due {
            0
        } else {
            self.fire_timer + 1
        };
        self.lifecycle_timer = if lifecycle_now_due {
            0
        } else {
            self.lifecycle_timer + 1
        };
        proof {
            assert(self@ =~= advance_clock(pre));
        }
        let ghost s0 = self@;
        if spawn_now_due {
            self.enemy_spawn();
        }
        let ghost s1 = self@;
        self.player_shoots(fire);
        if fire_now_due {
            self.enemy_fire();
        }
        self.player_movement(left, right);
        self.laser_movement();
        self.enemy_movement();
        self.enemy_laser_movement();
        self.laser_hit_enemy();
        self.laser_hit_player();
        if lifecycle_now_due {
            self.player_spawn();
        }
        self.explosion_to_spawn();
        self.animate_explosion();
        proof {
            assert(self@ == tick_after_spawn(
                s1,
                left,
                right,
                fire,
                fire_due(pre),
                lifecycle_due(pre),
            ));
            if spawn_due(pre) {
                let fm = choose|f: Formation| enemy_spawn_rel(s0, s1, f);
                assert(enemy_spawn_rel(advance_clock(pre), s1, fm));
            }
        }
    }
}

/// The model `GameState::new` returns.
pub open spec fn initial_model(cfg: Config) -> GameModel {
    GameModel {
        cfg,
        now: 0,
        active_enemies: 0,
        player_state: PlayerState { on: false, last_shot: 0 },
        maker: FormationMaker::initial(),
        player: Option::None,
        enemies: Seq::empty(),
        lasers: Seq::empty(),
        explosion_queue: Seq::empty(),
        explosions: Seq::empty(),
        spawn_timer: 0,
        fire_timer: 0,
        lifecycle_timer: 0,
        fire_held_prev: false,
    }
}

} // verus!
