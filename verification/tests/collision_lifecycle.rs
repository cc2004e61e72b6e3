//! Collision passes, the lifecycle state machine and the explosions.

use rust_invaders::config::{Config, Speed};
use rust_invaders::enemy::Enemy;
use rust_invaders::explosion::ExplosionToSpawn;
use rust_invaders::formation::Formation;
use rust_invaders::geom::Vec2i;
use rust_invaders::laser::{Laser, Origin};
use rust_invaders::player::{Player, PlayerState};
use rust_invaders::world::GameState;

fn v(x: i64, y: i64) -> Vec2i {
    Vec2i { x, y }
}

fn test_formation() -> Formation {
    Formation {
        start: v(600_000, 0),
        radius: v(100_000, 100_000),
        offset: v(0, 0),
        angle: 0,
        group_id: 1,
    }
}

fn enemy_at(cfg: &Config, pos: Vec2i) -> Enemy {
    Enemy { pos, size: cfg.enemy_size, speed: Speed(cfg.speed_step), formation: test_formation() }
}

fn laser_at(cfg: &Config, pos: Vec2i, origin: Origin) -> Laser {
    Laser { pos, size: cfg.laser_size, speed: Speed(cfg.speed_step), origin }
}

fn player_at(cfg: &Config, pos: Vec2i) -> Player {
    Player { pos, size: cfg.player_size, speed: Speed(cfg.speed_step), ready_fire: true }
}

#[test]
fn two_lasers_one_enemy_decrements_once() {
    let cfg = Config::standard();
    let mut s = GameState::new(cfg);
    s.enemies.push(enemy_at(&cfg, v(0, 0)));
    s.active_enemies = 1;
    s.lasers.push(laser_at(&cfg, v(-1_000, 0), Origin::FromPlayer));
    s.lasers.push(laser_at(&cfg, v(1_000, 0), Origin::FromPlayer));
    s.laser_hit_enemy();
    assert_eq!(s.active_enemies, 0);
    assert_eq!(s.enemies.len(), 0);
    assert_eq!(s.lasers.len(), 0);
    assert_eq!(s.explosion_queue.len(), 1);
    assert_eq!(s.explosion_queue[0], ExplosionToSpawn(v(0, 0)));
}

#[test]
fn one_laser_two_enemies_kills_both() {
    let cfg = Config::standard();
    let mut s = GameState::new(cfg);
    s.enemies.push(enemy_at(&cfg, v(-10_000, 0)));
    s.enemies.push(enemy_at(&cfg, v(10_000, 0)));
    s.active_enemies = 2;
    s.lasers.push(laser_at(&cfg, v(0, 0), Origin::FromPlayer));
    s.laser_hit_enemy();
    assert_eq!(s.active_enemies, 0);
    assert_eq!(s.enemies.len(), 0);
    assert_eq!(s.lasers.len(), 0);
    assert_eq!(s.explosion_queue.len(), 2);
}

#[test]
fn missing_laser_hits_nothing() {
    let cfg = Config::standard();
    let mut s = GameState::new(cfg);
    s.enemies.push(enemy_at(&cfg, v(0, 0)));
    s.active_enemies = 1;
    s.lasers.push(laser_at(&cfg, v(300_000, 300_000), Origin::FromPlayer));
    s.laser_hit_enemy();
    assert_eq!(s.active_enemies, 1);
    assert_eq!(s.enemies.len(), 1);
    assert_eq!(s.lasers.len(), 1);
    assert_eq!(s.explosion_queue.len(), 0);
}

#[test]
fn enemy_laser_never_hits_enemy() {
    let cfg = Config::standard();
    let mut s = GameState::new(cfg);
    s.enemies.push(enemy_at(&cfg, v(0, 0)));
    s.active_enemies = 1;
    // Dead-on overlap, but tagged as enemy fire: the pass ignores it.
    s.lasers.push(laser_at(&cfg, v(0, 0), Origin::FromEnemy));
    s.laser_hit_enemy();
    assert_eq!(s.active_enemies, 1);
    assert_eq!(s.enemies.len(), 1);
    assert_eq!(s.lasers.len(), 1);
}

#[test]
fn player_laser_never_hits_player() {
    let cfg = Config::standard();
    let mut s = GameState::new(cfg);
    s.player = Some(player_at(&cfg, v(0, -276_250)));
    s.player_state = PlayerState { on: true, last_shot: 0 };
    // Dead-on overlap, but tagged as player fire: the pass ignores it.
    s.lasers.push(laser_at(&cfg, v(0, -276_250), Origin::FromPlayer));
    s.laser_hit_player();
    assert!(s.player.is_some());
    assert!(s.player_state.on);
    assert_eq!(s.lasers.len(), 1);
    assert_eq!(s.explosion_queue.len(), 0);
}

#[test]
fn enemy_laser_kills_player_and_records_tick() {
    let cfg = Config::standard();
    let mut s = GameState::new(cfg);
    s.now = 600;
    s.player = Some(player_at(&cfg, v(0, -276_250)));
    s.player_state = PlayerState { on: true, last_shot: 0 };
    s.lasers.push(laser_at(&cfg, v(0, -276_250), Origin::FromEnemy));
    s.laser_hit_player();
    assert!(s.player.is_none());
    assert!(!s.player_state.on);
    assert_eq!(s.player_state.last_shot, 600);
    assert_eq!(s.lasers.len(), 0);
    assert_eq!(s.explosion_queue.len(), 1);
    assert_eq!(s.explosion_queue[0], ExplosionToSpawn(v(0, -276_250)));
}

#[test]
fn first_spawn_is_immediate() {
    let cfg = Config::standard();
    let mut s = GameState::new(cfg);
    assert!(s.player.is_none());
    s.player_spawn();
    let p = s.player.expect("player spawns at once when never shot");
    assert_eq!(p.pos, v(0, -300_000 + 23_750));
    assert!(p.ready_fire);
    assert!(s.player_state.on);
    assert_eq!(s.player_state.last_shot, 0);
}

#[test]
fn respawn_waits_out_the_delay() {
    let cfg = Config::standard();
    // Killed at tick 600; delay 120 ticks: no respawn through tick 720.
    let mut s = GameState::new(cfg);
    s.player_state = PlayerState { on: false, last_shot: 600 };
    s.now = 700;
    s.player_spawn();
    assert!(s.player.is_none());
    s.now = 720;
    s.player_spawn();
    assert!(s.player.is_none());
    s.now = 721;
    s.player_spawn();
    assert!(s.player.is_some());
    assert_eq!(s.player_state.last_shot, 0);
}

#[test]
fn no_spawn_while_alive() {
    let cfg = Config::standard();
    let mut s = GameState::new(cfg);
    s.player_spawn();
    let before = s.player.expect("spawned");
    s.player_spawn();
    assert_eq!(s.player.expect("still there"), before);
}

#[test]
fn explosion_runs_sixteen_frames_of_three_ticks() {
    let cfg = Config::standard();
    let mut s = GameState::new(cfg);
    s.explosion_queue.push(ExplosionToSpawn(v(0, 0)));
    s.explosion_to_spawn();
    assert_eq!(s.explosion_queue.len(), 0);
    assert_eq!(s.explosions.len(), 1);
    assert_eq!(s.explosions[0].frame, 0);
    // 16 frames at 3 ticks each: alive through tick 47, gone at tick 48.
    for t in 1..=47u32 {
        s.animate_explosion();
        assert_eq!(s.explosions.len(), 1, "gone early at tick {}", t);
    }
    assert_eq!(s.explosions[0].frame, 15);
    s.animate_explosion();
    assert_eq!(s.explosions.len(), 0);
}

#[test]
fn explosion_frame_advances_every_interval() {
    let cfg = Config::standard();
    let mut s = GameState::new(cfg);
    s.explosion_queue.push(ExplosionToSpawn(v(0, 0)));
    s.explosion_to_spawn();
    s.animate_explosion();
    s.animate_explosion();
    assert_eq!(s.explosions[0].frame, 0);
    s.animate_explosion();
    assert_eq!(s.explosions[0].frame, 1);
}
