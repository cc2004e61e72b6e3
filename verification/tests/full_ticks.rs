//! Whole-tick runs: the global invariants hold at every observed tick.

use rust_invaders::config::{Config, Speed};
use rust_invaders::player::PlayerState;
use rust_invaders::world::GameState;

#[test]
fn defaults_match_the_stock_tuning() {
    let cfg = Config::standard();
    assert_eq!(cfg.win_w, 600_000);
    assert_eq!(cfg.win_h, 600_000);
    assert_eq!(cfg.speed_step, 8_333);
    assert_eq!(cfg.max_enemies, 2);
    assert_eq!(cfg.max_formation_members, 2);
    assert_eq!(cfg.respawn_delay, 120);
    assert_eq!(cfg.spawn_interval, 60);
    assert_eq!(cfg.fire_interval, 54);
    assert_eq!(cfg.explosion_frames, 16);
    assert_eq!(cfg.explosion_interval, 3);
    assert_eq!(Speed::default().0, 8_333);
    let ps = PlayerState::default();
    assert!(!ps.on);
    assert_eq!(ps.last_shot, 0);
}

#[test]
fn player_state_transitions() {
    let mut ps = PlayerState::default();
    ps.spawned();
    assert!(ps.on);
    assert_eq!(ps.last_shot, 0);
    ps.shot(4_242);
    assert!(!ps.on);
    assert_eq!(ps.last_shot, 4_242);
}

#[test]
fn counter_matches_live_enemies_every_tick() {
    let cfg = Config::standard();
    let mut s = GameState::new(cfg);
    s.player_spawn();
    for t in 0..600u64 {
        // Hold fire the whole time so the player keeps shooting pairs.
        s.tick(false, false, t % 2 == 0);
        assert_eq!(s.active_enemies as usize, s.enemies.len(), "tick {}", t);
        assert!(s.active_enemies <= cfg.max_enemies);
        // At most one live player, tracked by the lifecycle flag.
        assert_eq!(s.player_state.on, s.player.is_some());
        assert_eq!(s.now, t + 1);
    }
    // A minute of spawning at one enemy per second hits the cap.
    assert!(s.active_enemies > 0);
}

#[test]
fn ticks_spawn_enemies_on_the_interval() {
    let cfg = Config::standard();
    let mut s = GameState::new(cfg);
    for _ in 0..59 {
        s.tick(false, false, false);
    }
    assert_eq!(s.enemies.len(), 0);
    s.tick(false, false, false);
    assert_eq!(s.enemies.len(), 1);
}

#[test]
fn kill_then_respawn_after_delay() {
    let cfg = Config::standard();
    let mut s = GameState::new(cfg);
    s.player_spawn();
    let p = s.player.expect("spawned");
    // An enemy laser right above the player: after falling one step it
    // still overlaps, so the first tick's collision pass kills.
    s.lasers.push(rust_invaders::laser::Laser {
        pos: rust_invaders::geom::Vec2i { x: p.pos.x, y: p.pos.y + 20_000 },
        size: cfg.laser_size,
        speed: Speed(cfg.speed_step),
        origin: rust_invaders::laser::Origin::FromEnemy,
    });
    s.tick(false, false, false);
    assert!(s.player.is_none());
    assert_eq!(s.player_state.last_shot, 1);
    assert_eq!(s.explosions.len(), 1);
    // Respawn gate opens at now > 121; the half-second lifecycle checks
    // land on multiples of 30, so the player returns at tick 150.
    for _ in 2..=149u64 {
        s.tick(false, false, false);
        assert!(s.player.is_none());
    }
    s.tick(false, false, false);
    assert_eq!(s.now, 150);
    assert!(s.player.is_some());
    assert_eq!(s.player_state.last_shot, 0);
}

#[test]
fn lifecycle_tick_spawns_the_player() {
    let cfg = Config::standard();
    let mut s = GameState::new(cfg);
    for _ in 0..29 {
        s.tick(false, false, false);
        assert!(s.player.is_none());
    }
    s.tick(false, false, false);
    assert!(s.player.is_some());
}
