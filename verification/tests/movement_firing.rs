//! Movement passes, projectile culling and the fire press logic.

use rust_invaders::config::{Config, Speed};
use rust_invaders::enemy::Enemy;
use rust_invaders::formation::Formation;
use rust_invaders::geom::Vec2i;
use rust_invaders::laser::{Laser, Origin};
use rust_invaders::world::GameState;

fn v(x: i64, y: i64) -> Vec2i {
    Vec2i { x, y }
}

fn laser_at(cfg: &Config, pos: Vec2i, origin: Origin) -> Laser {
    Laser { pos, size: cfg.laser_size, speed: Speed(cfg.speed_step), origin }
}

#[test]
fn player_laser_culled_above_window_height() {
    let cfg = Config::standard();
    let mut s = GameState::new(cfg);
    // Fired at y = 0, moving 8333 per tick against a 600-unit bound:
    // still alive at y = 599_976 after 72 ticks, culled on tick 73.
    s.lasers.push(laser_at(&cfg, v(0, 0), Origin::FromPlayer));
    for _ in 0..72 {
        s.laser_movement();
        assert_eq!(s.lasers.len(), 1);
    }
    assert_eq!(s.lasers[0].pos.y, 599_976);
    s.laser_movement();
    assert_eq!(s.lasers.len(), 0);
}

#[test]
fn enemy_laser_culled_below_margin() {
    let cfg = Config::standard();
    let mut s = GameState::new(cfg);
    // Falling from y = 0 toward the -350-unit floor: alive at
    // y = -349_986 after 42 ticks, culled on tick 43.
    s.lasers.push(laser_at(&cfg, v(0, 0), Origin::FromEnemy));
    for _ in 0..42 {
        s.enemy_laser_movement();
        assert_eq!(s.lasers.len(), 1);
    }
    assert_eq!(s.lasers[0].pos.y, -349_986);
    s.enemy_laser_movement();
    assert_eq!(s.lasers.len(), 0);
}

#[test]
fn movement_passes_ignore_the_other_origin() {
    let cfg = Config::standard();
    let mut s = GameState::new(cfg);
    s.lasers.push(laser_at(&cfg, v(0, 0), Origin::FromEnemy));
    s.laser_movement();
    assert_eq!(s.lasers[0].pos.y, 0);
    s.lasers.clear();
    s.lasers.push(laser_at(&cfg, v(0, 0), Origin::FromPlayer));
    s.enemy_laser_movement();
    assert_eq!(s.lasers[0].pos.y, 0);
}

#[test]
fn player_moves_left_and_right() {
    let cfg = Config::standard();
    let mut s = GameState::new(cfg);
    s.player_spawn();
    s.player_movement(false, true);
    assert_eq!(s.player.unwrap().pos.x, 8_333);
    s.player_movement(true, false);
    assert_eq!(s.player.unwrap().pos.x, 0);
    // Left wins when both inputs are held; none holds still.
    s.player_movement(true, true);
    assert_eq!(s.player.unwrap().pos.x, -8_333);
    s.player_movement(false, false);
    assert_eq!(s.player.unwrap().pos.x, -8_333);
}

#[test]
fn one_shot_per_press_fires_a_pair() {
    let cfg = Config::standard();
    let mut s = GameState::new(cfg);
    s.player_spawn();
    s.player_shoots(true);
    assert_eq!(s.lasers.len(), 2);
    // Offsets are symmetric around the player, raised by the muzzle.
    assert_eq!(s.lasers[0].pos, v(31_000, -276_250 + 15_000));
    assert_eq!(s.lasers[1].pos, v(-31_000, -276_250 + 15_000));
    assert!(matches!(s.lasers[0].origin, Origin::FromPlayer));
    // Holding the key does not fire again.
    s.player_shoots(true);
    s.player_shoots(true);
    assert_eq!(s.lasers.len(), 2);
    // Releasing re-arms; the next press fires another pair.
    s.player_shoots(false);
    s.player_shoots(true);
    assert_eq!(s.lasers.len(), 4);
}

#[test]
fn enemy_volley_one_laser_per_enemy() {
    let cfg = Config::standard();
    let mut s = GameState::new(cfg);
    let f = Formation {
        start: v(600_000, 0),
        radius: v(100_000, 100_000),
        offset: v(0, 0),
        angle: 0,
        group_id: 1,
    };
    s.enemies.push(Enemy { pos: v(0, 50_000), size: cfg.enemy_size, speed: Speed(cfg.speed_step), formation: f });
    s.enemies.push(Enemy { pos: v(90_000, 50_000), size: cfg.enemy_size, speed: Speed(cfg.speed_step), formation: f });
    s.active_enemies = 2;
    s.enemy_fire();
    assert_eq!(s.lasers.len(), 2);
    assert_eq!(s.lasers[0].pos, v(0, 35_000));
    assert_eq!(s.lasers[1].pos, v(90_000, 35_000));
    assert!(matches!(s.lasers[0].origin, Origin::FromEnemy));
}

#[test]
fn enemy_motion_approaches_target_without_overshoot() {
    let cfg = Config::standard();
    let mut s = GameState::new(cfg);
    let f = Formation {
        start: v(600_000, 0),
        radius: v(100_000, 100_000),
        offset: v(0, 0),
        angle: 0,
        group_id: 1,
    };
    s.enemies.push(Enemy { pos: f.start, size: cfg.enemy_size, speed: Speed(cfg.speed_step), formation: f });
    s.active_enemies = 1;
    let mut last = f.start;
    for _ in 0..200 {
        s.enemy_movement();
        let e = &s.enemies[0];
        // The ellipse through (rx, ry) = (100, 100) around the origin
        // keeps every target within 100 units of the center.
        assert!(e.pos.x.abs() <= 600_000);
        assert!(e.pos.y.abs() <= 110_000);
        last = e.pos;
    }
    // After 200 ticks at 8.3 units each the enemy has reached the orbit.
    assert!(last.x.abs() <= 110_000);
}
