//! The formation generator and the enemy spawner.

use rust_invaders::config::Config;
use rust_invaders::formation::FormationMaker;
use rust_invaders::world::GameState;

#[test]
fn formation_shape_is_within_rolled_ranges() {
    let cfg = Config::standard();
    let mut maker = FormationMaker::new();
    for _ in 0..20 {
        let f = maker.make(&cfg);
        assert!(f.start.x == cfg.win_w || f.start.x == -cfg.win_w);
        let h_span = cfg.win_h / 2 - 100_000;
        let w_span = cfg.win_w / 2 - 100_000;
        assert!(-h_span <= f.start.y && f.start.y < h_span);
        assert!(-w_span <= f.offset.x && f.offset.x < w_span);
        assert!(0 <= f.offset.y && f.offset.y < h_span);
        assert!(80_000 <= f.radius.x && f.radius.x < 150_000);
        assert_eq!(f.radius.y, 100_000);
        assert!(0 <= f.angle && f.angle < 36_000);
    }
}

#[test]
fn formation_reuse_shares_shape_then_rolls_new_group() {
    let cfg = Config::standard();
    assert_eq!(cfg.max_formation_members, 2);
    let mut maker = FormationMaker::new();
    let f1 = maker.make(&cfg);
    let f2 = maker.make(&cfg);
    // Second member of the batch: identical template.
    assert_eq!(f1.start, f2.start);
    assert_eq!(f1.radius, f2.radius);
    assert_eq!(f1.offset, f2.offset);
    assert_eq!(f1.angle, f2.angle);
    assert_eq!(f1.group_id, f2.group_id);
    // Cap reached: the third request starts a new batch.
    let f3 = maker.make(&cfg);
    assert_eq!(f3.group_id, f1.group_id + 1);
    let f4 = maker.make(&cfg);
    assert_eq!(f4.group_id, f3.group_id);
}

#[test]
fn group_identifiers_are_monotonic() {
    let cfg = Config::standard();
    let mut maker = FormationMaker::new();
    let mut last: u64 = 0;
    for _ in 0..6 {
        let f = maker.make(&cfg);
        assert!(f.group_id >= last);
        last = f.group_id;
    }
    assert_eq!(last, 3);
}

#[test]
fn enemy_spawn_respects_cap_and_counter() {
    let cfg = Config::standard();
    assert_eq!(cfg.max_enemies, 2);
    let mut s = GameState::new(cfg);
    s.enemy_spawn();
    assert_eq!(s.active_enemies, 1);
    assert_eq!(s.enemies.len(), 1);
    s.enemy_spawn();
    assert_eq!(s.active_enemies, 2);
    assert_eq!(s.enemies.len(), 2);
    // At the cap the spawn is a complete no-op: no entity, no counter
    // change, and no formation requested from the generator.
    let maker_before = s.maker;
    s.enemy_spawn();
    assert_eq!(s.active_enemies, 2);
    assert_eq!(s.enemies.len(), 2);
    assert_eq!(s.maker, maker_before);
}

#[test]
fn spawned_enemy_sits_at_formation_start() {
    let cfg = Config::standard();
    let mut s = GameState::new(cfg);
    s.enemy_spawn();
    let e = &s.enemies[0];
    assert_eq!(e.pos, e.formation.start);
    assert_eq!(e.size, cfg.enemy_size);
    assert_eq!(e.speed.0, cfg.speed_step);
}
