//! Collision predicates and scans: which lasers hit what this tick.
//!
//! The two collision passes are separated by origin tag, not geometry:
//! player lasers are tested against enemies only, enemy lasers against
//! the player only.

use vstd::prelude::*;

verus! {

use crate::config::Config;
use crate::enemy::{Enemy, enemy_wf};
use crate::geom::{Vec2i, boxes_overlap, aabb_overlap};
use crate::laser::{Laser, Origin, laser_wf};
use crate::player::Player;

/// A player-origin laser overlapping an enemy's box.
pub open spec fn laser_hits_enemy(l: Laser, e: Enemy) -> bool {
    l.origin is FromPlayer && boxes_overlap(l.pos, l.size, e.pos, e.size)
}

/// Some laser of the volley hits the enemy.
pub open spec fn enemy_is_hit(e: Enemy, ls: Seq<Laser>) -> bool {
    exists|i: int| 0 <= i < ls.len() && laser_hits_enemy(#[trigger] ls[i], e)
}

/// A player-origin laser that overlaps some enemy is spent this tick.
pub open spec fn laser_spent(l: Laser, es: Seq<Enemy>) -> bool {
    l.origin is FromPlayer && exists|j: int|
        0 <= j < es.len() && boxes_overlap(l.pos, l.size, (#[trigger] es[j]).pos, es[j].size)
}

/// The enemies that survive the volley, in order.  An enemy dies once
/// however many lasers overlap it.
pub open spec fn surviving_enemies(es: Seq<Enemy>, ls: Seq<Laser>) -> Seq<Enemy>
    decreases es.len(),
{
    if es.len() == 0 {
        Seq::empty()
    } else {
        let rest = surviving_enemies(es.drop_last(), ls);
        if enemy_is_hit(es.last(), ls) {
            rest
        } else {
            rest.push(es.last())
        }
    }
}

/// Positions of the enemies the volley destroys, in order: one entry per
/// destroyed enemy, regardless of how many lasers overlapped it.
pub open spec fn killed_positions(es: Seq<Enemy>, ls: Seq<Laser>) -> Seq<Vec2i>
    decreases es.len(),
{
    if es.len() == 0 {
        Seq::empty()
    } else {
        let rest = killed_positions(es.drop_last(), ls);
        if enemy_is_hit(es.last(), ls) {
            rest.push(es.last().pos)
        } else {
            rest
        }
    }
}

/// The lasers left after the volley: spent player lasers are gone, enemy
/// lasers pass through untouched.
pub open spec fn remaining_lasers(ls: Seq<Laser>, es: Seq<Enemy>) -> Seq<Laser>
    decreases ls.len(),
{
    if ls.len() == 0 {
        Seq::empty()
    } else {
        let rest = remaining_lasers(ls.drop_last(), es);
        if laser_spent(ls.last(), es) {
            rest
        } else {
            rest.push(ls.last())
        }
    }
}

/// Every enemy either survives or contributes exactly one killed
/// position: the counter decrement equals the entities destroyed.
pub proof fn lemma_kill_split(es: Seq<Enemy>, ls: Seq<Laser>)
    ensures
        killed_positions(es, ls).len() + surviving_enemies(es, ls).len() == es.len(),
    decreases es.len(),
{
    if es.len() > 0 {
        lemma_kill_split(es.drop_last(), ls);
    }
}

/// An enemy-origin laser overlapping the player's box.
pub open spec fn laser_hits_player(l: Laser, p: Player) -> bool {
    l.origin is FromEnemy && boxes_overlap(l.pos, l.size, p.pos, p.size)
}

/// The lasers left after the player pass: the hitters are gone.
pub open spec fn lasers_after_player_hit(ls: Seq<Laser>, p: Player) -> Seq<Laser>
    decreases ls.len(),
{
    if ls.len() == 0 {
        Seq::empty()
    } else {
        let rest = lasers_after_player_hit(ls.drop_last(), p);
        if laser_hits_player(ls.last(), p) {
            rest
        } else {
            rest.push(ls.last())
        }
    }
}

/// How many lasers hit the player this tick.
pub open spec fn player_hit_count(ls: Seq<Laser>, p: Player) -> int
    decreases ls.len(),
{
    if ls.len() == 0 {
        0int
    } else {
        player_hit_count(ls.drop_last(), p) + if laser_hits_player(ls.last(), p) {
            1int
        } else {
            0int
        }
    }
}

/// The hit count never exceeds the laser count.
pub proof fn lemma_player_hit_count_bound(ls: Seq<Laser>, p: Player)
    ensures
        0 <= player_hit_count(ls, p) <= ls.len(),
    decreases ls.len(),
{
    if ls.len() > 0 {
        lemma_player_hit_count_bound(ls.drop_last(), p);
    }
}

/// When nothing hits the player, the player pass keeps every laser.
pub proof fn lemma_no_hit_keeps_lasers(ls: Seq<Laser>, p: Player)
    requires
        player_hit_count(ls, p) == 0,
    ensures
        lasers_after_player_hit(ls, p) == ls,
    decreases ls.len(),
{
    if ls.len() > 0 {
        lemma_player_hit_count_bound(ls.drop_last(), p);
        lemma_no_hit_keeps_lasers(ls.drop_last(), p);
        assert(lasers_after_player_hit(ls, p) =~= ls);
    }
}

/// Pass separation, laser by laser: the origin tag alone, not geometry,
/// decides which pass a laser takes part in.  A player-origin laser
/// never counts as hitting the player, and an enemy-origin laser never
/// counts as hitting an enemy, wherever they are.
pub proof fn lemma_pass_separation(l: Laser, p: Player, e: Enemy)
    ensures
        l.origin is FromPlayer ==> !laser_hits_player(l, p),
        l.origin is FromEnemy ==> !laser_hits_enemy(l, e),
{
}

/// Pass separation, whole volley: a volley of player-origin lasers
/// leaves the player pass with nothing to do — no hit is counted and
/// every laser survives it.
pub proof fn lemma_player_safe_from_own_lasers(ls: Seq<Laser>, p: Player)
    requires
        forall|i: int| 0 <= i < ls.len() ==> (#[trigger] ls[i]).origin is FromPlayer,
    ensures
        player_hit_count(ls, p) == 0,
        lasers_after_player_hit(ls, p) == ls,
    decreases ls.len(),
{
    if ls.len() > 0 {
        lemma_player_safe_from_own_lasers(ls.drop_last(), p);
        assert(lasers_after_player_hit(ls, p) =~= ls);
    }
}

/// Whether any laser of the volley hits the enemy.
pub fn enemy_hit_scan(ls: &Vec<Laser>, e: &Enemy, cfg: &Config) -> (b: bool)
    requires
        cfg.valid(),
        enemy_wf(*e, *cfg),
        forall|i: int| 0 <= i < ls@.len() ==> laser_wf(#[trigger] ls@[i], *cfg),
    ensures
        b == enemy_is_hit(*e, ls@),
{
    let n: usize = ls.len();
    let mut i: usize = 0;
    while i < n
        invariant
            cfg.valid(),
            enemy_wf(*e, *cfg),
            forall|k: int| 0 <= k < ls@.len() ==> laser_wf(#[trigger] ls@[k], *cfg),
            n == ls@.len(),
            i <= n,
            forall|k: int| 0 <= k < i ==> !laser_hits_enemy(#[trigger] ls@[k], *e),
        decreases n - i,
    {
        let l = ls[i];
        if l.origin == Origin::FromPlayer {
            if aabb_overlap(l.pos, l.size, e.pos, e.size) {
                proof {
                    assert(laser_hits_enemy(ls@[i as int], *e));
                }
                return true;
            }
        }
        i = i + 1;
    }
    false
}

/// Whether the laser is a player laser overlapping some enemy.
pub fn laser_spent_scan(l: &Laser, es: &Vec<Enemy>, cfg: &Config) -> (b: bool)
    requires
        cfg.valid(),
        laser_wf(*l, *cfg),
        forall|j: int| 0 <= j < es@.len() ==> enemy_wf(#[trigger] es@[j], *cfg),
    ensures
        b == laser_spent(*l, es@),
{
    if !(l.origin == Origin::FromPlayer) {
        return false;
    }
    let n: usize = es.len();
    let mut j: usize = 0;
    while j < n
        invariant
            cfg.valid(),
            laser_wf(*l, *cfg),
            l.origin is FromPlayer,
            forall|k: int| 0 <= k < es@.len() ==> enemy_wf(#[trigger] es@[k], *cfg),
            n == es@.len(),
            j <= n,
            forall|k: int|
                0 <= k < j ==> !boxes_overlap(l.pos, l.size, (#[trigger] es@[k]).pos, es@[k].size),
        decreases n - j,
    {
        let e = es[j];
        if aabb_overlap(l.pos, l.size, e.pos, e.size) {
            proof {
                assert(boxes_overlap(l.pos, l.size, es@[j as int].pos, es@[j as int].size));
            }
            return true;
        }
        j = j + 1;
    }
    false
}

} // verus!
