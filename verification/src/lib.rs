//! Core logic of a fixed-timestep 2D space-invaders simulation.
//!
//! Positions and sizes are integers in milli-units (one thousandth of a
//! world unit); time is counted in whole simulation ticks.  The playfield,
//! the entities (player, enemies, lasers, explosions) and the rules that
//! advance them each tick live here; rendering, input polling and the
//! window belong to whatever host drives the simulation.

pub mod collision;
pub mod config;
pub mod enemy;
pub mod explosion;
pub mod formation;
pub mod geom;
pub mod laser;
pub mod laws;
pub mod player;
mod rng;
pub mod trig;
pub mod world;
