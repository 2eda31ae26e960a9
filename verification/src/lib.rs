//! A falling-capsule puzzle engine: a fixed grid of viruses and capsule
//! halves, the capsule that the player steers, the rules that lock, match,
//! destroy and settle, and the per-player turn cycle that ties them together.

pub mod geometry;
pub mod pill;
pub mod block;
pub mod event;
pub mod rng;
pub mod text;
pub mod grid;
pub mod pattern;
pub mod settle;
pub mod random;
pub mod bottle;
pub mod metrics;
pub mod game;
pub mod rules;
pub mod player;
pub mod animate;
