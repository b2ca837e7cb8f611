//! A verified multiplayer snake simulation for a 28 by 14 pixel wall display.
//!
//! The library holds the whole game logic: the toroidal grid, the snakes,
//! the per-tick update (movement, collision resolution, fruit growth and
//! relocation, respawns) and the input router that maps player identities
//! to roster slots. Transport, timing and process setup live outside it.

pub mod color;
pub mod grid;
pub mod rng;
pub mod router;
pub mod snake;
pub mod state;
