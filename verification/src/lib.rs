//! A verified simulation core for a grid-based snake arcade game.
//!
//! The library owns the whole game state: the snake body (an ordered,
//! double-ended sequence of grid positions, head first), the fruit, the
//! score, the pending-growth counter and the game-over flag.  Every state
//! transition — movement, wrap-around, growth, collision detection and
//! fruit placement — is specified by a contract and proved.  Rendering,
//! keyboard polling and frame pacing live outside the library and only
//! read snapshots of the public fields.

pub mod game;
pub mod geometry;
pub mod laws;
mod rng;
