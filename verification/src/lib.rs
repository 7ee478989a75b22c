//! Game rules of a two-dimensional space shooter in which fighters,
//! bullets and asteroids collide, shields recharge, destroyed fighters
//! respawn and a round ends when player 0 is destroyed or time runs out.
//!
//! Rendering, physics integration and the neural-network agents live in
//! the engine around this library; the library decides what happens.

pub mod settings;
pub mod act;
pub mod countdown;
pub mod components;
pub mod stats;
pub mod players;
pub mod agents;
pub mod collision;
pub mod random;
pub mod laws;
