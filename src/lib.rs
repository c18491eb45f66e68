//! A fixed-tick arcade simulation: a player ship at the bottom of a grid
//! defends against a sweeping, descending enemy formation. The library holds
//! the world state, the per-tick motion, fire and collision rules, and a
//! snapshot of the grid for a renderer; its contracts are proved by Verus.

pub mod config;
pub mod entity;
pub mod game;
mod chance;
pub mod sweep;
pub mod fire;
pub mod collide;
pub mod tick;
pub mod snapshot;

pub use entity::Entity;
pub use game::Game;
pub use snapshot::{Cell, Snapshot};
pub use tick::{Intent, Status};
