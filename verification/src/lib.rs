//! The rules of a snake game played on a square grid whose edges wrap around.
//!
//! The crate holds the game state and its transitions, one tick at a time. It
//! draws no random numbers and renders nothing: the host hands in each random
//! draw and reads the state back through the accessors of [`World`].

pub mod grid;
pub mod laws;
pub mod model;
pub mod snake;
pub mod world;

pub use grid::Direction;
pub use model::GameStatus;
pub use snake::SnakeCell;
pub use world::World;
