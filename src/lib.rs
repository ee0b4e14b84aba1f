//! Game logic of a small ball-and-paddle game, on an integer (fixed-point)
//! model of the playfield: positions and velocities are whole world units.

pub mod geometry;
pub mod input;
pub mod layout;
pub mod motion;
pub mod physics;
pub mod sound;

pub use geometry::{ScreenBounds, Vector};
pub use layout::{GameConfig, Layout};
pub use motion::FixedSpeed;
pub use physics::Body;
pub use sound::CollisionEvent;
