//! Fixed-timestep physics core of a small 2D platformer.
//!
//! The world advances movable and static rectangular bodies, resolves
//! axis-aligned collisions with directional contact tracking, and drives
//! player input through accumulated forces.  All quantities are fixed-point
//! numbers (see [`fx`]), so every step of the simulation is exact and its
//! behaviour is stated and proved against a mathematical model.

pub mod collide;
pub mod control;
pub mod entity;
pub mod fx;
pub mod params;
pub mod vec2;
pub mod world;

pub use collide::check_collision;
pub use control::Controller;
pub use control::KeyStates;
pub use control::PlayerController;
pub use entity::Direction;
pub use entity::Event;
pub use entity::KeyState;
pub use entity::Object;
pub use entity::ObjectType;
pub use fx::FX_SCALE;
pub use vec2::Vec2;
pub use world::GameState;
