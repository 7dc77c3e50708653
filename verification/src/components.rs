//! The kinds of data that can be attached to an entity.

pub mod collider;
pub mod direction;
pub mod enemy;
pub mod player;
pub mod position;
pub mod sprite;
pub mod velocity;
