//! The behavior of the simulation: one pass over the world per system and frame.

pub mod aggro;
pub mod animation;
pub mod attack;
pub mod camera;
pub mod enemy_movement;
pub mod frame;
pub mod hit;
pub mod input;
pub mod movement;
pub mod pass;
pub mod render;
