//! The simulation core of a small action game in two dimensions.
//!
//! The [`world`] stores what the entities of the game are made of, one column
//! per kind of [component](components); a [`query`] finds the entities that
//! have the components a [system](systems) works on; and the systems, run
//! one after the other each frame, are the behavior of the game: the player
//! follows the controls, the enemies wander, chase and attack, swings land,
//! everything moves unless an obstacle stands in the way, and every sprite
//! shows the clip that fits.
//!
//! The core draws nothing and reads no device. Its caller hands it the
//! controls that are held, the time since the last frame and the obstacles
//! of the map, and takes from it what there is to draw. All the numbers it
//! works on are whole numbers of thousandths (see [`math`]), so that a frame
//! that begins with the same world, meets the same controls and draws the
//! same lots ends with the same world on every machine.

pub mod animation;
pub mod components;
pub mod entity;
pub mod math;
pub mod query;
mod random;
pub mod systems;
pub mod world;
