//! A grid ray caster in the style of Wolfenstein 3D, with first-person
//! movement that slides along walls.
//!
//! All geometry is held in fixed point: one map cell is `fixed::ONE` units.
pub mod fixed;
pub mod map;
pub mod raycast;
pub mod column;
pub mod frame;
pub mod input;
pub mod world;
pub mod game;
