//! Simulation core of a small starfield arcade game.
//!
//! Every real-valued quantity of the game (depths, blend factors, particle
//! positions) is held as a whole number of millionths, so that the rules of
//! the simulation are stated and proved over the integers.

pub mod canvas;
pub mod chance;
pub mod draw_text;
pub mod game_state;
pub mod particles;
pub mod simple_random;
pub mod sound;
pub mod space_objects;
pub mod utils;
