//! Simulation core of a first-person dungeon crawler.
//!
//! The crate holds the rules of the game as verified functions on plain
//! values: the tile grid and its generation, the extraction of wall faces,
//! pickups, weapons and combat. Rendering, audio, input and the frame loop
//! live outside and talk to this crate through plain data.

pub mod tile;
pub mod tilemap;
pub mod mapgen;
pub mod mesh;
pub mod rng;
pub mod audio;
pub mod combat;
pub mod game;
pub mod weapon;
pub mod pickup;
pub mod ai;
pub mod physics;
pub mod schedule;
