//! A small grid-world simulation: a procedurally classified 2D map populated
//! with obstacles and resources, traversed by autonomous robots that move on a
//! fixed-period timer and collect the resources they step onto.
//!
//! The simulation core is organised as:
//! - [`grid`]: positions, grid dimensions and the wraparound movement rule;
//! - [`noise_field`]: a sampled noise field with fixed-point values;
//! - [`classify`]: the threshold classification of a cell from its noise value;
//! - [`entity`]: the entity data model and the entity store;
//! - [`mapgen`]: map generation (classification-driven spawning plus a base);
//! - [`scheduler`]: the timer-gated robot movement rule;
//! - [`resolver`]: resource collection by collector robots;
//! - [`sim`]: the per-frame entry point tying scheduler and resolver together.

pub mod classify;
pub mod entity;
pub mod grid;
pub mod mapgen;
pub mod noise_field;
pub mod resolver;
mod rng;
pub mod scheduler;
pub mod sim;
