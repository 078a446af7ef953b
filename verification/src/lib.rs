//! A verified spatial-decomposition force-simulation engine for a population
//! of typed point particles ("spores") on a toroidal 2D plane.
//!
//! Coordinates, velocities and force parameters are fixed-point integers
//! (scaled by `configuration::SCALE`), so every arithmetic step of the engine
//! has an exact mathematical specification.

pub mod bucket;
pub mod configuration;
pub mod fixed;
pub mod generators;
pub mod movement_calculator;
pub mod simulation;
pub mod spore;
pub mod spore_mover;
pub mod vector;
