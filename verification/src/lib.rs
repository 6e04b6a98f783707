//! A trail-following swarm on a toroidal grid, in fixed-point arithmetic.
//!
//! Agents sense a pheromone field at three points ahead of them, steer
//! towards the strongest reading, deposit pheromone where they stand and move
//! on; the field then decays and diffuses. Every quantity is an integer
//! counted in millionths, so that each rule has an exact statement.
//!
//! Cosines and sines are not computed here: the caller hands in, for each
//! agent and tick, the directions of the five angles that the agent needs.

pub mod cell;
pub mod diffusion;
pub mod fixed;
pub mod geometry;
pub mod grid;
pub mod particle;
pub mod random;
pub mod simulation;

pub use crate::cell::Cell;
pub use crate::geometry::{Direction, Point};
pub use crate::grid::Grid;
pub use crate::particle::{Angles, Bearings, Particle, Readings, Turn};
pub use crate::random::RandomSource;
pub use crate::simulation::{InitPolicy, SimError, Simulation, Tuning};
