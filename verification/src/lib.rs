//! Core of a self-driving-agent simulation: ray sensors probing rectangular
//! obstacles, threshold neural networks turning sensor readings into controls,
//! a fixed-timestep kinematics integrator, and a collision detector that
//! permanently disables crashed vehicles.
//!
//! All quantities are fixed-point integers: a value of `fixed::SCALE`
//! stands for 1.0. Exact rational arithmetic (integer numerator and
//! denominator) is used where geometry requires a division.
pub mod fixed;
pub mod car;
pub mod geometry;
pub mod network;
pub mod ray;
pub mod resources;
pub mod road;
mod rng;
pub mod world;

pub use fixed::lerp;
