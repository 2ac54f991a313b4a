//! The tools through which the simulation engine reads and changes the world.

pub mod catalog;
pub mod executors;
mod ids;
