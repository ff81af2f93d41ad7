//! A verified Conway's Game of Life engine.
//!
//! The library holds the toroidal grid, the generation (step) function, the
//! command protocol through which a consumer controls the simulation, and the
//! per-cycle decision logic of the simulation driver.  Rendering and the
//! channels that carry snapshots and commands live outside the library.

pub mod control;
pub mod gameoflife;
pub mod laws;
