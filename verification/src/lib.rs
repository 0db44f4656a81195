//! A deterministic traffic simulation engine in fixed-point arithmetic.
//!
//! Cars drive on a circular multi-lane road or on a four-way
//! interchange. One tick runs traffic management (driver decisions,
//! spawning, despawning) and then the kinematics of every car. All
//! quantities are integers in millionths of their unit, so a run is
//! reproducible to the last digit, and the sequential and the
//! data-parallel backend give the same cars.

pub mod compute;
pub mod config;
pub mod fixed;
pub mod graphics;
pub mod rng;
pub mod simulation;
pub mod text;
