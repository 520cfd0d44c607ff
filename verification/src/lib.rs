//! Verified core of a starfield renderer: a depth-sorted array of stars moving
//! toward the camera, with tiered partial updates of a CPU-side vertex mirror.
//!
//! All world-space quantities (positions, depths, angles, speeds) are carried
//! as fixed-point integers in thousandths of a unit ("mil"), so that every
//! rule of the simulation is exact and provable.

pub mod config;
pub mod counter;
pub mod project;
pub mod quad;
pub mod ranges;
pub mod ringbuf;
pub mod rng;
pub mod sorting;
pub mod star;
pub mod stars;
pub mod tiers;
pub mod trig;
pub mod ui;
pub mod util;
