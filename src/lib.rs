//! Vehicle simulation and track progress for an arcade driving game, in
//! fixed-point arithmetic: lengths in millimetres, angles in micro-radians,
//! time in microseconds, ratios in parts per million.
//!
//! Each frame the vehicle is integrated under a simple force model
//! (`car`), pushed out of the track's walls and obstacles in order
//! (`collision`), and checked against the next checkpoint of the lap
//! (`progress`); `session` threads the three together.

use vstd::prelude::*;

pub mod car;
pub mod collision;
pub mod fixed;
pub mod progress;
pub mod session;
pub mod straight;
pub mod track;
pub mod vector;

verus! {

} // verus!
