//! Maze levels as placed geometry, and the steering of the agents that hunt
//! through them.
//!
//! The crate has two halves. [`level`] turns a maze graph into the wall
//! segments and corner posts of a level, each with its place in the world.
//! [`enemy`] decides, on a fixed cadence, which way a pursuing agent heads.
//! All arithmetic is exact: world coordinates are fixed-point integers, and
//! anything that needs a square root or an angle is left to the caller.

pub mod enemy;
pub mod geometry;
pub mod graph;
pub mod level;
pub mod spawn;
