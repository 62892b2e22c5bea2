//! A toroidal Game of Life engine over a dense bit-packed grid.
//!
//! The grid state lives in a double-buffered bit set; a `tick` reads one
//! buffer, writes the next generation into the other and then publishes it,
//! so that every neighbor count of a pass sees the previous generation.

pub mod laws;
pub mod model;
pub mod storage;
pub mod universe;

pub use universe::Universe;
