//! A toroidal Game of Life engine whose behaviour is stated in contracts and
//! proved by Verus.
//!
//! `grid` holds the mathematical model, `universe` the engine that the
//! contracts tie to it, `bitset` what is assumed of the bit sets underneath,
//! and `laws`, `stamps` and `drift` what is proved of the model.

pub mod bitset;
pub mod cell;
pub mod drift;
pub mod grid;
pub mod laws;
pub mod stamps;
pub mod universe;

pub use cell::Cell;
pub use grid::Grid;
pub use universe::Universe;
