//! Structured grids for numerical-simulation preprocessing: vertex storage
//! with dense ids, boundary and adjacency queries under two index orders,
//! and the assembly of wall-distribution coordinates into a grid.

pub mod double;
pub mod geometry;
pub mod grid;
pub mod mesher;
pub mod numeric;
pub mod point;
pub mod text;
pub mod utils;
