//! A Conway-style cellular automaton on a fixed-size toroidal grid, with a
//! verified renderer that turns each cell into a solid 4x4 block of RGBA
//! pixels.

mod cell;
mod grid;
mod raster;
mod universe;

pub use cell::Cell;
pub use universe::Universe;
