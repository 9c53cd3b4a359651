//! A toroidal Game of Life engine with verified contracts, and the page
//! state that drives it.
pub mod cell;
pub mod conway;
pub mod sorting;
pub mod universe;
