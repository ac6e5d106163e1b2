//! Interactive spatial selection and visibility scanning.
//!
//! World coordinates are fixed-point integers (see [`geometry::TICKS_PER_UNIT`]);
//! object and visual handles are plain identifiers handed out by the host world.
pub mod geometry;
pub mod picking;
pub mod scan;
pub mod selection;
pub mod orders;
pub mod placement;
