//! Points on the globe, held as IEEE-754 bit patterns, with an exact
//! single-to-double widening of their components.
pub mod binary;
pub mod location;

pub use binary::{doubles_equal, widen_single};
pub use location::Location;
