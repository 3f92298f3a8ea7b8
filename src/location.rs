//! A point on the globe.
use vstd::prelude::*;

use crate::binary::{double_equal, doubles_equal, widen_single, widened};

verus! {

/// A point on the globe: latitude and longitude in degrees, each held as the
/// bit pattern of an IEEE-754 double. Neither is checked against a range.
#[derive(Clone, Copy, Debug)]
pub struct Location {
    pub latitude: u64,
    pub longitude: u64,
}

/// Two locations are equal when both pairs of components are equal as
/// doubles (no tolerance; a NaN component makes them unequal).
impl PartialEq for Location {
    fn eq(&self, other: &Location) -> (r: bool) {
        doubles_equal(self.latitude, other.latitude) && doubles_equal(
            self.longitude,
            other.longitude,
        )
    }
}

impl vstd::std_specs::cmp::PartialEqSpecImpl for Location {
    open spec fn obeys_eq_spec() -> bool {
        true
    }

    open spec fn eq_spec(&self, other: &Location) -> bool {
        double_equal(self.latitude, other.latitude) && double_equal(
            self.longitude,
            other.longitude,
        )
    }
}

/// A location from a pair of doubles `(latitude, longitude)`, taken as they are.
impl From<(u64, u64)> for Location {
    fn from(latlon: (u64, u64)) -> (r: Location) {
        Location { latitude: latlon.0, longitude: latlon.1 }
    }
}

impl vstd::std_specs::convert::FromSpecImpl<(u64, u64)> for Location {
    open spec fn obeys_from_spec() -> bool {
        true
    }

    open spec fn from_spec(latlon: (u64, u64)) -> Location {
        Location { latitude: latlon.0, longitude: latlon.1 }
    }
}

/// A location from a pair of singles `(latitude, longitude)`, each widened to
/// the double of the same value.
impl From<(u32, u32)> for Location {
    fn from(latlon: (u32, u32)) -> (r: Location) {
        Location { latitude: widen_single(latlon.0), longitude: widen_single(latlon.1) }
    }
}

impl vstd::std_specs::convert::FromSpecImpl<(u32, u32)> for Location {
    open spec fn obeys_from_spec() -> bool {
        true
    }

    open spec fn from_spec(latlon: (u32, u32)) -> Location {
        Location { latitude: widened(latlon.0), longitude: widened(latlon.1) }
    }
}

} // verus!
