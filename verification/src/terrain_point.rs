//! The sample points of an elevation field.

use vstd::prelude::*;
use crate::types::{Length, Point};

verus! {

/// A place on the body at which the elevation is known.
#[derive(Clone, Copy, Debug, PartialEq, Eq, Structural)]
pub struct TerrainPoint {
    pub location: TerrainLocation,
    pub elevation: Length,
}

/// Where a sample point lies, relative to the center of the body.
#[derive(Clone, Copy, Debug, PartialEq, Eq, Structural)]
pub struct TerrainLocation {
    pub point: Point,
}

impl TerrainLocation {
    /// The location at `point`.
    pub fn new(point: Point) -> (location: Self)
        ensures
            location.point == point,
    {
        Self { point }
    }

    /// The number of coordinates of a location.
    pub fn dimensions() -> (count: usize)
        ensures
            count == 2,
    {
        2
    }

    /// The location whose coordinates all equal `value`.
    pub fn from_value(value: i64) -> (location: Self)
        ensures
            location.point == (Point { x: value, y: value }),
    {
        Self { point: Point { x: value, y: value } }
    }

    /// Coordinate `index` of the location: 0 for x, 1 for y.
    pub open spec fn coordinate(self, index: int) -> i64 {
        if index == 0 {
            self.point.x
        } else {
            self.point.y
        }
    }

    /// Coordinate `index` of the location.
    pub fn nth(&self, index: usize) -> (value: i64)
        requires
            index < 2,
        ensures
            value == self.coordinate(index as int),
    {
        if index == 0 {
            self.point.x
        } else {
            self.point.y
        }
    }

    /// Replaces coordinate `index` of the location.
    pub fn set_nth(&mut self, index: usize, value: i64)
        requires
            index < 2,
        ensures
            final(self).coordinate(index as int) == value,
            final(self).coordinate(1 - index as int) == old(self).coordinate(1 - index as int),
    {
        if index == 0 {
            self.point.x = value;
        } else {
            self.point.y = value;
        }
    }
}

impl TerrainPoint {
    /// Where the point lies.
    pub fn position(&self) -> (location: TerrainLocation)
        ensures
            location == self.location,
    {
        self.location
    }
}

} // verus!
