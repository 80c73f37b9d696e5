//! Two dimensional coordinates.
use vstd::prelude::*;

verus! {

/// A two dimensional coordinate.
#[derive(Clone, Copy, Debug, Default, PartialEq, Eq, Structural, Hash)]
pub struct Coord<T> {
    /// The horizontal component.
    pub x: T,
    /// The vertical component.
    pub y: T,
}

impl<T> Coord<T> {
    /// A coordinate of the given components.
    pub fn new(x: T, y: T) -> (r: Self)
        ensures
            r.x == x,
            r.y == y,
    {
        Coord { x, y }
    }
}

impl Coord<i32> {
    /// The origin.
    pub fn zero() -> (r: Self)
        ensures
            r.x == 0 && r.y == 0,
    {
        Coord { x: 0, y: 0 }
    }
}

impl Coord<u32> {
    /// The origin.
    pub fn zero() -> (r: Self)
        ensures
            r.x == 0 && r.y == 0,
    {
        Coord { x: 0, y: 0 }
    }

    /// The coordinate with each component reinterpreted as a signed 32-bit value.
    pub fn to_signed(self) -> (r: Coord<i32>)
        ensures
            r.x == self.x as i32,
            r.y == self.y as i32,
    {
        Coord { x: self.x as i32, y: self.y as i32 }
    }
}

impl From<(u32, u32)> for Coord<u32> {
    fn from(val: (u32, u32)) -> (r: Self) {
        Coord { x: val.0, y: val.1 }
    }
}

impl vstd::std_specs::convert::FromSpecImpl<(u32, u32)> for Coord<u32> {
    open spec fn obeys_from_spec() -> bool {
        true
    }

    open spec fn from_spec(val: (u32, u32)) -> Self {
        Coord { x: val.0, y: val.1 }
    }
}

impl From<(i32, i32)> for Coord<i32> {
    fn from(val: (i32, i32)) -> (r: Self) {
        Coord { x: val.0, y: val.1 }
    }
}

impl vstd::std_specs::convert::FromSpecImpl<(i32, i32)> for Coord<i32> {
    open spec fn obeys_from_spec() -> bool {
        true
    }

    open spec fn from_spec(val: (i32, i32)) -> Self {
        Coord { x: val.0, y: val.1 }
    }
}

} // verus!
