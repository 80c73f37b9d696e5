//! Rectangular areas.
use vstd::prelude::*;
use super::coord::Coord;

verus! {

/// A rectangular area given by its size and position.
#[derive(Clone, Copy, Debug, PartialEq, Eq, Structural, Hash)]
pub struct Rect<D, P> {
    /// The width and height.
    pub dims: Coord<D>,
    /// The position.
    pub pos: Coord<P>,
}

impl<D, P> Rect<D, P> {
    /// A rectangle at `(x, y)` of the given width and height.
    pub fn new(x: P, y: P, width: D, height: D) -> (r: Self)
        ensures
            r.pos.x == x,
            r.pos.y == y,
            r.dims.x == width,
            r.dims.y == height,
    {
        Rect { dims: Coord { x: width, y: height }, pos: Coord { x, y } }
    }
}

impl Rect<u32, i32> {
    /// The empty rectangle at the origin.
    pub fn zero() -> (r: Self)
        ensures
            r.pos.x == 0 && r.pos.y == 0 && r.dims.x == 0 && r.dims.y == 0,
    {
        Rect::new(0, 0, 0, 0)
    }
}

impl Rect<u32, u32> {
    /// The empty rectangle at the origin.
    pub fn zero() -> (r: Self)
        ensures
            r.pos.x == 0 && r.pos.y == 0 && r.dims.x == 0 && r.dims.y == 0,
    {
        Rect::new(0, 0, 0, 0)
    }
}

impl From<Coord<u32>> for Rect<u32, u32> {
    fn from(val: Coord<u32>) -> (r: Self) {
        Rect { dims: val, pos: Coord { x: 0, y: 0 } }
    }
}

impl vstd::std_specs::convert::FromSpecImpl<Coord<u32>> for Rect<u32, u32> {
    open spec fn obeys_from_spec() -> bool {
        true
    }

    open spec fn from_spec(val: Coord<u32>) -> Self {
        Rect { dims: val, pos: Coord { x: 0, y: 0 } }
    }
}

impl From<Coord<u32>> for Rect<u32, i32> {
    fn from(val: Coord<u32>) -> (r: Self) {
        Rect { dims: val, pos: Coord { x: 0, y: 0 } }
    }
}

impl vstd::std_specs::convert::FromSpecImpl<Coord<u32>> for Rect<u32, i32> {
    open spec fn obeys_from_spec() -> bool {
        true
    }

    open spec fn from_spec(val: Coord<u32>) -> Self {
        Rect { dims: val, pos: Coord { x: 0, y: 0 } }
    }
}

} // verus!
