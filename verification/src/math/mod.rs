//! Integer coordinates and rectangles.
use vstd::prelude::*;

pub mod coord;
pub mod rect;

use self::coord::Coord as GenericCoord;
use self::rect::Rect as GenericRect;

verus! {

/// A rectangular area with u32 position and size values.
pub type Area = GenericRect<u32, u32>;

/// A coordinate with u8 values.
pub type Coord8 = GenericCoord<u8>;

/// A coordinate with i32 values.
pub type Coord = GenericCoord<i32>;

/// A coordinate with u32 values.
pub type Extent = GenericCoord<u32>;

/// A rectangular area with i32 position and u32 size values.
pub type Rect = GenericRect<u32, i32>;

} // verus!
