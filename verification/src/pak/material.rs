//! Materials as stored in a `.pak` file.
use vstd::prelude::*;
use super::BitmapId;

verus! {

/// The bitmaps of a material.
#[derive(Clone, Copy, Debug, PartialEq, Eq, Structural)]
pub struct Material {
    /// The base color bitmap.
    pub color: BitmapId,
    /// The metalness and roughness bitmap.
    pub metal_rough: BitmapId,
    /// The normal map.
    pub normal: BitmapId,
}

impl Material {
    /// The base color bitmap.
    pub fn color(&self) -> (r: BitmapId)
        ensures
            r == self.color,
    {
        self.color
    }

    /// The metalness and roughness bitmap.
    pub fn metal_rough(&self) -> (r: BitmapId)
        ensures
            r == self.metal_rough,
    {
        self.metal_rough
    }

    /// The normal map.
    pub fn normal(&self) -> (r: BitmapId)
        ensures
            r == self.normal,
    {
        self.normal
    }
}

} // verus!
