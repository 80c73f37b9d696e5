//! Assets packed into `.pak` files.
use vstd::prelude::*;

pub mod bitmap;
pub mod bitmap_font;
pub mod buf;
pub mod compression;
pub mod data_ref;
pub mod font_bitmap;
pub mod ids;
pub mod material;
pub mod model;

verus! {

/// The identifier of an animation within a `.pak` file: its position among the stored items of its
/// kind.
#[derive(Clone, Copy, Debug, PartialEq, Eq, Structural, Hash, PartialOrd, Ord)]
pub struct AnimationId(pub usize);

/// The identifier of a bitmap within a `.pak` file: its position among the stored items of its
/// kind.
#[derive(Clone, Copy, Debug, PartialEq, Eq, Structural, Hash, PartialOrd, Ord)]
pub struct BitmapId(pub usize);

/// The identifier of a bitmapped font within a `.pak` file: its position among the stored items of its
/// kind.
#[derive(Clone, Copy, Debug, PartialEq, Eq, Structural, Hash, PartialOrd, Ord)]
pub struct BitmapFontId(pub usize);

/// The identifier of a blob within a `.pak` file: its position among the stored items of its
/// kind.
#[derive(Clone, Copy, Debug, PartialEq, Eq, Structural, Hash, PartialOrd, Ord)]
pub struct BlobId(pub usize);

/// The identifier of a material within a `.pak` file: its position among the stored items of its
/// kind.
#[derive(Clone, Copy, Debug, PartialEq, Eq, Structural, Hash, PartialOrd, Ord)]
pub struct MaterialId(pub usize);

/// The identifier of a model within a `.pak` file: its position among the stored items of its
/// kind.
#[derive(Clone, Copy, Debug, PartialEq, Eq, Structural, Hash, PartialOrd, Ord)]
pub struct ModelId(pub usize);

/// The identifier of a scene within a `.pak` file: its position among the stored items of its
/// kind.
#[derive(Clone, Copy, Debug, PartialEq, Eq, Structural, Hash, PartialOrd, Ord)]
pub struct SceneId(pub usize);

/// Holds bitmap handles to match what was setup in the asset `.toml` file.
#[derive(Clone, Copy, Debug, PartialEq, Eq, Structural)]
pub struct MaterialInfo {
    /// Three or four channel base color, aka albedo or diffuse, of the material.
    pub color: BitmapId,
    /// A standard three channel emissive color map.
    pub emissive: Option<BitmapId>,
    /// A standard three channel normal map.
    pub normal: BitmapId,
    /// A two channel bitmap of the metalness (red) and roughness (green) PBR parameters.
    ///
    /// Optionally has a third channel (blue) for displacement.
    pub params: BitmapId,
}

} // verus!
