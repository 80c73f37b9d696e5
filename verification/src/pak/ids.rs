//! Identifiers of the assets stored in a `.pak` file.
use vstd::prelude::*;

verus! {

/// An identifier for `Animation` instances which is unique within one `.pak` file.
#[derive(Clone, Copy, Debug, PartialEq, Eq, Structural, Hash, PartialOrd, Ord)]
pub struct AnimationId(pub u16);

/// An identifier for `Bitmap` instances which is unique within one `.pak` file.
#[derive(Clone, Copy, Debug, PartialEq, Eq, Structural, Hash, PartialOrd, Ord)]
pub struct BitmapId(pub u16);

/// An identifier for `BitmapFont` instances which is unique within one `.pak` file.
#[derive(Clone, Copy, Debug, PartialEq, Eq, Structural, Hash)]
pub struct BitmapFontId(pub u16);

/// An identifier for byte array instances which is unique within one `.pak` file.
#[derive(Clone, Copy, Debug, PartialEq, Eq, Structural, Hash)]
pub struct BlobId(pub u16);

/// An identifier for `Font` instances which is unique within one `.pak` file.
#[derive(Clone, Copy, Debug, PartialEq, Eq, Structural, Hash)]
pub struct FontId(pub u16);

/// An identifier for `Material` instances which is unique within one `.pak` file.
#[derive(Clone, Copy, Debug, PartialEq, Eq, Structural, Hash)]
pub struct MaterialId(pub u16);

/// An identifier for `Model` instances which is unique within one `.pak` file.
#[derive(Clone, Copy, Debug, PartialEq, Eq, Structural, Hash)]
pub struct ModelId(pub u16);

/// An identifier for `Scene` instances which is unique within one `.pak` file.
#[derive(Clone, Copy, Debug, PartialEq, Eq, Structural, Hash)]
pub struct SceneId(pub u16);

/// An identifier for text fragments which is unique within one `.pak` file.
#[derive(Clone, Copy, Debug, PartialEq, Eq, Structural, Hash)]
pub struct TextId(pub u16);

/// An identifier of any kind of asset.
#[derive(Clone, Copy, Debug, PartialEq, Eq, Structural, Hash)]
pub enum Id {
    /// A `AnimationId`.
    Animation(AnimationId),
    /// A `BitmapId`.
    Bitmap(BitmapId),
    /// A `BitmapFontId`.
    BitmapFont(BitmapFontId),
    /// A `BlobId`.
    Blob(BlobId),
    /// A `FontId`.
    Font(FontId),
    /// A `MaterialId`.
    Material(MaterialId),
    /// A `ModelId`.
    Model(ModelId),
    /// A `SceneId`.
    Scene(SceneId),
    /// A `TextId`.
    Text(TextId),
}

impl Id {
    /// The `AnimationId` held by this identifier, if it is one.
    pub fn as_animation(&self) -> (r: Option<AnimationId>)
        ensures
            r == (match *self { Id::Animation(id) => Some(id), _ => None }),
    {
        match self {
            Id::Animation(id) => Some(*id),
            _ => None,
        }
    }

    /// The `BitmapId` held by this identifier, if it is one.
    pub fn as_bitmap(&self) -> (r: Option<BitmapId>)
        ensures
            r == (match *self { Id::Bitmap(id) => Some(id), _ => None }),
    {
        match self {
            Id::Bitmap(id) => Some(*id),
            _ => None,
        }
    }

    /// The `BitmapFontId` held by this identifier, if it is one.
    pub fn as_bitmap_font(&self) -> (r: Option<BitmapFontId>)
        ensures
            r == (match *self { Id::BitmapFont(id) => Some(id), _ => None }),
    {
        match self {
            Id::BitmapFont(id) => Some(*id),
            _ => None,
        }
    }

    /// The `BlobId` held by this identifier, if it is one.
    pub fn as_blob(&self) -> (r: Option<BlobId>)
        ensures
            r == (match *self { Id::Blob(id) => Some(id), _ => None }),
    {
        match self {
            Id::Blob(id) => Some(*id),
            _ => None,
        }
    }

    /// The `FontId` held by this identifier, if it is one.
    pub fn as_font(&self) -> (r: Option<FontId>)
        ensures
            r == (match *self { Id::Font(id) => Some(id), _ => None }),
    {
        match self {
            Id::Font(id) => Some(*id),
            _ => None,
        }
    }

    /// The `MaterialId` held by this identifier, if it is one.
    pub fn as_material(&self) -> (r: Option<MaterialId>)
        ensures
            r == (match *self { Id::Material(id) => Some(id), _ => None }),
    {
        match self {
            Id::Material(id) => Some(*id),
            _ => None,
        }
    }

    /// The `ModelId` held by this identifier, if it is one.
    pub fn as_model(&self) -> (r: Option<ModelId>)
        ensures
            r == (match *self { Id::Model(id) => Some(id), _ => None }),
    {
        match self {
            Id::Model(id) => Some(*id),
            _ => None,
        }
    }

    /// The `SceneId` held by this identifier, if it is one.
    pub fn as_scene(&self) -> (r: Option<SceneId>)
        ensures
            r == (match *self { Id::Scene(id) => Some(id), _ => None }),
    {
        match self {
            Id::Scene(id) => Some(*id),
            _ => None,
        }
    }

    /// The `TextId` held by this identifier, if it is one.
    pub fn as_text(&self) -> (r: Option<TextId>)
        ensures
            r == (match *self { Id::Text(id) => Some(id), _ => None }),
    {
        match self {
            Id::Text(id) => Some(*id),
            _ => None,
        }
    }
}

} // verus!
