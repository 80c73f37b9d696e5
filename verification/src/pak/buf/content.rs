//! Content files: groups of asset files to bake.
use vstd::prelude::*;

verus! {

/// The compression named by a content file.
#[derive(Clone, Copy, Debug, PartialEq, Eq, Structural, Hash)]
pub enum CompressionType {
    /// Higher compression ratio but slower to decode and encode.
    Brotli,
    /// Lower compression ratio but faster to decode and encode.
    Snap,
}

/// Holds a description of asset files.
pub struct Group {
    assets: Vec<String>,
    enabled: Option<bool>,
}

impl Group {
    /// A group of the given asset file globs, optionally enabled or disabled.
    pub fn new(assets: Vec<String>, enabled: Option<bool>) -> (r: Self)
        ensures
            r.globs() == assets@,
            r.enabled_flag() == enabled,
    {
        Group { assets, enabled }
    }

    /// The asset file globs.
    pub closed spec fn globs(&self) -> Seq<String> {
        self.assets@
    }

    /// The enabled flag as written.
    pub closed spec fn enabled_flag(&self) -> Option<bool> {
        self.enabled
    }

    /// Individual asset file specification globs.
    ///
    /// May be a filename, might be `folder/**/other.jpeg`.
    pub fn asset_globs(&self) -> (r: &[String])
        ensures
            r@ == self.globs(),
    {
        self.assets.as_slice()
    }

    /// Allows a group to be selectively removed with a single flag, as opposed to physically
    /// removing a group from the content file. A group is enabled unless it says otherwise.
    pub fn enabled(&self) -> (r: bool)
        ensures
            r == match self.enabled_flag() {
                Some(b) => b,
                None => true,
            },
    {
        match self.enabled {
            Some(b) => b,
            None => true,
        }
    }
}

/// Holds a description of top-level content files which simply group other asset files for ease
/// of use.
pub struct Content {
    compression: Option<CompressionType>,
    buffer_size: Option<usize>,
    quality: Option<u32>,
    window_size: Option<u32>,
    groups: Vec<Group>,
}

impl Content {
    /// A content description of the given compression settings and groups.
    pub fn new(
        compression: Option<CompressionType>,
        buffer_size: Option<usize>,
        quality: Option<u32>,
        window_size: Option<u32>,
        groups: Vec<Group>,
    ) -> (r: Self)
        ensures
            r.group_list() == groups@,
            r.compression_type() == compression,
    {
        Content { compression, buffer_size, quality, window_size, groups }
    }

    /// The groups, in order.
    pub closed spec fn group_list(&self) -> Seq<Group> {
        self.groups@
    }

    /// The compression named by the file.
    pub closed spec fn compression_type(&self) -> Option<CompressionType> {
        self.compression
    }

    /// The grouped content file descriptions, in order.
    pub fn groups(&self) -> (r: &[Group])
        ensures
            r@ == self.group_list(),
    {
        self.groups.as_slice()
    }
}

} // verus!
