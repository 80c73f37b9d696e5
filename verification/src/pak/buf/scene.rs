//! References made by scene assets.
use vstd::prelude::*;

verus! {

/// A reference to a model asset or model source file.
#[derive(Clone, Debug, PartialEq, Eq, Hash)]
pub enum AssetRef<T> {
    /// A `Model` asset specified inline.
    Asset(T),
    /// A `Model` asset file or model source file, by its path.
    Path(String),
}

} // verus!
