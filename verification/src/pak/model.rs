//! Mesh data of models.
use vstd::prelude::*;

verus! {

/// The width of each vertex index of a mesh.
#[derive(Clone, Copy, Debug, PartialEq, Eq, Structural)]
pub enum IndexType {
    /// 16-bit indices.
    U16,
    /// 32-bit indices.
    U32,
}

} // verus!
