//! Verified core of a render-graph and asset-packing library.
pub mod graph;
pub mod input;
pub mod math;
pub mod pak;
pub mod pool;
mod text;
