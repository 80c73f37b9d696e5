//! Render graph scheduling and bookkeeping.
pub mod attachment;
pub mod descriptor_pool;
pub mod edge;
pub mod merge;
pub mod node;
pub mod pass_ref;
pub mod render_pass;
pub mod schedule;
