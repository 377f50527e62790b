//! Listing of the packages offered by local sync databases and by the
//! remote package index: target partitioning, index parsing and rendering.

pub mod targets;
pub mod index;
pub mod render;
pub mod remote;
