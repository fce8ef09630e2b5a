//! Clustered-mesh preparation for a mesh-shader renderer: vertex
//! deduplication, meshlet packing, level-of-detail bookkeeping, the
//! bindless address tables and the frame-slot state machine, with the
//! triangle-multiset checks that tie each level back to the input corners.
//!
//! Vertex attributes are carried as IEEE-754 bit patterns (`u32`), so that
//! equality of vertices is bit equality and no floating-point value enters
//! the verified code.

pub mod builder;
pub mod chain;
pub mod frame;
pub mod indirection;
pub mod loader;
pub mod lod;
pub mod mesh;
pub mod meshlet;
pub mod optimizer;
pub mod triangles;
