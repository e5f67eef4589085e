//! Chunked-world management core of a voxel engine: block storage, the
//! per-chunk status pipeline, distance-ordered work queues with frustum
//! clipping, a time-boxed incremental update loop, and back-to-front
//! transparent-geometry ordering.

pub mod blocks;
pub mod chunk;
pub mod chunk_queue;
pub mod clock;
pub mod coords;
pub mod generation;
pub mod geometry;
pub mod laws;
pub mod light;
pub mod mesh;
pub mod render_queue;
pub mod rendering;
pub mod sorting;
pub mod world;
