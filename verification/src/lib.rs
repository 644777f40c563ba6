//! Bottom-level acceleration structures for ray traversal on the GPU.
//!
//! A mesh is read through a bounds-checked strided view and packed into a run
//! of vertices, whose triangles go to a hierarchy builder. The compressed
//! eight-wide hierarchy that the builder returns is checked against the
//! triangles, encoded, and appended to shared flat buffers. An instance
//! table places transformed copies of those hierarchies.
//!
//! Every real quantity is held as its IEEE-754 single-precision bit pattern
//! in a `u32`, so that the contents of the buffers are stated exactly.

pub mod attribute;
pub mod bits;
pub mod blas;
pub mod dispatch;
pub mod encode;
pub mod error;
pub mod hierarchy;
pub mod image;
pub mod mesh;
pub mod primitive;
pub mod scene;
pub mod triangle;

pub use attribute::{AttributeId, IndexData};
pub use blas::{BLASArray, BLASEntryDescriptor, Buffers, Instance};
pub use dispatch::{filter_iteration, get_dispatch_size, FilterIteration};
pub use encode::{BVHNode, BVHPrimitive};
pub use error::Error;
pub use hierarchy::{BuiltHierarchy, BuiltNode};
pub use image::{align_row, unpad_rows, ImageSlice};
pub use mesh::{IndexedMeshDescriptor, MeshDescriptor, StridedSlice, Vertex};
pub use primitive::{
    AttributeDescriptor, AttributeFormat, AttributeSlice, ComponentClass, Primitive,
};
pub use scene::SceneSettingsGPU;
pub use triangle::Triangle;
