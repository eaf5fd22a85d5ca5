//! Chunked voxel storage for a block-game client: section storage, decoding of
//! partial chunk updates, face-culled tessellation and the render-side mesh cache.

pub mod pos;
pub mod section;
pub mod storage;
pub mod decode;
pub mod registry;
pub mod tessellate;
pub mod render;
pub mod world;
pub mod atlas;
