//! Voxel world core: the block catalog, fixed-size chunks with bounded
//! neighbour queries, a face-culling mesher that produces integer geometry,
//! the world/chunk coordinate transform, terrain filling and the
//! chunk-streaming world manager with batched edits.
pub mod block;
pub mod chunk;
pub mod coords;
pub mod mesh_laws;
pub mod mesher;
pub mod terrain;
pub mod world;
