//! Voxel storage core: packed 16-bit cells, a block-type registry, chunks
//! with a side arena for blocks whose state does not fit in a cell, and the
//! bookkeeping of a world whose chunks are generated in the background.
pub mod bits;
pub mod packed;
pub mod registry;
pub mod math;
pub mod layout;
pub mod block;
pub mod vanilla;
pub mod arena;
pub mod chunk;
pub mod world;
