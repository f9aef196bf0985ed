//! The core of a small voxel sandbox: typed voxels in dense chunks, a world
//! of chunks addressed by integer coordinates, and the rules by which a ray
//! of sampled positions removes or places a block.

pub mod voxel;
pub mod coords;
pub mod chunk;
pub mod terrain;
pub mod world;
pub mod buffer;
pub mod raycast;
pub mod movement;
pub mod shader;
