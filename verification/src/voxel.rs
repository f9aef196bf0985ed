//! Voxel kinds and their stable integer encoding.

use vstd::prelude::*;

verus! {

/// The kind of material in one cell. `Air` is the empty cell; every other
/// kind is solid.
#[derive(Clone, Copy, Debug, PartialEq, Eq, Structural)]
pub enum VoxelType {
    Air,
    Dirt,
    Grass,
    Stone,
    Wood,
    Leaves,
    Light,
}

impl VoxelType {
    /// The integer that stands for this kind in a flattened buffer.
    pub open spec fn spec_code(self) -> int {
        match self {
            VoxelType::Air => 0,
            VoxelType::Dirt => 1,
            VoxelType::Grass => 2,
            VoxelType::Stone => 3,
            VoxelType::Wood => 4,
            VoxelType::Leaves => 5,
            VoxelType::Light => 6,
        }
    }

    /// Whether a ray stops at a cell of this kind.
    pub open spec fn spec_is_solid(self) -> bool {
        self != VoxelType::Air
    }

    /// Gives the integer that stands for this kind in a flattened buffer:
    /// 0 for `Air`, then 1 to 6 in the order of the kinds.
    pub fn code(self) -> (c: i32)
        ensures
            c == self.spec_code(),
    {
        match self {
            VoxelType::Air => 0,
            VoxelType::Dirt => 1,
            VoxelType::Grass => 2,
            VoxelType::Stone => 3,
            VoxelType::Wood => 4,
            VoxelType::Leaves => 5,
            VoxelType::Light => 6,
        }
    }

    /// Tells whether this kind is solid: every kind but `Air` is.
    #[verifier::when_used_as_spec(spec_is_solid)]
    pub fn is_solid(self) -> (b: bool)
        ensures
            b == self.spec_is_solid(),
    {
        self != VoxelType::Air
    }
}

/// One cell of a chunk.
#[derive(Clone, Copy, Debug, PartialEq, Eq, Structural)]
pub struct Voxel {
    pub voxel_type: VoxelType,
}

} // verus!
