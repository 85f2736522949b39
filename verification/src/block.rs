//! Block model: the closed set of voxel materials and their solidity.

use vstd::prelude::*;

verus! {

/// A single voxel's payload: its material.
pub struct Block {
    pub block_type: BlockType,
}

/// The closed set of voxel materials. `Air` is the one non-solid variant.
#[derive(Ord, PartialOrd, PartialEq, Eq, Copy, Clone, Hash, Debug, Structural)]
pub enum BlockType {
    Air,
    Grass,
    Stone,
}

/// Number of distinct block materials, solid or not.
pub const BLOCK_TYPE_COUNT: usize = 3;

impl BlockType {
    /// The material with the given dense index; inverse of [`BlockType::spec_idx`].
    pub open spec fn spec_type_of_idx(m: int) -> BlockType {
        if m == 0 {
            BlockType::Air
        } else if m == 1 {
            BlockType::Grass
        } else {
            BlockType::Stone
        }
    }

    /// Dense index of this material, used to address per-material data.
    pub open spec fn spec_idx(self) -> int {
        match self {
            BlockType::Air => 0,
            BlockType::Grass => 1,
            BlockType::Stone => 2,
        }
    }

    /// Total mapping from the closed variant set onto `0 .. BLOCK_TYPE_COUNT`.
    pub fn idx(&self) -> (r: usize)
        ensures
            r == self.spec_idx(),
            r < BLOCK_TYPE_COUNT,
    {
        match self {
            BlockType::Air => 0,
            BlockType::Grass => 1,
            BlockType::Stone => 2,
        }
    }

    /// A voxel occludes space exactly when its material is not `Air`.
    pub open spec fn spec_is_solid(self) -> bool {
        self != BlockType::Air
    }

    /// Whether this material is solid: true for every variant but `Air`.
    pub fn is_solid(&self) -> (r: bool)
        ensures
            r == self.spec_is_solid(),
    {
        *self != BlockType::Air
    }
}

} // verus!
