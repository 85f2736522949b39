//! The six axis-aligned voxel face directions.

use vstd::prelude::*;

verus! {

/// One of the six axis-aligned face directions of a voxel cube.
#[derive(Copy, Clone, PartialEq, Eq, PartialOrd, Ord, Debug, Structural)]
pub enum VoxelDir {
    Fnt,
    Top,
    Rgt,
    Bck,
    Bot,
    Lft,
}

impl VoxelDir {
    /// Dense index of this direction, used to address per-direction data.
    pub open spec fn spec_idx(self) -> int {
        match self {
            VoxelDir::Fnt => 0,
            VoxelDir::Top => 1,
            VoxelDir::Rgt => 2,
            VoxelDir::Bck => 3,
            VoxelDir::Bot => 4,
            VoxelDir::Lft => 5,
        }
    }

    /// The direction with the given dense index.
    pub open spec fn spec_from_idx(i: int) -> VoxelDir {
        if i == 0 {
            VoxelDir::Fnt
        } else if i == 1 {
            VoxelDir::Top
        } else if i == 2 {
            VoxelDir::Rgt
        } else if i == 3 {
            VoxelDir::Bck
        } else if i == 4 {
            VoxelDir::Bot
        } else {
            VoxelDir::Lft
        }
    }

    /// The direction on the opposite face.
    pub open spec fn spec_opp(self) -> VoxelDir {
        match self {
            VoxelDir::Fnt => VoxelDir::Bck,
            VoxelDir::Bck => VoxelDir::Fnt,
            VoxelDir::Rgt => VoxelDir::Lft,
            VoxelDir::Lft => VoxelDir::Rgt,
            VoxelDir::Top => VoxelDir::Bot,
            VoxelDir::Bot => VoxelDir::Top,
        }
    }

    /// All six directions, in dense-index order.
    pub fn dirs() -> (r: Vec<VoxelDir>)
        ensures
            r@.len() == 6,
            forall|i: int| 0 <= i < 6 ==> r@[i] == VoxelDir::spec_from_idx(i),
    {
        let mut r: Vec<VoxelDir> = Vec::new();
        r.push(VoxelDir::Fnt);
        r.push(VoxelDir::Top);
        r.push(VoxelDir::Rgt);
        r.push(VoxelDir::Bck);
        r.push(VoxelDir::Bot);
        r.push(VoxelDir::Lft);
        r
    }

    /// Total mapping from the closed variant set onto `0 .. 6`.
    pub fn idx(&self) -> (r: usize)
        ensures
            r == self.spec_idx(),
            r < 6,
    {
        match self {
            VoxelDir::Fnt => 0,
            VoxelDir::Top => 1,
            VoxelDir::Rgt => 2,
            VoxelDir::Bck => 3,
            VoxelDir::Bot => 4,
            VoxelDir::Lft => 5,
        }
    }

    /// The direction with dense index `idx`; inverse of [`VoxelDir::idx`].
    pub fn get(idx: usize) -> (r: VoxelDir)
        requires
            idx < 6,
        ensures
            r == VoxelDir::spec_from_idx(idx as int),
            r.spec_idx() == idx,
    {
        if idx == 0 {
            VoxelDir::Fnt
        } else if idx == 1 {
            VoxelDir::Top
        } else if idx == 2 {
            VoxelDir::Rgt
        } else if idx == 3 {
            VoxelDir::Bck
        } else if idx == 4 {
            VoxelDir::Bot
        } else {
            VoxelDir::Lft
        }
    }

    /// `opp` pairs faces: front with back, right with left, top with bottom.
    pub fn opp(&self) -> (r: VoxelDir)
        ensures
            r == self.spec_opp(),
            r.spec_opp() == *self,
    {
        match self {
            VoxelDir::Fnt => VoxelDir::Bck,
            VoxelDir::Bck => VoxelDir::Fnt,
            VoxelDir::Rgt => VoxelDir::Lft,
            VoxelDir::Lft => VoxelDir::Rgt,
            VoxelDir::Top => VoxelDir::Bot,
            VoxelDir::Bot => VoxelDir::Top,
        }
    }
}

} // verus!
