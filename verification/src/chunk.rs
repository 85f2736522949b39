//! Chunks: fixed-size cubic regions of the voxel world, their lifecycle
//! states, the materialization rule that fills them from a heightfield, and
//! the spatial index that maps chunk coordinates to live chunks.

use vstd::prelude::*;
use vstd::arithmetic::div_mod::lemma_fundamental_div_mod_converse;
use crate::block::BlockType;
use crate::CHUNK_SIZE;
use crate::CHUNK_SIZE_PAD;
use crate::CUBE_SIZE_MILLI;

verus! {

/// Number of voxels in one chunk.
pub const CHUNK_VOLUME: usize = CHUNK_SIZE * CHUNK_SIZE * CHUNK_SIZE;

/// Number of vertical columns in one chunk, one height sample per column.
pub const COLUMN_COUNT: usize = CHUNK_SIZE * CHUNK_SIZE;

/// Thickness of the surface band, in milli world units: voxels within this
/// band below the terrain height are surface material, voxels deeper are
/// stone.
pub const SURFACE_BAND_MILLI: i64 = 1500;

/// A chunk's integer coordinate in chunk-grid space (not world units).
#[derive(PartialEq, Eq, Structural, Clone, Copy, Debug, Hash)]
pub struct ChunkOffset {
    pub x: i32,
    pub y: i32,
    pub z: i32,
}

impl ChunkOffset {
    pub fn new(x: i32, y: i32, z: i32) -> (r: Self)
        ensures
            r.x == x,
            r.y == y,
            r.z == z,
    {
        Self { x, y, z }
    }
}

/// Lifecycle state of a chunk: `Populated` means its voxels are written but
/// it is not yet indexed; `Loaded` means it is indexed and lookup-able;
/// `Drawn` means its face-visibility data has been produced.
#[derive(PartialEq, Eq, Structural, Clone, Copy, Debug)]
pub enum ChunkState {
    Populated,
    Loaded,
    Drawn,
}

/// World coordinate, in milli units, of the voxel with local index `local`
/// along an axis whose chunk coordinate is `offset_c`.
pub open spec fn spec_world_milli(offset_c: i32, local: int) -> int {
    (offset_c * CHUNK_SIZE + local) * CUBE_SIZE_MILLI
}

/// The materialization rule, per voxel: strictly more than the surface band
/// below the terrain height is stone, strictly below the height but within
/// the band is grass, at or above the height is air.
pub open spec fn spec_block_at(wy_milli: int, height_milli: int) -> BlockType {
    if wy_milli < height_milli - SURFACE_BAND_MILLI {
        BlockType::Stone
    } else if wy_milli < height_milli {
        BlockType::Grass
    } else {
        BlockType::Air
    }
}

/// Material of the voxel `wy_milli` (milli world units) up, under terrain of
/// height `height_milli`.
pub fn block_at(wy_milli: i64, height_milli: i64) -> (r: BlockType)
    ensures
        r == spec_block_at(wy_milli as int, height_milli as int),
{
    let wy = wy_milli as i128;
    let h = height_milli as i128;
    if wy < h - (SURFACE_BAND_MILLI as i128) {
        BlockType::Stone
    } else if wy < h {
        BlockType::Grass
    } else {
        BlockType::Air
    }
}

/// Flat index of local voxel `(x, y, z)` in a chunk's row-major block grid.
pub open spec fn spec_grid_index(x: int, y: int, z: int) -> int {
    (x * CHUNK_SIZE + y) * CHUNK_SIZE + z
}

/// Material of local voxel `(x, y, z)` of the chunk at `offset`, given the
/// height samples of the chunk's columns (`heights[x * CHUNK_SIZE + z]`).
pub open spec fn spec_cell(offset: ChunkOffset, heights: Seq<i64>, x: int, y: int, z: int) -> BlockType {
    spec_block_at(spec_world_milli(offset.y, y), heights[x * CHUNK_SIZE + z] as int)
}

/// Material of the voxel with flat grid index `i`; the row-major inverse of
/// [`spec_grid_index`].
pub open spec fn spec_cell_at(offset: ChunkOffset, heights: Seq<i64>, i: int) -> BlockType {
    spec_cell(
        offset,
        heights,
        i / ((CHUNK_SIZE * CHUNK_SIZE) as int),
        (i % ((CHUNK_SIZE * CHUNK_SIZE) as int)) / (CHUNK_SIZE as int),
        i % (CHUNK_SIZE as int),
    )
}

/// The whole voxel grid determined by an offset and a heightfield: the value
/// that `Chunk::new` must produce, which makes chunk construction
/// deterministic by contract.
pub open spec fn spec_chunk_grid(offset: ChunkOffset, heights: Seq<i64>) -> Seq<BlockType> {
    Seq::new(CHUNK_VOLUME as nat, |i: int| spec_cell_at(offset, heights, i))
}

/// Row-major flat indexing is inverted by division and remainder.
pub proof fn lemma_grid_index_inverse(x: int, y: int, z: int)
    requires
        0 <= x < CHUNK_SIZE,
        0 <= y < CHUNK_SIZE,
        0 <= z < CHUNK_SIZE,
    ensures
        spec_grid_index(x, y, z) / ((CHUNK_SIZE * CHUNK_SIZE) as int) == x,
        (spec_grid_index(x, y, z) % ((CHUNK_SIZE * CHUNK_SIZE) as int)) / (CHUNK_SIZE as int) == y,
        spec_grid_index(x, y, z) % (CHUNK_SIZE as int) == z,
        0 <= spec_grid_index(x, y, z) < CHUNK_VOLUME,
{
    let n = CHUNK_SIZE as int;
    let i = spec_grid_index(x, y, z);
    assert(i == x * (n * n) + (y * n + z)) by (nonlinear_arith)
        requires
            i == (x * n + y) * n + z,
            n == 32,
    ;
    assert(0 <= y * n + z < n * n) by (nonlinear_arith)
        requires
            0 <= y < n,
            0 <= z < n,
            n == 32,
    ;
    lemma_fundamental_div_mod_converse(i, n * n, x, y * n + z);
    lemma_fundamental_div_mod_converse(y * n + z, n, y, z);
    assert(0 <= i < n * n * n) by (nonlinear_arith)
        requires
            i == x * (n * n) + (y * n + z),
            0 <= x < n,
            0 <= y * n + z < n * n,
            n == 32,
    ;
}

/// One cubic region of the voxel world: its chunk-grid coordinate, its
/// row-major voxel grid, and its lifecycle state. The offset never changes
/// after construction.
pub struct Chunk {
    pub offset: ChunkOffset,
    pub block_data: Vec<BlockType>,
    pub state: ChunkState,
}

impl Chunk {
    /// The block grid has exactly one material per voxel of the cube.
    pub open spec fn wf(self) -> bool {
        self.block_data@.len() == CHUNK_VOLUME
    }

    /// Material of local voxel `(x, y, z)`.
    pub open spec fn spec_block(self, x: int, y: int, z: int) -> BlockType {
        self.block_data@[spec_grid_index(x, y, z)]
    }

    /// Deterministically fills the voxel grid from the materialization rule:
    /// the voxel at local `(x, y, z)` gets the material of its world height
    /// under the terrain height sampled for its column,
    /// `heights[x * CHUNK_SIZE + z]`. The resulting state is `Populated`.
    pub fn new(offset: ChunkOffset, heights: &Vec<i64>) -> (c: Chunk)
        requires
            heights@.len() == COLUMN_COUNT,
        ensures
            c.wf(),
            c.offset == offset,
            c.state == ChunkState::Populated,
            c.block_data@ == spec_chunk_grid(offset, heights@),
            forall|x: int, y: int, z: int|
                0 <= x < CHUNK_SIZE && 0 <= y < CHUNK_SIZE && 0 <= z < CHUNK_SIZE
                    ==> #[trigger] c.spec_block(x, y, z) == spec_cell(offset, heights@, x, y, z),
    {
        let mut block_data: Vec<BlockType> = Vec::new();
        let mut i: usize = 0;
        while i < CHUNK_VOLUME
            invariant
                heights@.len() == COLUMN_COUNT,
                i <= CHUNK_VOLUME,
                block_data@.len() == i,
                forall|j: int|
                    0 <= j < i ==> block_data@[j] == spec_cell_at(offset, heights@, j),
            decreases CHUNK_VOLUME - i,
        {
            let x: usize = i / (CHUNK_SIZE * CHUNK_SIZE);
            let y: usize = (i % (CHUNK_SIZE * CHUNK_SIZE)) / CHUNK_SIZE;
            let z: usize = i % CHUNK_SIZE;
            assert(x < CHUNK_SIZE && y < CHUNK_SIZE && z < CHUNK_SIZE) by (nonlinear_arith)
                requires
                    0 <= i < 32768,
                    x == i as int / 1024int,
                    y == (i as int % 1024int) / 32int,
                    z == i as int % 32int,
            ;
            let wy: i64 = ((offset.y as i64) * (CHUNK_SIZE as i64) + (y as i64)) * CUBE_SIZE_MILLI;
            assert(wy == spec_world_milli(offset.y, y as int));
            let h = heights[x * CHUNK_SIZE + z];
            block_data.push(block_at(wy, h));
            i = i + 1;
        }
        let c = Chunk { offset, block_data, state: ChunkState::Populated };
        proof {
            assert(c.block_data@ =~= spec_chunk_grid(offset, heights@));
            assert forall|x2: int, y2: int, z2: int|
                0 <= x2 < CHUNK_SIZE && 0 <= y2 < CHUNK_SIZE && 0 <= z2 < CHUNK_SIZE
                    implies #[trigger] c.spec_block(x2, y2, z2) == spec_cell(
                offset,
                heights@,
                x2,
                y2,
                z2,
            ) by {
                lemma_grid_index_inverse(x2, y2, z2);
            }
        }
        c
    }
}

/// Two chunks built from the same offset and the same heightfield carry
/// bit-identical voxel grids: the grid is a function of those inputs alone.
pub proof fn lemma_chunk_new_deterministic(c1: Chunk, c2: Chunk, heights: Seq<i64>)
    requires
        c1.offset == c2.offset,
        c1.block_data@ == spec_chunk_grid(c1.offset, heights),
        c2.block_data@ == spec_chunk_grid(c2.offset, heights),
    ensures
        c1.block_data@ == c2.block_data@,
{
}

/// The spatial chunk index: chunk coordinate to live chunk. Exactly one chunk
/// may exist per offset; every indexed chunk is well-formed and at least
/// `Loaded` (insertion is what promotes a `Populated` chunk).
pub struct ChunkPositionMap {
    pub chunks: Vec<Chunk>,
}

impl ChunkPositionMap {
    pub open spec fn wf(self) -> bool {
        &&& forall|i: int|
            0 <= i < self.chunks@.len() ==> (#[trigger] self.chunks@[i]).wf()
                && self.chunks@[i].state != ChunkState::Populated
        &&& forall|i: int, j: int|
            0 <= i < j < self.chunks@.len() ==> (#[trigger] self.chunks@[i]).offset != (
            #[trigger] self.chunks@[j]).offset
    }

    /// Whether some chunk with the given offset is indexed.
    pub open spec fn contains_offset(self, offset: ChunkOffset) -> bool {
        exists|i: int| 0 <= i < self.chunks@.len() && (#[trigger] self.chunks@[i]).offset == offset
    }

    /// An empty index.
    pub fn new() -> (r: Self)
        ensures
            r.wf(),
            r.chunks@.len() == 0,
    {
        Self { chunks: Vec::new() }
    }

    /// Position of the chunk with the given offset, if any.
    pub fn find(&self, offset: ChunkOffset) -> (r: Option<usize>)
        ensures
            match r {
                Some(i) => i < self.chunks@.len() && self.chunks@[i as int].offset == offset,
                None => !self.contains_offset(offset),
            },
    {
        let mut i: usize = 0;
        while i < self.chunks.len()
            invariant
                i <= self.chunks@.len(),
                forall|j: int| 0 <= j < i ==> (#[trigger] self.chunks@[j]).offset != offset,
            decreases self.chunks@.len() - i,
        {
            if self.chunks[i].offset.x == offset.x && self.chunks[i].offset.y == offset.y
                && self.chunks[i].offset.z == offset.z {
                return Some(i);
            }
            i = i + 1;
        }
        None
    }

    /// Looks up the chunk at `offset`. Returns the indexed chunk exactly when
    /// one exists; under well-formedness it is unique.
    pub fn get(&self, offset: ChunkOffset) -> (r: Option<&Chunk>)
        ensures
            match r {
                Some(c) => {
                    &&& self.contains_offset(offset)
                    &&& c.offset == offset
                    &&& exists|i: int|
                        0 <= i < self.chunks@.len() && (#[trigger] self.chunks@[i]) == *c
                    &&& self.wf() ==> forall|i: int|
                        0 <= i < self.chunks@.len() && (#[trigger] self.chunks@[i]).offset
                            == offset ==> self.chunks@[i] == *c
                },
                None => !self.contains_offset(offset),
            },
    {
        match self.find(offset) {
            Some(i) => Some(&self.chunks[i]),
            None => None,
        }
    }

    /// A snapshot of every indexed offset, in index order.
    pub fn offsets(&self) -> (r: Vec<ChunkOffset>)
        ensures
            r@.len() == self.chunks@.len(),
            forall|i: int| 0 <= i < r@.len() ==> r@[i] == (#[trigger] self.chunks@[i]).offset,
    {
        let mut r: Vec<ChunkOffset> = Vec::new();
        let mut i: usize = 0;
        while i < self.chunks.len()
            invariant
                i <= self.chunks@.len(),
                r@.len() == i,
                forall|j: int| 0 <= j < i ==> r@[j] == (#[trigger] self.chunks@[j]).offset,
            decreases self.chunks@.len() - i,
        {
            r.push(self.chunks[i].offset);
            i = i + 1;
        }
        r
    }

    /// Registers a freshly populated chunk, promoting it to `Loaded`.
    ///
    /// Inserting an offset that is already present is a programming-logic
    /// error (it would mean the streaming diff is broken), so it is ruled out
    /// by contract rather than handled.
    pub fn insert(&mut self, chunk: Chunk)
        requires
            old(self).wf(),
            chunk.wf(),
            chunk.state == ChunkState::Populated,
            !old(self).contains_offset(chunk.offset),
        ensures
            final(self).wf(),
            final(self).chunks@.len() == old(self).chunks@.len() + 1,
            final(self).chunks@ == old(self).chunks@.push(
                (Chunk { state: ChunkState::Loaded, ..chunk }),
            ),
            final(self).contains_offset(chunk.offset),
            forall|o: ChunkOffset|
                #[trigger] final(self).contains_offset(o) <==> (old(self).contains_offset(o) || o
                    == chunk.offset),
    {
        let mut c = chunk;
        c.state = ChunkState::Loaded;
        self.chunks.push(c);
        proof {
            let n = old(self).chunks@.len() as int;
            assert(self.chunks@[n].offset == chunk.offset);
            assert forall|o: ChunkOffset| #[trigger]
                self.contains_offset(o) implies (old(self).contains_offset(o) || o
                == chunk.offset) by {
                let i = choose|i: int|
                    0 <= i < self.chunks@.len() && (#[trigger] self.chunks@[i]).offset == o;
                if i < n {
                    assert(old(self).chunks@[i].offset == o);
                }
            }
            assert forall|o: ChunkOffset|
                (old(self).contains_offset(o) || o == chunk.offset) implies #[trigger] self
                .contains_offset(o) by {
                if old(self).contains_offset(o) {
                    let i = choose|i: int|
                        0 <= i < old(self).chunks@.len() && (#[trigger] old(
                            self,
                        ).chunks@[i]).offset == o;
                    assert(self.chunks@[i].offset == o);
                } else {
                    assert(self.chunks@[n].offset == o);
                }
            }
        }
    }

    /// Unregisters the chunk at `offset`; the chunk value is dropped with the
    /// entry, so no entry outlives its chunk.
    ///
    /// Removing an absent offset is a programming-logic error, ruled out by
    /// contract.
    pub fn remove(&mut self, offset: ChunkOffset)
        requires
            old(self).wf(),
            old(self).contains_offset(offset),
        ensures
            final(self).wf(),
            final(self).chunks@.len() == old(self).chunks@.len() - 1,
            !final(self).contains_offset(offset),
            forall|o: ChunkOffset|
                #[trigger] final(self).contains_offset(o) <==> (old(self).contains_offset(o) && o
                    != offset),
            exists|i: int|
                0 <= i < old(self).chunks@.len() && old(self).chunks@[i].offset == offset
                    && final(self).chunks@ == old(self).chunks@.remove(i),
    {
        let i = match self.find(offset) {
            Some(i) => i,
            None => {
                proof {
                    assert(false);
                }
                vstd::pervasive::unreached()
            },
        };
        self.chunks.remove(i);
        proof {
            let old_seq = old(self).chunks@;
            assert(self.chunks@ == old_seq.remove(i as int));
            assert forall|o: ChunkOffset| #[trigger]
                self.contains_offset(o) implies (old(self).contains_offset(o) && o != offset) by {
                let k = choose|k: int|
                    0 <= k < self.chunks@.len() && (#[trigger] self.chunks@[k]).offset == o;
                if k < i {
                    assert(old_seq[k].offset == o);
                } else {
                    assert(old_seq[k + 1].offset == o);
                }
            }
            assert forall|o: ChunkOffset|
                (old(self).contains_offset(o) && o != offset) implies #[trigger] self
                .contains_offset(o) by {
                let k = choose|k: int| 0 <= k < old_seq.len() && (#[trigger] old_seq[k]).offset == o;
                assert(old_seq[i as int].offset == offset);
                if k < i {
                    assert(self.chunks@[k].offset == o);
                } else {
                    assert(k > i);
                    assert(self.chunks@[k - 1].offset == o);
                }
            }
            assert(!self.contains_offset(offset));
        }
    }
}

/// Number of bitset words in one per-axis face grid: three axes, each a
/// padded-size square of fixed-width bitsets.
pub const FACE_GRID_WORDS: usize = 3 * CHUNK_SIZE_PAD * CHUNK_SIZE_PAD;

/// Flat index of the bitset word for `axis` at planar coordinates `(a, b)`.
pub open spec fn spec_face_index(axis: int, a: int, b: int) -> int {
    (axis * CHUNK_SIZE_PAD + a) * CHUNK_SIZE_PAD + b
}

/// Whether bit `i` of the fixed-width bitset word `w` is set.
pub open spec fn spec_bit(w: u64, i: int) -> bool {
    (w >> (i as u64)) & 1u64 == 1u64
}

/// Face-grid flat indexing is inverted by division and remainder, so distinct
/// `(axis, a, b)` triples address distinct words.
pub proof fn lemma_face_index_inverse(axis: int, a: int, b: int)
    requires
        0 <= axis < 3,
        0 <= a < CHUNK_SIZE_PAD,
        0 <= b < CHUNK_SIZE_PAD,
    ensures
        spec_face_index(axis, a, b) / ((CHUNK_SIZE_PAD * CHUNK_SIZE_PAD) as int) == axis,
        (spec_face_index(axis, a, b) % ((CHUNK_SIZE_PAD * CHUNK_SIZE_PAD) as int)) / (
        CHUNK_SIZE_PAD as int) == a,
        spec_face_index(axis, a, b) % (CHUNK_SIZE_PAD as int) == b,
        0 <= spec_face_index(axis, a, b) < FACE_GRID_WORDS,
{
    let n = CHUNK_SIZE_PAD as int;
    let f = spec_face_index(axis, a, b);
    assert(f == axis * (n * n) + (a * n + b)) by (nonlinear_arith)
        requires
            f == (axis * n + a) * n + b,
            n == 34,
    ;
    assert(0 <= a * n + b < n * n) by (nonlinear_arith)
        requires
            0 <= a < n,
            0 <= b < n,
            n == 34,
    ;
    lemma_fundamental_div_mod_converse(f, n * n, axis, a * n + b);
    lemma_fundamental_div_mod_converse(a * n + b, n, a, b);
    assert(0 <= f < 3 * (n * n)) by (nonlinear_arith)
        requires
            f == axis * (n * n) + (a * n + b),
            0 <= axis < 3,
            0 <= a * n + b < n * n,
            n == 34,
    ;
}

/// One triple of per-axis bitset grids: for each axis, a padded-size square
/// of fixed-width words; bit `i` of the word for `axis` at `(a, b)` marks a
/// solid voxel at layer `i` of that column.
pub struct FaceAxes {
    pub words: Vec<u64>,
}

impl FaceAxes {
    pub open spec fn wf(self) -> bool {
        self.words@.len() == FACE_GRID_WORDS
    }

    /// The bitset word for `axis` at planar coordinates `(a, b)`.
    pub open spec fn spec_word(self, axis: int, a: int, b: int) -> u64 {
        self.words@[spec_face_index(axis, a, b)]
    }

    /// Reads the bitset word for `axis` at `(a, b)`.
    pub fn word(&self, axis: usize, a: usize, b: usize) -> (w: u64)
        requires
            self.wf(),
            axis < 3,
            a < CHUNK_SIZE_PAD,
            b < CHUNK_SIZE_PAD,
        ensures
            w == self.spec_word(axis as int, a as int, b as int),
    {
        proof {
            lemma_face_index_inverse(axis as int, a as int, b as int);
        }
        self.words[(axis * CHUNK_SIZE_PAD + a) * CHUNK_SIZE_PAD + b]
    }
}

/// Face-visibility data of one chunk: the all-materials bitset grids, plus
/// one equivalent triple per material, indexed by [`BlockType::spec_idx`]
/// (the `Air` grids stay all zero, since air is never solid).
pub struct ChunkRenderData {
    pub solid_face_axes: FaceAxes,
    pub texture_face_axes: Vec<FaceAxes>,
}

impl ChunkRenderData {
    pub open spec fn wf(self) -> bool {
        &&& self.solid_face_axes.wf()
        &&& self.texture_face_axes@.len() == crate::block::BLOCK_TYPE_COUNT
        &&& forall|m: int|
            0 <= m < self.texture_face_axes@.len() ==> (#[trigger] self.texture_face_axes@[m]).wf()
    }
}

} // verus!
