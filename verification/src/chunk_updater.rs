//! The per-tick drivers of the world: the streaming controller that decides
//! which chunks to create and destroy around a reference point, and the
//! visibility encoder that turns loaded chunks' voxel grids into per-axis
//! face bitsets.

use vstd::prelude::*;
use crate::block::BlockType;
use crate::block::BLOCK_TYPE_COUNT;
use crate::chunk::Chunk;
use crate::chunk::ChunkOffset;
use crate::chunk::ChunkPositionMap;
use crate::chunk::ChunkRenderData;
use crate::chunk::ChunkState;
use crate::chunk::FaceAxes;
use crate::chunk::CHUNK_VOLUME;
use crate::chunk::COLUMN_COUNT;
use crate::chunk::FACE_GRID_WORDS;
use crate::chunk::spec_face_index;
use crate::chunk::spec_bit;
use crate::chunk::spec_grid_index;
use crate::chunk::spec_chunk_grid;
use crate::chunk::lemma_face_index_inverse;
use crate::chunk::lemma_grid_index_inverse;
use crate::CHUNK_SIZE;
use crate::CHUNK_SIZE_PAD;
use crate::CUBE_SIZE_MILLI;
use vstd::arithmetic::div_mod::lemma_fundamental_div_mod_converse;

verus! {

// ------------------------------------------------------------------
// Visibility encoding
// ------------------------------------------------------------------

/// Local x coordinate of the voxel recorded by bit `i` of the word for
/// `axis` at `(a, b)`.
pub open spec fn spec_cell_x(axis: int, a: int, b: int, i: int) -> int {
    if axis == 2 {
        i
    } else {
        a
    }
}

/// Local y coordinate of the voxel recorded by bit `i` of the word for
/// `axis` at `(a, b)`.
pub open spec fn spec_cell_y(axis: int, a: int, b: int, i: int) -> int {
    if axis == 0 {
        i
    } else if axis == 1 {
        b
    } else {
        a
    }
}

/// Local z coordinate of the voxel recorded by bit `i` of the word for
/// `axis` at `(a, b)`.
pub open spec fn spec_cell_z(axis: int, a: int, b: int, i: int) -> int {
    if axis == 1 {
        i
    } else {
        b
    }
}

/// Material of the voxel recorded by bit `i` of the word for `axis` at
/// `(a, b)`.
pub open spec fn spec_face_cell(c: Chunk, axis: int, a: int, b: int, i: int) -> BlockType {
    c.spec_block(spec_cell_x(axis, a, b, i), spec_cell_y(axis, a, b, i), spec_cell_z(axis, a, b, i))
}

/// Which bits the encoder must set in the all-materials grids: bit `i` of
/// the word for `axis` at `(a, b)` marks a solid voxel, with the three axes
/// reading the cube along y, z and x respectively. Bits and planar
/// coordinates at or beyond the chunk size stay clear.
pub open spec fn spec_axis_bit(c: Chunk, axis: int, a: int, b: int, i: int) -> bool {
    &&& 0 <= a < CHUNK_SIZE
    &&& 0 <= b < CHUNK_SIZE
    &&& 0 <= i < CHUNK_SIZE
    &&& spec_face_cell(c, axis, a, b, i).spec_is_solid()
}

/// Which bits the encoder must set in material `m`'s grids: as
/// [`spec_axis_bit`], further scoped to voxels of that material.
pub open spec fn spec_material_bit(c: Chunk, m: BlockType, axis: int, a: int, b: int, i: int) -> bool {
    &&& spec_axis_bit(c, axis, a, b, i)
    &&& spec_face_cell(c, axis, a, b, i) == m
}

/// Flat grid index of the voxel recorded by bit `i` of the word for `axis`
/// at `(a, b)`.
spec fn spec_cell_index(axis: int, a: int, b: int, i: int) -> int {
    spec_grid_index(spec_cell_x(axis, a, b, i), spec_cell_y(axis, a, b, i), spec_cell_z(axis, a, b, i))
}

/// Partial encoding state: the bits due to voxels with flat index below
/// `upto` are set, all others clear. `filter` scopes a per-material grid.
spec fn spec_marked(c: Chunk, filter: Option<BlockType>, axis: int, a: int, b: int, i: int, upto: int) -> bool {
    &&& 0 <= a < CHUNK_SIZE
    &&& 0 <= b < CHUNK_SIZE
    &&& 0 <= i < CHUNK_SIZE
    &&& spec_cell_index(axis, a, b, i) < upto
    &&& spec_face_cell(c, axis, a, b, i).spec_is_solid()
    &&& (filter is Some ==> spec_face_cell(c, axis, a, b, i) == filter->0)
}

/// The words of one grid agree with the partial encoding state at `upto`.
spec fn spec_grid_partial(words: Seq<u64>, c: Chunk, filter: Option<BlockType>, upto: int) -> bool {
    forall|axis: int, a: int, b: int, i: int|
        0 <= axis < 3 && 0 <= a < CHUNK_SIZE_PAD && 0 <= b < CHUNK_SIZE_PAD && 0 <= i < 64
            ==> #[trigger] spec_bit(words[spec_face_index(axis, a, b)], i) == spec_marked(
            c,
            filter,
            axis,
            a,
            b,
            i,
            upto,
        )
}

/// Setting one bit by bitwise or leaves every other bit of the word as it
/// was.
proof fn lemma_or_bit(w: u64, s: u64, j: u64)
    requires
        s < 64,
        j < 64,
    ensures
        spec_bit(w | (1u64 << s), j as int) == (spec_bit(w, j as int) || j == s),
{
    assert(j == s ==> ((w | (1u64 << s)) >> j) & 1u64 == 1u64) by (bit_vector)
        requires
            s < 64,
            j < 64,
    ;
    assert(j != s ==> ((w | (1u64 << s)) >> j) & 1u64 == (w >> j) & 1u64) by (bit_vector)
        requires
            s < 64,
            j < 64,
    ;
}

/// The all-zero word has no bit set.
proof fn lemma_zero_bit(j: u64)
    requires
        j < 64,
    ensures
        !spec_bit(0u64, j as int),
{
    assert((0u64 >> j) & 1u64 == 0u64) by (bit_vector);
}

/// An all-zero grid is the partial encoding state before any voxel is
/// processed.
proof fn lemma_grid_partial_zero(words: Seq<u64>, c: Chunk, filter: Option<BlockType>)
    requires
        words.len() == FACE_GRID_WORDS,
        forall|k: int| 0 <= k < FACE_GRID_WORDS ==> words[k] == 0u64,
    ensures
        spec_grid_partial(words, c, filter, 0),
{
    assert forall|axis: int, a: int, b: int, i: int|
        0 <= axis < 3 && 0 <= a < CHUNK_SIZE_PAD && 0 <= b < CHUNK_SIZE_PAD && 0 <= i < 64
            implies #[trigger] spec_bit(words[spec_face_index(axis, a, b)], i) == spec_marked(
        c,
        filter,
        axis,
        a,
        b,
        i,
        0,
    ) by {
        lemma_face_index_inverse(axis, a, b);
        lemma_zero_bit(i as u64);
    }
}

/// Sets, in one grid, the three bits that record the solid voxel at local
/// `(x, y, z)`: bit `y` of the axis-0 word at `(x, z)`, bit `z` of the
/// axis-1 word at `(x, y)`, bit `x` of the axis-2 word at `(y, z)`.
fn mark_voxel(words: &mut Vec<u64>, x: usize, y: usize, z: usize)
    requires
        old(words)@.len() == FACE_GRID_WORDS,
        x < CHUNK_SIZE,
        y < CHUNK_SIZE,
        z < CHUNK_SIZE,
    ensures
        final(words)@.len() == FACE_GRID_WORDS,
        final(words)@[spec_face_index(0, x as int, z as int)] == (old(words)@[spec_face_index(
            0,
            x as int,
            z as int,
        )] | (1u64 << (y as u64))),
        final(words)@[spec_face_index(1, x as int, y as int)] == (old(words)@[spec_face_index(
            1,
            x as int,
            y as int,
        )] | (1u64 << (z as u64))),
        final(words)@[spec_face_index(2, y as int, z as int)] == (old(words)@[spec_face_index(
            2,
            y as int,
            z as int,
        )] | (1u64 << (x as u64))),
        forall|k: int|
            0 <= k < FACE_GRID_WORDS && k != spec_face_index(0, x as int, z as int) && k
                != spec_face_index(1, x as int, y as int) && k != spec_face_index(
                2,
                y as int,
                z as int,
            ) ==> final(words)@[k] == old(words)@[k],
{
    proof {
        lemma_face_index_inverse(0, x as int, z as int);
        lemma_face_index_inverse(1, x as int, y as int);
        lemma_face_index_inverse(2, y as int, z as int);
    }
    let i0 = x * CHUNK_SIZE_PAD + z;
    let w0 = words[i0];
    words[i0] = w0 | (1u64 << (y as u64));
    let i1 = (CHUNK_SIZE_PAD + x) * CHUNK_SIZE_PAD + y;
    let w1 = words[i1];
    words[i1] = w1 | (1u64 << (z as u64));
    let i2 = (2 * CHUNK_SIZE_PAD + y) * CHUNK_SIZE_PAD + z;
    let w2 = words[i2];
    words[i2] = w2 | (1u64 << (x as u64));
}

/// Advancing the partial encoding state over a voxel that this grid must
/// record: the grid with the voxel's three bits set matches the state with
/// `upto` one past the voxel.
proof fn lemma_mark_step(
    old_words: Seq<u64>,
    new_words: Seq<u64>,
    c: Chunk,
    filter: Option<BlockType>,
    x: int,
    y: int,
    z: int,
)
    requires
        c.wf(),
        0 <= x < CHUNK_SIZE,
        0 <= y < CHUNK_SIZE,
        0 <= z < CHUNK_SIZE,
        old_words.len() == FACE_GRID_WORDS,
        new_words.len() == FACE_GRID_WORDS,
        spec_grid_partial(old_words, c, filter, spec_grid_index(x, y, z)),
        c.spec_block(x, y, z).spec_is_solid(),
        filter is Some ==> c.spec_block(x, y, z) == filter->0,
        new_words[spec_face_index(0, x, z)] == (old_words[spec_face_index(0, x, z)] | (1u64 << (
        y as u64))),
        new_words[spec_face_index(1, x, y)] == (old_words[spec_face_index(1, x, y)] | (1u64 << (
        z as u64))),
        new_words[spec_face_index(2, y, z)] == (old_words[spec_face_index(2, y, z)] | (1u64 << (
        x as u64))),
        forall|k: int|
            0 <= k < FACE_GRID_WORDS && k != spec_face_index(0, x, z) && k != spec_face_index(
                1,
                x,
                y,
            ) && k != spec_face_index(2, y, z) ==> new_words[k] == old_words[k],
    ensures
        spec_grid_partial(new_words, c, filter, spec_grid_index(x, y, z) + 1),
{
    let v = spec_grid_index(x, y, z);
    lemma_grid_index_inverse(x, y, z);
    assert forall|axis: int, a: int, b: int, i: int|
        0 <= axis < 3 && 0 <= a < CHUNK_SIZE_PAD && 0 <= b < CHUNK_SIZE_PAD && 0 <= i < 64
            implies #[trigger] spec_bit(new_words[spec_face_index(axis, a, b)], i) == spec_marked(
        c,
        filter,
        axis,
        a,
        b,
        i,
        v + 1,
    ) by {
        lemma_face_index_inverse(axis, a, b);
        lemma_face_index_inverse(0, x, z);
        lemma_face_index_inverse(1, x, y);
        lemma_face_index_inverse(2, y, z);
        let f = spec_face_index(axis, a, b);
        if f == spec_face_index(0, x, z) || f == spec_face_index(1, x, y) || f == spec_face_index(
            2,
            y,
            z,
        ) {
            let s: u64 = if axis == 0 {
                y as u64
            } else if axis == 1 {
                z as u64
            } else {
                x as u64
            };
            lemma_or_bit(old_words[f], s, i as u64);
            if i == s {
                // This very bit records the voxel `(x, y, z)` itself.
                assert(spec_cell_index(axis, a, b, i) == v);
                assert(spec_marked(c, filter, axis, a, b, i, v + 1));
            } else {
                // Same word, different layer: the recorded voxel differs
                // from `(x, y, z)`, so its mark state is unchanged.
                if 0 <= i < CHUNK_SIZE {
                    lemma_grid_index_inverse(
                        spec_cell_x(axis, a, b, i),
                        spec_cell_y(axis, a, b, i),
                        spec_cell_z(axis, a, b, i),
                    );
                }
            }
        } else {
            // Untouched word: the recorded voxel differs from `(x, y, z)`.
            if 0 <= a < CHUNK_SIZE && 0 <= b < CHUNK_SIZE && 0 <= i < CHUNK_SIZE {
                lemma_grid_index_inverse(
                    spec_cell_x(axis, a, b, i),
                    spec_cell_y(axis, a, b, i),
                    spec_cell_z(axis, a, b, i),
                );
            }
        }
    }
}

/// Advancing the partial encoding state over a voxel that this grid must
/// not record (not solid, or of another material): the grid is unchanged and
/// still matches.
proof fn lemma_skip_step(
    words: Seq<u64>,
    c: Chunk,
    filter: Option<BlockType>,
    x: int,
    y: int,
    z: int,
)
    requires
        c.wf(),
        0 <= x < CHUNK_SIZE,
        0 <= y < CHUNK_SIZE,
        0 <= z < CHUNK_SIZE,
        words.len() == FACE_GRID_WORDS,
        spec_grid_partial(words, c, filter, spec_grid_index(x, y, z)),
        !(c.spec_block(x, y, z).spec_is_solid() && (filter is Some ==> c.spec_block(x, y, z)
            == filter->0)),
    ensures
        spec_grid_partial(words, c, filter, spec_grid_index(x, y, z) + 1),
{
    let v = spec_grid_index(x, y, z);
    lemma_grid_index_inverse(x, y, z);
    assert forall|axis: int, a: int, b: int, i: int|
        0 <= axis < 3 && 0 <= a < CHUNK_SIZE_PAD && 0 <= b < CHUNK_SIZE_PAD && 0 <= i < 64
            implies #[trigger] spec_bit(words[spec_face_index(axis, a, b)], i) == spec_marked(
        c,
        filter,
        axis,
        a,
        b,
        i,
        v + 1,
    ) by {
        lemma_face_index_inverse(axis, a, b);
        if 0 <= a < CHUNK_SIZE && 0 <= b < CHUNK_SIZE && 0 <= i < CHUNK_SIZE {
            if spec_cell_index(axis, a, b, i) == v {
                lemma_grid_index_inverse(
                    spec_cell_x(axis, a, b, i),
                    spec_cell_y(axis, a, b, i),
                    spec_cell_z(axis, a, b, i),
                );
                assert(spec_cell_x(axis, a, b, i) == x && spec_cell_y(axis, a, b, i) == y
                    && spec_cell_z(axis, a, b, i) == z);
            }
        }
    }
}

/// An all-zero grid of the right size.
fn zero_words() -> (r: Vec<u64>)
    ensures
        r@.len() == FACE_GRID_WORDS,
        forall|k: int| 0 <= k < FACE_GRID_WORDS ==> r@[k] == 0u64,
{
    let mut r: Vec<u64> = Vec::new();
    let mut k: usize = 0;
    while k < FACE_GRID_WORDS
        invariant
            r@.len() == k,
            k <= FACE_GRID_WORDS,
            forall|j: int| 0 <= j < k ==> r@[j] == 0u64,
        decreases FACE_GRID_WORDS - k,
    {
        r.push(0u64);
        k = k + 1;
    }
    r
}

/// Scans the voxel grid of a chunk and produces its face-visibility data:
/// for every solid voxel at local `(x, y, z)`, bit `y` of the axis-0 word at
/// `(x, z)`, bit `z` of the axis-1 word at `(x, y)` and bit `x` of the
/// axis-2 word at `(y, z)` are set, both in the all-materials grids and in
/// the grids of that voxel's material; every other bit is clear. The chunk
/// is only read; advancing its lifecycle state is the caller's step.
/// Full functional correctness of face-visibility data for a chunk: every
/// bit of the all-materials grids and of each material's grids is set
/// exactly as [`spec_axis_bit`] and [`spec_material_bit`] demand.
pub open spec fn spec_encodes(c: Chunk, r: ChunkRenderData) -> bool {
    &&& r.wf()
    &&& forall|axis: int, a: int, b: int, i: int|
        0 <= axis < 3 && 0 <= a < CHUNK_SIZE_PAD && 0 <= b < CHUNK_SIZE_PAD && 0 <= i < 64
            ==> #[trigger] spec_bit(r.solid_face_axes.spec_word(axis, a, b), i) == spec_axis_bit(
            c,
            axis,
            a,
            b,
            i,
        )
    &&& forall|m: int, axis: int, a: int, b: int, i: int|
        0 <= m < BLOCK_TYPE_COUNT && 0 <= axis < 3 && 0 <= a < CHUNK_SIZE_PAD && 0 <= b
            < CHUNK_SIZE_PAD && 0 <= i < 64 ==> #[trigger] spec_bit(
            r.texture_face_axes@[m].spec_word(axis, a, b),
            i,
        ) == spec_material_bit(c, BlockType::spec_type_of_idx(m), axis, a, b, i)
}

pub fn encode_chunk(chunk: &Chunk) -> (r: ChunkRenderData)
    requires
        chunk.wf(),
    ensures
        spec_encodes(*chunk, r),
{
    let mut solid_words = zero_words();
    let mut grass_words = zero_words();
    let mut stone_words = zero_words();
    let air_words = zero_words();
    proof {
        lemma_grid_partial_zero(solid_words@, *chunk, None);
        lemma_grid_partial_zero(grass_words@, *chunk, Some(BlockType::Grass));
        lemma_grid_partial_zero(stone_words@, *chunk, Some(BlockType::Stone));
        lemma_grid_partial_zero(air_words@, *chunk, Some(BlockType::Air));
    }
    let mut v: usize = 0;
    while v < CHUNK_VOLUME
        invariant
            chunk.wf(),
            v <= CHUNK_VOLUME,
            solid_words@.len() == FACE_GRID_WORDS,
            grass_words@.len() == FACE_GRID_WORDS,
            stone_words@.len() == FACE_GRID_WORDS,
            air_words@.len() == FACE_GRID_WORDS,
            spec_grid_partial(solid_words@, *chunk, None, v as int),
            spec_grid_partial(grass_words@, *chunk, Some(BlockType::Grass), v as int),
            spec_grid_partial(stone_words@, *chunk, Some(BlockType::Stone), v as int),
            spec_grid_partial(air_words@, *chunk, Some(BlockType::Air), v as int),
        decreases CHUNK_VOLUME - v,
    {
        let x: usize = v / (CHUNK_SIZE * CHUNK_SIZE);
        let y: usize = (v % (CHUNK_SIZE * CHUNK_SIZE)) / CHUNK_SIZE;
        let z: usize = v % CHUNK_SIZE;
        assert(x < CHUNK_SIZE && y < CHUNK_SIZE && z < CHUNK_SIZE && v == spec_grid_index(
            x as int,
            y as int,
            z as int,
        )) by (nonlinear_arith)
            requires
                0 <= v < 32768,
                x == v as int / 1024int,
                y == (v as int % 1024int) / 32int,
                z == v as int % 32int,
                spec_grid_index(x as int, y as int, z as int) == ((x as int) * 32 + y as int) * 32
                    + z as int,
        ;
        let bt = chunk.block_data[v];
        assert(bt == chunk.spec_block(x as int, y as int, z as int));
        if bt.is_solid() {
            let ghost pre_solid = solid_words@;
            mark_voxel(&mut solid_words, x, y, z);
            proof {
                lemma_mark_step(
                    pre_solid,
                    solid_words@,
                    *chunk,
                    None,
                    x as int,
                    y as int,
                    z as int,
                );
                lemma_skip_step(air_words@, *chunk, Some(BlockType::Air), x as int, y as int, z as int);
            }
            if bt.idx() == 1 {
                let ghost pre = grass_words@;
                mark_voxel(&mut grass_words, x, y, z);
                proof {
                    assert(bt == BlockType::Grass);
                    lemma_mark_step(
                        pre,
                        grass_words@,
                        *chunk,
                        Some(BlockType::Grass),
                        x as int,
                        y as int,
                        z as int,
                    );
                    lemma_skip_step(
                        stone_words@,
                        *chunk,
                        Some(BlockType::Stone),
                        x as int,
                        y as int,
                        z as int,
                    );
                }
            } else {
                let ghost pre = stone_words@;
                mark_voxel(&mut stone_words, x, y, z);
                proof {
                    assert(bt == BlockType::Stone);
                    lemma_mark_step(
                        pre,
                        stone_words@,
                        *chunk,
                        Some(BlockType::Stone),
                        x as int,
                        y as int,
                        z as int,
                    );
                    lemma_skip_step(
                        grass_words@,
                        *chunk,
                        Some(BlockType::Grass),
                        x as int,
                        y as int,
                        z as int,
                    );
                }
            }
        } else {
            proof {
                lemma_skip_step(solid_words@, *chunk, None, x as int, y as int, z as int);
                lemma_skip_step(grass_words@, *chunk, Some(BlockType::Grass), x as int, y as int, z as int);
                lemma_skip_step(stone_words@, *chunk, Some(BlockType::Stone), x as int, y as int, z as int);
                lemma_skip_step(air_words@, *chunk, Some(BlockType::Air), x as int, y as int, z as int);
            }
        }
        v = v + 1;
    }
    let mut texture_face_axes: Vec<FaceAxes> = Vec::new();
    texture_face_axes.push(FaceAxes { words: air_words });
    texture_face_axes.push(FaceAxes { words: grass_words });
    texture_face_axes.push(FaceAxes { words: stone_words });
    let r = ChunkRenderData { solid_face_axes: FaceAxes { words: solid_words }, texture_face_axes };
    proof {
        assert forall|axis: int, a: int, b: int, i: int|
            0 <= axis < 3 && 0 <= a < CHUNK_SIZE_PAD && 0 <= b < CHUNK_SIZE_PAD && 0 <= i < 64
                implies #[trigger] spec_bit(r.solid_face_axes.spec_word(axis, a, b), i)
            == spec_axis_bit(*chunk, axis, a, b, i) by {
            lemma_face_index_inverse(axis, a, b);
            if 0 <= a < CHUNK_SIZE && 0 <= b < CHUNK_SIZE && 0 <= i < CHUNK_SIZE {
                lemma_grid_index_inverse(
                    spec_cell_x(axis, a, b, i),
                    spec_cell_y(axis, a, b, i),
                    spec_cell_z(axis, a, b, i),
                );
            }
        }
        assert forall|m: int, axis: int, a: int, b: int, i: int|
            0 <= m < BLOCK_TYPE_COUNT && 0 <= axis < 3 && 0 <= a < CHUNK_SIZE_PAD && 0 <= b
                < CHUNK_SIZE_PAD && 0 <= i < 64 implies #[trigger] spec_bit(
            r.texture_face_axes@[m].spec_word(axis, a, b),
            i,
        ) == spec_material_bit(*chunk, BlockType::spec_type_of_idx(m), axis, a, b, i) by {
            lemma_face_index_inverse(axis, a, b);
            if 0 <= a < CHUNK_SIZE && 0 <= b < CHUNK_SIZE && 0 <= i < CHUNK_SIZE {
                lemma_grid_index_inverse(
                    spec_cell_x(axis, a, b, i),
                    spec_cell_y(axis, a, b, i),
                    spec_cell_z(axis, a, b, i),
                );
            }
        }
    }
    r
}

/// A fixed-width bitset word with no bit set is zero.
proof fn lemma_word_zero(w: u64)
    requires
        forall|j: int| 0 <= j < 64 ==> !spec_bit(w, j),
    ensures
        w == 0u64,
{
    assert(!spec_bit(w, 0));
    assert(!spec_bit(w, 1));
    assert(!spec_bit(w, 2));
    assert(!spec_bit(w, 3));
    assert(!spec_bit(w, 4));
    assert(!spec_bit(w, 5));
    assert(!spec_bit(w, 6));
    assert(!spec_bit(w, 7));
    assert(!spec_bit(w, 8));
    assert(!spec_bit(w, 9));
    assert(!spec_bit(w, 10));
    assert(!spec_bit(w, 11));
    assert(!spec_bit(w, 12));
    assert(!spec_bit(w, 13));
    assert(!spec_bit(w, 14));
    assert(!spec_bit(w, 15));
    assert(!spec_bit(w, 16));
    assert(!spec_bit(w, 17));
    assert(!spec_bit(w, 18));
    assert(!spec_bit(w, 19));
    assert(!spec_bit(w, 20));
    assert(!spec_bit(w, 21));
    assert(!spec_bit(w, 22));
    assert(!spec_bit(w, 23));
    assert(!spec_bit(w, 24));
    assert(!spec_bit(w, 25));
    assert(!spec_bit(w, 26));
    assert(!spec_bit(w, 27));
    assert(!spec_bit(w, 28));
    assert(!spec_bit(w, 29));
    assert(!spec_bit(w, 30));
    assert(!spec_bit(w, 31));
    assert(!spec_bit(w, 32));
    assert(!spec_bit(w, 33));
    assert(!spec_bit(w, 34));
    assert(!spec_bit(w, 35));
    assert(!spec_bit(w, 36));
    assert(!spec_bit(w, 37));
    assert(!spec_bit(w, 38));
    assert(!spec_bit(w, 39));
    assert(!spec_bit(w, 40));
    assert(!spec_bit(w, 41));
    assert(!spec_bit(w, 42));
    assert(!spec_bit(w, 43));
    assert(!spec_bit(w, 44));
    assert(!spec_bit(w, 45));
    assert(!spec_bit(w, 46));
    assert(!spec_bit(w, 47));
    assert(!spec_bit(w, 48));
    assert(!spec_bit(w, 49));
    assert(!spec_bit(w, 50));
    assert(!spec_bit(w, 51));
    assert(!spec_bit(w, 52));
    assert(!spec_bit(w, 53));
    assert(!spec_bit(w, 54));
    assert(!spec_bit(w, 55));
    assert(!spec_bit(w, 56));
    assert(!spec_bit(w, 57));
    assert(!spec_bit(w, 58));
    assert(!spec_bit(w, 59));
    assert(!spec_bit(w, 60));
    assert(!spec_bit(w, 61));
    assert(!spec_bit(w, 62));
    assert(!spec_bit(w, 63));
    assert(w == 0u64) by (bit_vector)
        requires
            (w >> 0u64) & 1u64 != 1u64,
            (w >> 1u64) & 1u64 != 1u64,
            (w >> 2u64) & 1u64 != 1u64,
            (w >> 3u64) & 1u64 != 1u64,
            (w >> 4u64) & 1u64 != 1u64,
            (w >> 5u64) & 1u64 != 1u64,
            (w >> 6u64) & 1u64 != 1u64,
            (w >> 7u64) & 1u64 != 1u64,
            (w >> 8u64) & 1u64 != 1u64,
            (w >> 9u64) & 1u64 != 1u64,
            (w >> 10u64) & 1u64 != 1u64,
            (w >> 11u64) & 1u64 != 1u64,
            (w >> 12u64) & 1u64 != 1u64,
            (w >> 13u64) & 1u64 != 1u64,
            (w >> 14u64) & 1u64 != 1u64,
            (w >> 15u64) & 1u64 != 1u64,
            (w >> 16u64) & 1u64 != 1u64,
            (w >> 17u64) & 1u64 != 1u64,
            (w >> 18u64) & 1u64 != 1u64,
            (w >> 19u64) & 1u64 != 1u64,
            (w >> 20u64) & 1u64 != 1u64,
            (w >> 21u64) & 1u64 != 1u64,
            (w >> 22u64) & 1u64 != 1u64,
            (w >> 23u64) & 1u64 != 1u64,
            (w >> 24u64) & 1u64 != 1u64,
            (w >> 25u64) & 1u64 != 1u64,
            (w >> 26u64) & 1u64 != 1u64,
            (w >> 27u64) & 1u64 != 1u64,
            (w >> 28u64) & 1u64 != 1u64,
            (w >> 29u64) & 1u64 != 1u64,
            (w >> 30u64) & 1u64 != 1u64,
            (w >> 31u64) & 1u64 != 1u64,
            (w >> 32u64) & 1u64 != 1u64,
            (w >> 33u64) & 1u64 != 1u64,
            (w >> 34u64) & 1u64 != 1u64,
            (w >> 35u64) & 1u64 != 1u64,
            (w >> 36u64) & 1u64 != 1u64,
            (w >> 37u64) & 1u64 != 1u64,
            (w >> 38u64) & 1u64 != 1u64,
            (w >> 39u64) & 1u64 != 1u64,
            (w >> 40u64) & 1u64 != 1u64,
            (w >> 41u64) & 1u64 != 1u64,
            (w >> 42u64) & 1u64 != 1u64,
            (w >> 43u64) & 1u64 != 1u64,
            (w >> 44u64) & 1u64 != 1u64,
            (w >> 45u64) & 1u64 != 1u64,
            (w >> 46u64) & 1u64 != 1u64,
            (w >> 47u64) & 1u64 != 1u64,
            (w >> 48u64) & 1u64 != 1u64,
            (w >> 49u64) & 1u64 != 1u64,
            (w >> 50u64) & 1u64 != 1u64,
            (w >> 51u64) & 1u64 != 1u64,
            (w >> 52u64) & 1u64 != 1u64,
            (w >> 53u64) & 1u64 != 1u64,
            (w >> 54u64) & 1u64 != 1u64,
            (w >> 55u64) & 1u64 != 1u64,
            (w >> 56u64) & 1u64 != 1u64,
            (w >> 57u64) & 1u64 != 1u64,
            (w >> 58u64) & 1u64 != 1u64,
            (w >> 59u64) & 1u64 != 1u64,
            (w >> 60u64) & 1u64 != 1u64,
            (w >> 61u64) & 1u64 != 1u64,
            (w >> 62u64) & 1u64 != 1u64,
            (w >> 63u64) & 1u64 != 1u64,
    ;
}

/// Encoding an all-empty chunk yields all-zero bitsets across every axis
/// and every material.
pub proof fn lemma_encode_all_empty(c: Chunk, r: ChunkRenderData)
    requires
        c.wf(),
        forall|x: int, y: int, z: int|
            0 <= x < CHUNK_SIZE && 0 <= y < CHUNK_SIZE && 0 <= z < CHUNK_SIZE
                ==> #[trigger] c.spec_block(x, y, z) == BlockType::Air,
        spec_encodes(c, r),
    ensures
        forall|k: int| 0 <= k < FACE_GRID_WORDS ==> r.solid_face_axes.words@[k] == 0u64,
        forall|m: int, k: int|
            0 <= m < BLOCK_TYPE_COUNT && 0 <= k < FACE_GRID_WORDS
                ==> (#[trigger] r.texture_face_axes@[m].words@[k]) == 0u64,
{
    let n = CHUNK_SIZE_PAD as int;
    assert forall|k: int| 0 <= k < FACE_GRID_WORDS implies r.solid_face_axes.words@[k]
        == 0u64 by {
        let axis = k / (n * n);
        let a = (k % (n * n)) / n;
        let b = k % n;
        assert(0 <= axis < 3 && 0 <= a < n && 0 <= b < n && k == spec_face_index(axis, a, b))
            by (nonlinear_arith)
            requires
                0 <= k < 3468,
                n == 34,
                axis == k / (n * n),
                a == (k % (n * n)) / n,
                b == k % n,
                spec_face_index(axis, a, b) == (axis * n + a) * n + b,
        ;
        let w = r.solid_face_axes.spec_word(axis, a, b);
        assert forall|j: int| 0 <= j < 64 implies !spec_bit(w, j) by {
            assert(spec_bit(w, j) == spec_axis_bit(c, axis, a, b, j));
            if 0 <= a < CHUNK_SIZE && 0 <= b < CHUNK_SIZE && 0 <= j < CHUNK_SIZE {
                assert(spec_face_cell(c, axis, a, b, j) == BlockType::Air);
            }
        }
        lemma_word_zero(w);
    }
    assert forall|m: int, k: int|
        0 <= m < BLOCK_TYPE_COUNT && 0 <= k < FACE_GRID_WORDS implies (
    #[trigger] r.texture_face_axes@[m].words@[k]) == 0u64 by {
        let axis = k / (n * n);
        let a = (k % (n * n)) / n;
        let b = k % n;
        assert(0 <= axis < 3 && 0 <= a < n && 0 <= b < n && k == spec_face_index(axis, a, b))
            by (nonlinear_arith)
            requires
                0 <= k < 3468,
                n == 34,
                axis == k / (n * n),
                a == (k % (n * n)) / n,
                b == k % n,
                spec_face_index(axis, a, b) == (axis * n + a) * n + b,
        ;
        let w = r.texture_face_axes@[m].spec_word(axis, a, b);
        assert forall|j: int| 0 <= j < 64 implies !spec_bit(w, j) by {
            assert(spec_bit(w, j) == spec_material_bit(
                c,
                BlockType::spec_type_of_idx(m),
                axis,
                a,
                b,
                j,
            ));
            if 0 <= a < CHUNK_SIZE && 0 <= b < CHUNK_SIZE && 0 <= j < CHUNK_SIZE {
                assert(spec_face_cell(c, axis, a, b, j) == BlockType::Air);
            }
        }
        lemma_word_zero(w);
    }
}


/// Whether some entry of a drawn-output sequence carries the given offset.
pub open spec fn spec_out_contains(s: Seq<(ChunkOffset, ChunkRenderData)>, o: ChunkOffset) -> bool {
    exists|k: int| 0 <= k < s.len() && (#[trigger] s[k]).0 == o
}

/// Appending one entry extends exactly the offsets an output covers.
proof fn lemma_out_push(s: Seq<(ChunkOffset, ChunkRenderData)>, e: (ChunkOffset, ChunkRenderData), o: ChunkOffset)
    ensures
        spec_out_contains(s.push(e), o) == (spec_out_contains(s, o) || e.0 == o),
{
    if spec_out_contains(s.push(e), o) {
        let k = choose|k: int| 0 <= k < s.push(e).len() && (#[trigger] s.push(e)[k]).0 == o;
        if k < s.len() {
            assert((s[k]).0 == o);
        }
    }
    if spec_out_contains(s, o) {
        let k = choose|k: int| 0 <= k < s.len() && (#[trigger] s[k]).0 == o;
        assert((s.push(e)[k]).0 == o);
    }
    if e.0 == o {
        assert((s.push(e)[s.len() as int]).0 == o);
    }
}

/// One encoding pass of the tick: encodes up to `max_draw` `Loaded` chunks,
/// advances each encoded chunk to `Drawn`, and returns the face-visibility
/// data per encoded chunk. Chunks not reached stay `Loaded` and are picked
/// up on a later tick; every chunk keeps its offset and voxels, and the
/// index keeps exactly the same chunk set (in reversed order).
pub fn draw_chunks(map: &mut ChunkPositionMap, max_draw: usize) -> (out: Vec<
    (ChunkOffset, ChunkRenderData),
>)
    requires
        old(map).wf(),
    ensures
        final(map).wf(),
        final(map).chunks@.len() == old(map).chunks@.len(),
        forall|i: int|
            0 <= i < final(map).chunks@.len() ==> {
                let oc = old(map).chunks@[old(map).chunks@.len() - 1 - i];
                let nc = (#[trigger] final(map).chunks@[i]);
                &&& nc.offset == oc.offset
                &&& nc.block_data == oc.block_data
                &&& nc.state == (if oc.state == ChunkState::Loaded && spec_out_contains(
                    out@,
                    oc.offset,
                ) {
                    ChunkState::Drawn
                } else {
                    oc.state
                })
            },
        out@.len() <= max_draw,
        forall|k1: int, k2: int|
            0 <= k1 < k2 < out@.len() ==> (#[trigger] out@[k1]).0 != (#[trigger] out@[k2]).0,
        forall|k: int| 0 <= k < out@.len() ==> #[trigger] old(map).contains_offset((out@[k]).0),
        forall|k: int, j: int|
            0 <= k < out@.len() && 0 <= j < old(map).chunks@.len() && (#[trigger] old(
                map,
            ).chunks@[j]).offset == (#[trigger] out@[k]).0 ==> old(map).chunks@[j].state
                == ChunkState::Loaded && spec_encodes(old(map).chunks@[j], out@[k].1),
        out@.len() < max_draw ==> forall|j: int|
            0 <= j < old(map).chunks@.len() && (#[trigger] old(map).chunks@[j]).state
                == ChunkState::Loaded ==> spec_out_contains(out@, old(map).chunks@[j].offset),
{
    let ghost om = *map;
    let mut pending: Vec<Chunk> = Vec::new();
    std::mem::swap(&mut map.chunks, &mut pending);
    let mut out: Vec<(ChunkOffset, ChunkRenderData)> = Vec::new();
    proof {
        assert(pending@ =~= om.chunks@.take(pending@.len() as int));
    }
    while pending.len() > 0
        invariant
            om.wf(),
            pending@.len() <= om.chunks@.len(),
            pending@ == om.chunks@.take(pending@.len() as int),
            map.chunks@.len() == om.chunks@.len() - pending@.len(),
            out@.len() <= max_draw,
            forall|i: int|
                0 <= i < map.chunks@.len() ==> {
                    let oc = om.chunks@[om.chunks@.len() - 1 - i];
                    let nc = (#[trigger] map.chunks@[i]);
                    &&& nc.offset == oc.offset
                    &&& nc.block_data == oc.block_data
                    &&& nc.state == (if oc.state == ChunkState::Loaded && spec_out_contains(
                        out@,
                        oc.offset,
                    ) {
                        ChunkState::Drawn
                    } else {
                        oc.state
                    })
                },
            forall|k1: int, k2: int|
                0 <= k1 < k2 < out@.len() ==> (#[trigger] out@[k1]).0 != (#[trigger] out@[k2]).0,
            forall|k: int| 0 <= k < out@.len() ==> #[trigger] om.contains_offset((out@[k]).0),
            forall|k: int, j: int|
                0 <= k < out@.len() && 0 <= j < pending@.len() ==> (#[trigger] om.chunks@[j]).offset
                    != (#[trigger] out@[k]).0,
            forall|k: int, j: int|
                0 <= k < out@.len() && 0 <= j < om.chunks@.len() && (#[trigger] om.chunks@[j]).offset
                    == (#[trigger] out@[k]).0 ==> om.chunks@[j].state == ChunkState::Loaded
                    && spec_encodes(om.chunks@[j], out@[k].1),
            out@.len() < max_draw ==> forall|j: int|
                pending@.len() <= j < om.chunks@.len() && (#[trigger] om.chunks@[j]).state
                    == ChunkState::Loaded ==> spec_out_contains(out@, om.chunks@[j].offset),
        decreases pending@.len(),
    {
        let ghost pre_pending = pending@;
        let ghost pre_out = out@;
        let mut c = match pending.pop() {
            Some(c) => c,
            None => {
                proof {
                    assert(false);
                }
                vstd::pervasive::unreached()
            },
        };
        let ghost p = pending@.len() as int;
        proof {
            assert(pre_pending[p] == om.chunks@.take(p + 1)[p]);
            assert(c == om.chunks@[p]);
            assert(pending@ =~= om.chunks@.take(p));
        }
        proof {
            // The chunk just taken up was not yet encoded: nothing in the
            // output carries its offset.
            if spec_out_contains(pre_out, om.chunks@[p].offset) {
                let k = choose|k: int|
                    0 <= k < pre_out.len() && (#[trigger] pre_out[k]).0 == om.chunks@[p].offset;
                assert((om.chunks@[p]).offset != (pre_out[k]).0);
                assert(false);
            }
        }
        let is_loaded = match c.state {
            ChunkState::Loaded => true,
            _ => false,
        };
        if is_loaded && out.len() < max_draw {
            let rd = encode_chunk(&c);
            c.state = ChunkState::Drawn;
            out.push((c.offset, rd));
            proof {
                assert(out@ == pre_out.push((om.chunks@[p].offset, rd)));
                let k = out@.len() - 1;
                assert((om.chunks@[p]).offset == (out@[k]).0 && om.chunks@[p].state
                    == ChunkState::Loaded && spec_encodes(om.chunks@[p], out@[k].1));
                assert(om.contains_offset((out@[k]).0));
                // The witness is unique: any other index holds another offset.
                assert forall|j: int|
                    0 <= j < om.chunks@.len() && (#[trigger] om.chunks@[j]).offset == (
                    out@[k]).0 implies om.chunks@[j].state == ChunkState::Loaded && spec_encodes(
                    om.chunks@[j],
                    out@[k].1,
                ) by {
                    if j != p {
                        assert(om.chunks@[j].offset != om.chunks@[p].offset);
                    }
                }
            }
        }
        map.chunks.push(c);
        proof {
            let e_off = om.chunks@[p].offset;
            // How the set of drawn offsets evolved this iteration.
            assert forall|o: ChunkOffset| #[trigger]
                spec_out_contains(out@, o) == (spec_out_contains(pre_out, o) || (out@.len()
                    > pre_out.len() && e_off == o)) by {
                if out@.len() > pre_out.len() {
                    lemma_out_push(pre_out, out@[out@.len() - 1], o);
                } else {
                }
            }
            // Offsets of distinct index positions are distinct.
            assert forall|j: int|
                p < j < om.chunks@.len() implies (#[trigger] om.chunks@[j]).offset != e_off by {
                assert(om.chunks@[p].offset != om.chunks@[j].offset);
            }
        }
    }
    proof {
        assert(om.chunks@.take(0) =~= Seq::<Chunk>::empty());
        assert forall|i: int, j: int|
            0 <= i < j < map.chunks@.len() implies (#[trigger] map.chunks@[i]).offset != (
        #[trigger] map.chunks@[j]).offset by {
            let n = om.chunks@.len() as int;
            assert(om.chunks@[n - 1 - i].offset != om.chunks@[n - 1 - j].offset);
        }
    }
    out
}


// ------------------------------------------------------------------
// Streaming control
// ------------------------------------------------------------------

/// Largest reference-position magnitude the controller accepts, in milli
/// world units; keeps every chunk coordinate within `i32` and every squared
/// distance within `i128`.
pub const POS_ABS_MAX: i64 = 1_000_000_000_000;

/// Largest render distance the controller accepts: 64 chunks, in milli.
pub const RENDER_DIST_MILLI_MAX: i64 = 64_000;

/// World extent of one chunk along an axis, in milli units: `CHUNK_SIZE`
/// voxels of `CUBE_SIZE_MILLI` each would be `48_000`; the chunk-coordinate
/// stride used for locating the reference chunk divides by voxel count
/// alone, `CHUNK_SIZE * 1000`.
pub const CHUNK_STRIDE_MILLI: i64 = 32_000;

/// A point in world space, in milli units per axis.
#[derive(PartialEq, Eq, Structural, Clone, Copy, Debug)]
pub struct WorldPos {
    pub x: i64,
    pub y: i64,
    pub z: i64,
}

impl WorldPos {
    pub fn new(x: i64, y: i64, z: i64) -> (r: Self)
        ensures
            r.x == x,
            r.y == y,
            r.z == z,
    {
        Self { x, y, z }
    }
}

/// Streaming tuning: render distance in chunks (milli) and the per-tick
/// work budgets.
#[derive(PartialEq, Eq, Structural, Clone, Copy, Debug)]
pub struct StreamConfig {
    pub render_dist_milli: i64,
    pub max_load_per_tick: usize,
    pub max_draw_per_tick: usize,
}

impl Default for StreamConfig {
    /// Two chunks of render distance, four loads and four draws per tick.
    fn default() -> (r: Self)
        ensures
            r.render_dist_milli == 2000,
            r.max_load_per_tick == 4,
            r.max_draw_per_tick == 4,
    {
        Self { render_dist_milli: 2000, max_load_per_tick: 4, max_draw_per_tick: 4 }
    }
}

/// Chunk coordinate of the reference point along one axis: its position
/// divided by the chunk stride, rounded toward negative infinity.
pub open spec fn spec_center(p: i64) -> int {
    p as int / (CHUNK_STRIDE_MILLI as int)
}

/// Candidate radius in chunks: the render distance rounded up to whole
/// chunks.
pub open spec fn spec_radius(render_dist_milli: i64) -> int {
    (render_dist_milli + 999) as int / 1000
}

/// Twice the world-space distance, squared, between the center of the chunk
/// at `o` and the reference point: measured in half-milli units so that the
/// half-chunk center offset stays integral.
pub open spec fn spec_dist2_half(o: ChunkOffset, p: WorldPos) -> int {
    let dx = (2 * o.x * CHUNK_SIZE + CHUNK_SIZE) * CUBE_SIZE_MILLI - 2 * p.x;
    let dy = (2 * o.y * CHUNK_SIZE + CHUNK_SIZE) * CUBE_SIZE_MILLI - 2 * p.y;
    let dz = (2 * o.z * CHUNK_SIZE + CHUNK_SIZE) * CUBE_SIZE_MILLI - 2 * p.z;
    dx * dx + dy * dy + dz * dz
}

/// The acceptance threshold in half-milli units: twice the world render
/// distance, `2 * CHUNK_SIZE * CUBE_SIZE_MILLI * render_dist_milli / 1000`.
pub open spec fn spec_thr_half(render_dist_milli: i64) -> int {
    96 * render_dist_milli
}

/// The desired set: a chunk coordinate should be loaded when it lies in the
/// cubic candidate neighborhood of the reference chunk and its center is
/// within the render distance of the reference point (squared comparison;
/// a center strictly beyond the threshold is discarded).
pub open spec fn spec_in_range(o: ChunkOffset, p: WorldPos, cfg: StreamConfig) -> bool {
    let rad = spec_radius(cfg.render_dist_milli);
    &&& spec_center(p.x) - rad <= o.x < spec_center(p.x) + rad
    &&& spec_center(p.y) - rad <= o.y < spec_center(p.y) + rad
    &&& spec_center(p.z) - rad <= o.z < spec_center(p.z) + rad
    &&& spec_dist2_half(o, p) <= spec_thr_half(cfg.render_dist_milli) * spec_thr_half(
        cfg.render_dist_milli,
    )
}

/// One tick's streaming decisions: the chunk coordinates to create, nearest
/// first, and the coordinates to destroy.
pub struct LoadPlan {
    pub to_create: Vec<ChunkOffset>,
    pub to_destroy: Vec<ChunkOffset>,
}

/// Chunk coordinate of the reference point along one axis (floor division
/// by the chunk stride).
fn center_chunk(p: i64) -> (r: i64)
    requires
        -POS_ABS_MAX <= p <= POS_ABS_MAX,
    ensures
        r == spec_center(p),
        -31_250_000 <= r <= 31_250_000,
{
    let b: i64 = CHUNK_STRIDE_MILLI;
    if p >= 0 {
        let q = ((p as u64) / (b as u64)) as i64;
        proof {
            vstd::arithmetic::div_mod::lemma_fundamental_div_mod(p as int, b as int);
        }
        q
    } else {
        let m: u64 = (-p) as u64;
        let q0 = m / (b as u64);
        let r0 = m % (b as u64);
        if r0 == 0 {
            proof {
                lemma_fundamental_div_mod_converse(p as int, b as int, -(q0 as int), 0);
            }
            -(q0 as i64)
        } else {
            proof {
                lemma_fundamental_div_mod_converse(
                    p as int,
                    b as int,
                    -(q0 as int) - 1,
                    b - r0,
                );
            }
            -(q0 as i64) - 1
        }
    }
}

/// One enumerated candidate: a chunk coordinate and its squared half-milli
/// distance to the reference point.
#[derive(Clone, Copy)]
struct Candidate {
    offset: ChunkOffset,
    dist2: i128,
}

/// Squared half-milli distance from the center of the chunk at `o` to the
/// reference point.
fn dist2_half(o: ChunkOffset, p: WorldPos) -> (r: i128)
    requires
        -POS_ABS_MAX <= p.x <= POS_ABS_MAX,
        -POS_ABS_MAX <= p.y <= POS_ABS_MAX,
        -POS_ABS_MAX <= p.z <= POS_ABS_MAX,
        -32_000_000 <= o.x <= 32_000_000,
        -32_000_000 <= o.y <= 32_000_000,
        -32_000_000 <= o.z <= 32_000_000,
    ensures
        r == spec_dist2_half(o, p),
        0 <= r,
{
    let chx: i64 = (64 * (o.x as i64) + 32) * CUBE_SIZE_MILLI;
    let chy: i64 = (64 * (o.y as i64) + 32) * CUBE_SIZE_MILLI;
    let chz: i64 = (64 * (o.z as i64) + 32) * CUBE_SIZE_MILLI;
    let dx: i128 = (chx as i128) - 2 * (p.x as i128);
    let dy: i128 = (chy as i128) - 2 * (p.y as i128);
    let dz: i128 = (chz as i128) - 2 * (p.z as i128);
    proof {
        assert(dx * dx + dy * dy + dz * dz
            < 0x8000_0000_0000_0000_0000_0000_0000_0000 && 0 <= dx * dx && 0 <= dy * dy && 0 <= dz
            * dz) by (nonlinear_arith)
            requires
                -6_000_000_000_000 <= dx <= 6_000_000_000_000,
                -6_000_000_000_000 <= dy <= 6_000_000_000_000,
                -6_000_000_000_000 <= dz <= 6_000_000_000_000,
        ;
    }
    dx * dx + dy * dy + dz * dz
}

/// Removes the (unique) occurrence of `o` from a duplicate-free offset
/// list, if present.
fn take_out(v: &mut Vec<ChunkOffset>, o: ChunkOffset) -> (found: bool)
    requires
        forall|k1: int, k2: int|
            0 <= k1 < k2 < old(v)@.len() ==> old(v)@[k1] != old(v)@[k2],
    ensures
        forall|k1: int, k2: int| 0 <= k1 < k2 < final(v)@.len() ==> final(v)@[k1] != final(v)@[k2],
        found == old(v)@.contains(o),
        !final(v)@.contains(o),
        forall|o2: ChunkOffset|
            o2 != o ==> #[trigger] final(v)@.contains(o2) == old(v)@.contains(o2),
        final(v)@.len() == if found {
            old(v)@.len() - 1
        } else {
            old(v)@.len() as int
        },
{
    let mut i: usize = 0;
    while i < v.len()
        invariant
            i <= v@.len(),
            v@ == old(v)@,
            forall|k1: int, k2: int|
                0 <= k1 < k2 < old(v)@.len() ==> old(v)@[k1] != old(v)@[k2],
            forall|k: int| 0 <= k < i ==> v@[k] != o,
        decreases v@.len() - i,
    {
        if v[i].x == o.x && v[i].y == o.y && v[i].z == o.z {
            proof {
                assert(old(v)@[i as int] == o);
            }
            v.remove(i);
            proof {
                let pre = old(v)@;
                assert(v@ == pre.remove(i as int));
                assert forall|o2: ChunkOffset|
                    o2 != o implies #[trigger] v@.contains(o2) == pre.contains(o2) by {
                    if v@.contains(o2) {
                        let k = choose|k: int| 0 <= k < v@.len() && v@[k] == o2;
                        if k < i {
                            assert(pre[k] == o2);
                        } else {
                            assert(pre[k + 1] == o2);
                        }
                    }
                    if pre.contains(o2) {
                        let k = choose|k: int| 0 <= k < pre.len() && pre[k] == o2;
                        if k < i {
                            assert(v@[k] == o2);
                        } else {
                            assert(k != i);
                            assert(v@[k - 1] == o2);
                        }
                    }
                }
                assert forall|k: int| 0 <= k < v@.len() implies v@[k] != o by {
                    if k < i {
                        assert(pre[k] != o);
                    } else {
                        assert(old(v)@[i as int] != old(v)@[k + 1]);
                        assert(pre[k + 1] != o);
                    }
                }
                assert(!v@.contains(o));
                assert(pre.contains(o));
                assert forall|k1: int, k2: int|
                    0 <= k1 < k2 < v@.len() implies v@[k1] != v@[k2] by {
                    let p1: int = if k1 < i { k1 } else { k1 + 1 };
                    let p2: int = if k2 < i { k2 } else { k2 + 1 };
                    assert(v@[k1] == pre[p1] && v@[k2] == pre[p2]);
                    assert(old(v)@[p1] != old(v)@[p2]);
                }
            }
            return true;
        }
        i = i + 1;
    }
    proof {
        assert(!old(v)@.contains(o));
    }
    false
}


/// Whether one of the first `upto` candidates carries the given offset.
spec fn spec_prefix_contains(cand: Seq<Candidate>, upto: int, o: ChunkOffset) -> bool {
    exists|k: int| 0 <= k < upto && (#[trigger] cand[k]).offset == o
}

/// One tick's streaming decisions around the reference point.
///
/// Enumerates the cubic candidate neighborhood of the reference chunk,
/// keeps the candidates within the render distance, orders them nearest
/// first, and diffs against the index: missing candidates become creation
/// requests up to `max_load_per_tick` (the rest wait for a later tick),
/// and indexed chunks that fell out of range become destruction requests
/// (uncapped, as unloading is cheap). The caller performs the creations
/// with [`create_chunk`] and the destructions with [`destroy_chunk`].
pub fn load_chunks(map: &ChunkPositionMap, player: WorldPos, cfg: &StreamConfig) -> (plan: LoadPlan)
    requires
        map.wf(),
        -POS_ABS_MAX <= player.x <= POS_ABS_MAX,
        -POS_ABS_MAX <= player.y <= POS_ABS_MAX,
        -POS_ABS_MAX <= player.z <= POS_ABS_MAX,
        0 < cfg.render_dist_milli <= RENDER_DIST_MILLI_MAX,
    ensures
        forall|k: int|
            0 <= k < plan.to_create@.len() ==> spec_in_range(
                #[trigger] plan.to_create@[k],
                player,
                *cfg,
            ) && !map.contains_offset(plan.to_create@[k]),
        forall|k1: int, k2: int|
            0 <= k1 < k2 < plan.to_create@.len() ==> (#[trigger] plan.to_create@[k1]) != (
            #[trigger] plan.to_create@[k2]),
        forall|k1: int, k2: int|
            0 <= k1 < k2 < plan.to_create@.len() ==> spec_dist2_half(
                #[trigger] plan.to_create@[k1],
                player,
            ) <= spec_dist2_half(#[trigger] plan.to_create@[k2], player),
        plan.to_create@.len() <= cfg.max_load_per_tick,
        plan.to_create@.len() < cfg.max_load_per_tick ==> forall|o: ChunkOffset|
            spec_in_range(o, player, *cfg) && !map.contains_offset(o)
                ==> #[trigger] plan.to_create@.contains(o),
        forall|k: int|
            0 <= k < plan.to_destroy@.len() ==> map.contains_offset(#[trigger] plan.to_destroy@[k])
                && !spec_in_range(plan.to_destroy@[k], player, *cfg),
        forall|k1: int, k2: int|
            0 <= k1 < k2 < plan.to_destroy@.len() ==> (#[trigger] plan.to_destroy@[k1]) != (
            #[trigger] plan.to_destroy@[k2]),
        forall|o: ChunkOffset|
            map.contains_offset(o) && !spec_in_range(o, player, *cfg)
                ==> #[trigger] plan.to_destroy@.contains(o),
{
    let cx = center_chunk(player.x);
    let cy = center_chunk(player.y);
    let cz = center_chunk(player.z);
    let rad: i64 = (((cfg.render_dist_milli as u64) + 999) / 1000) as i64;
    assert(rad == spec_radius(cfg.render_dist_milli));
    assert(1 <= rad <= 64);
    let x_lo = cx - rad;
    let x_hi = cx + rad;
    let y_lo = cy - rad;
    let y_hi = cy + rad;
    let z_lo = cz - rad;
    let z_hi = cz + rad;
    let thr: i64 = 96 * cfg.render_dist_milli;
    proof {
        assert(0 <= (thr as int) * (thr as int) < 0x8000_0000_0000_0000_0000_0000_0000_0000)
            by (nonlinear_arith)
            requires
                0 < thr <= 6_144_000,
        ;
    }
    let thr2: i128 = (thr as i128) * (thr as i128);
    proof {
        assert(thr2 == spec_thr_half(cfg.render_dist_milli) * spec_thr_half(
            cfg.render_dist_milli,
        ));
    }

    // Phase one: enumerate the cubic neighborhood and keep what is in
    // range, in enumeration order.
    let mut cand: Vec<Candidate> = Vec::new();
    let mut ox = x_lo;
    while ox < x_hi
        invariant
            -POS_ABS_MAX <= player.x <= POS_ABS_MAX,
            -POS_ABS_MAX <= player.y <= POS_ABS_MAX,
            -POS_ABS_MAX <= player.z <= POS_ABS_MAX,
            0 < cfg.render_dist_milli <= RENDER_DIST_MILLI_MAX,
            1 <= rad <= 64,
            rad == spec_radius(cfg.render_dist_milli),
            x_lo == spec_center(player.x) - rad && x_hi == spec_center(player.x) + rad,
            y_lo == spec_center(player.y) - rad && y_hi == spec_center(player.y) + rad,
            z_lo == spec_center(player.z) - rad && z_hi == spec_center(player.z) + rad,
            -31_250_064 <= x_lo && x_hi <= 31_250_064,
            -31_250_064 <= y_lo && y_hi <= 31_250_064,
            -31_250_064 <= z_lo && z_hi <= 31_250_064,
            x_lo <= ox <= x_hi,
            thr2 == spec_thr_half(cfg.render_dist_milli) * spec_thr_half(cfg.render_dist_milli),
            forall|k: int|
                0 <= k < cand@.len() ==> spec_in_range((#[trigger] cand@[k]).offset, player, *cfg)
                    && cand@[k].dist2 == spec_dist2_half(cand@[k].offset, player),
            forall|k1: int, k2: int|
                0 <= k1 < k2 < cand@.len() ==> (#[trigger] cand@[k1]).offset != (
                #[trigger] cand@[k2]).offset,
            forall|k: int| 0 <= k < cand@.len() ==> (#[trigger] cand@[k]).offset.x < ox,
            forall|o: ChunkOffset|
                spec_in_range(o, player, *cfg) && o.x < ox ==> spec_prefix_contains(
                    cand@,
                    cand@.len() as int,
                    o,
                ),
        decreases x_hi - ox,
    {
        let mut oy = y_lo;
        while oy < y_hi
            invariant
                -POS_ABS_MAX <= player.x <= POS_ABS_MAX,
                -POS_ABS_MAX <= player.y <= POS_ABS_MAX,
                -POS_ABS_MAX <= player.z <= POS_ABS_MAX,
                0 < cfg.render_dist_milli <= RENDER_DIST_MILLI_MAX,
                1 <= rad <= 64,
                rad == spec_radius(cfg.render_dist_milli),
                x_lo == spec_center(player.x) - rad && x_hi == spec_center(player.x) + rad,
                y_lo == spec_center(player.y) - rad && y_hi == spec_center(player.y) + rad,
                z_lo == spec_center(player.z) - rad && z_hi == spec_center(player.z) + rad,
                -31_250_064 <= x_lo && x_hi <= 31_250_064,
                -31_250_064 <= y_lo && y_hi <= 31_250_064,
                -31_250_064 <= z_lo && z_hi <= 31_250_064,
                x_lo <= ox < x_hi,
                y_lo <= oy <= y_hi,
                thr2 == spec_thr_half(cfg.render_dist_milli) * spec_thr_half(
                    cfg.render_dist_milli,
                ),
                forall|k: int|
                    0 <= k < cand@.len() ==> spec_in_range(
                        (#[trigger] cand@[k]).offset,
                        player,
                        *cfg,
                    ) && cand@[k].dist2 == spec_dist2_half(cand@[k].offset, player),
                forall|k1: int, k2: int|
                    0 <= k1 < k2 < cand@.len() ==> (#[trigger] cand@[k1]).offset != (
                    #[trigger] cand@[k2]).offset,
                forall|k: int|
                    0 <= k < cand@.len() ==> (#[trigger] cand@[k]).offset.x < ox || (
                    cand@[k].offset.x == ox && cand@[k].offset.y < oy),
                forall|o: ChunkOffset|
                    spec_in_range(o, player, *cfg) && (o.x < ox || (o.x == ox && o.y < oy))
                        ==> spec_prefix_contains(cand@, cand@.len() as int, o),
            decreases y_hi - oy,
        {
            let mut oz = z_lo;
            while oz < z_hi
                invariant
                    -POS_ABS_MAX <= player.x <= POS_ABS_MAX,
                    -POS_ABS_MAX <= player.y <= POS_ABS_MAX,
                    -POS_ABS_MAX <= player.z <= POS_ABS_MAX,
                    0 < cfg.render_dist_milli <= RENDER_DIST_MILLI_MAX,
                    1 <= rad <= 64,
                    rad == spec_radius(cfg.render_dist_milli),
                    x_lo == spec_center(player.x) - rad && x_hi == spec_center(player.x) + rad,
                    y_lo == spec_center(player.y) - rad && y_hi == spec_center(player.y) + rad,
                    z_lo == spec_center(player.z) - rad && z_hi == spec_center(player.z) + rad,
                    -31_250_064 <= x_lo && x_hi <= 31_250_064,
                    -31_250_064 <= y_lo && y_hi <= 31_250_064,
                    -31_250_064 <= z_lo && z_hi <= 31_250_064,
                    x_lo <= ox < x_hi,
                    y_lo <= oy < y_hi,
                    z_lo <= oz <= z_hi,
                    thr2 == spec_thr_half(cfg.render_dist_milli) * spec_thr_half(
                        cfg.render_dist_milli,
                    ),
                    forall|k: int|
                        0 <= k < cand@.len() ==> spec_in_range(
                            (#[trigger] cand@[k]).offset,
                            player,
                            *cfg,
                        ) && cand@[k].dist2 == spec_dist2_half(cand@[k].offset, player),
                    forall|k1: int, k2: int|
                        0 <= k1 < k2 < cand@.len() ==> (#[trigger] cand@[k1]).offset != (
                        #[trigger] cand@[k2]).offset,
                    forall|k: int|
                        0 <= k < cand@.len() ==> (#[trigger] cand@[k]).offset.x < ox || (
                        cand@[k].offset.x == ox && (cand@[k].offset.y < oy || (cand@[k].offset.y
                            == oy && cand@[k].offset.z < oz))),
                    forall|o: ChunkOffset|
                        spec_in_range(o, player, *cfg) && (o.x < ox || (o.x == ox && (o.y < oy || (
                        o.y == oy && o.z < oz)))) ==> spec_prefix_contains(
                            cand@,
                            cand@.len() as int,
                            o,
                        ),
                decreases z_hi - oz,
            {
                let off = ChunkOffset::new(ox as i32, oy as i32, oz as i32);
                proof {
                    assert(off.x == ox && off.y == oy && off.z == oz);
                }
                let d2 = dist2_half(off, player);
                let ghost pre_cand = cand@;
                if d2 <= thr2 {
                    cand.push(Candidate { offset: off, dist2: d2 });
                    proof {
                        assert(spec_in_range(off, player, *cfg));
                        assert(cand@[cand@.len() - 1].offset == off);
                    }
                }
                proof {
                    assert forall|o: ChunkOffset|
                        spec_in_range(o, player, *cfg) && (o.x < ox || (o.x == ox && (o.y < oy || (
                        o.y == oy && o.z < oz + 1)))) implies spec_prefix_contains(
                        cand@,
                        cand@.len() as int,
                        o,
                    ) by {
                        if o.x == ox && o.y == oy && o.z == oz {
                            assert(spec_dist2_half(o, player) <= spec_thr_half(
                                cfg.render_dist_milli,
                            ) * spec_thr_half(cfg.render_dist_milli));
                            assert(cand@[cand@.len() - 1].offset == o);
                        } else {
                            assert(spec_prefix_contains(pre_cand, pre_cand.len() as int, o));
                            let k = choose|k: int|
                                0 <= k < pre_cand.len() && (#[trigger] pre_cand[k]).offset == o;
                            assert(cand@[k].offset == o);
                        }
                    }
                }
                oz = oz + 1;
            }
            oy = oy + 1;
        }
        ox = ox + 1;
    }

    // Phase two: order the surviving candidates by distance (insertion
    // sort; equal keys keep their enumeration order).
    let ghost n0 = cand@.len();
    let mut si: usize = 1;
    while si < cand.len()
        invariant
            -POS_ABS_MAX <= player.x <= POS_ABS_MAX,
            -POS_ABS_MAX <= player.y <= POS_ABS_MAX,
            -POS_ABS_MAX <= player.z <= POS_ABS_MAX,
            0 < cfg.render_dist_milli <= RENDER_DIST_MILLI_MAX,
            cand@.len() == n0,
            1 <= si,
            forall|k: int|
                0 <= k < cand@.len() ==> spec_in_range((#[trigger] cand@[k]).offset, player, *cfg)
                    && cand@[k].dist2 == spec_dist2_half(cand@[k].offset, player),
            forall|k1: int, k2: int|
                0 <= k1 < k2 < cand@.len() ==> (#[trigger] cand@[k1]).offset != (
                #[trigger] cand@[k2]).offset,
            forall|o: ChunkOffset|
                spec_in_range(o, player, *cfg) ==> spec_prefix_contains(
                    cand@,
                    cand@.len() as int,
                    o,
                ),
            forall|a: int, b: int|
                0 <= a < b < si && b < cand@.len() ==> (#[trigger] cand@[a]).dist2 <= (
                #[trigger] cand@[b]).dist2,
        decreases cand@.len() - si,
    {
        let mut j: usize = si;
        while j > 0 && cand[j - 1].dist2 > cand[j].dist2
            invariant
                -POS_ABS_MAX <= player.x <= POS_ABS_MAX,
                -POS_ABS_MAX <= player.y <= POS_ABS_MAX,
                -POS_ABS_MAX <= player.z <= POS_ABS_MAX,
                0 < cfg.render_dist_milli <= RENDER_DIST_MILLI_MAX,
                cand@.len() == n0,
                j <= si < cand@.len(),
                forall|k: int|
                    0 <= k < cand@.len() ==> spec_in_range(
                        (#[trigger] cand@[k]).offset,
                        player,
                        *cfg,
                    ) && cand@[k].dist2 == spec_dist2_half(cand@[k].offset, player),
                forall|k1: int, k2: int|
                    0 <= k1 < k2 < cand@.len() ==> (#[trigger] cand@[k1]).offset != (
                    #[trigger] cand@[k2]).offset,
                forall|o: ChunkOffset|
                    spec_in_range(o, player, *cfg) ==> spec_prefix_contains(
                        cand@,
                        cand@.len() as int,
                        o,
                    ),
                forall|a: int, b: int|
                    0 <= a < b <= si && b < cand@.len() && b != j ==> (#[trigger] cand@[a]).dist2
                        <= (#[trigger] cand@[b]).dist2,
            decreases j,
        {
            let tmp1 = cand[j - 1];
            let tmp2 = cand[j];
            let ghost pre_swap = cand@;
            cand[j - 1] = tmp2;
            cand[j] = tmp1;
            proof {
                assert(cand@ =~= pre_swap.update(j - 1, pre_swap[j as int]).update(
                    j as int,
                    pre_swap[j - 1],
                ));
                assert forall|o: ChunkOffset|
                    spec_in_range(o, player, *cfg) implies spec_prefix_contains(
                    cand@,
                    cand@.len() as int,
                    o,
                ) by {
                    let k = choose|k: int|
                        0 <= k < pre_swap.len() && (#[trigger] pre_swap[k]).offset == o;
                    if k == j - 1 {
                        assert(cand@[j as int].offset == o);
                    } else if k == j {
                        assert(cand@[j - 1].offset == o);
                    } else {
                        assert(cand@[k].offset == o);
                    }
                }
                assert forall|k1: int, k2: int|
                    0 <= k1 < k2 < cand@.len() implies (#[trigger] cand@[k1]).offset != (
                #[trigger] cand@[k2]).offset by {
                    let p1: int = if k1 == j - 1 {
                        j as int
                    } else if k1 == j {
                        j - 1
                    } else {
                        k1
                    };
                    let p2: int = if k2 == j - 1 {
                        j as int
                    } else if k2 == j {
                        j - 1
                    } else {
                        k2
                    };
                    assert(cand@[k1] == pre_swap[p1] && cand@[k2] == pre_swap[p2]);
                    if p1 < p2 {
                        assert(pre_swap[p1].offset != pre_swap[p2].offset);
                    } else {
                        assert(pre_swap[p2].offset != pre_swap[p1].offset);
                    }
                }
            }
            j = j - 1;
        }
        si = si + 1;
    }

    // Phase three: walk the ordered candidates, keep what is indexed,
    // request creation for what is missing under the load budget; whatever
    // stays unmarked in the index copy is out of range and to be destroyed.
    let mut to_remove = map.offsets();
    proof {
        assert forall|k1: int, k2: int|
            0 <= k1 < k2 < to_remove@.len() implies to_remove@[k1] != to_remove@[k2] by {
            assert(map.chunks@[k1].offset != map.chunks@[k2].offset);
        }
        assert forall|o: ChunkOffset| #[trigger]
            to_remove@.contains(o) == map.contains_offset(o) by {
            if to_remove@.contains(o) {
                let k = choose|k: int| 0 <= k < to_remove@.len() && to_remove@[k] == o;
                assert(map.chunks@[k].offset == o);
            }
            if map.contains_offset(o) {
                let i = choose|i: int|
                    0 <= i < map.chunks@.len() && (#[trigger] map.chunks@[i]).offset == o;
                assert(to_remove@[i] == o);
            }
        }
    }
    let mut to_create: Vec<ChunkOffset> = Vec::new();
    let mut ci: usize = 0;
    while ci < cand.len()
        invariant
            map.wf(),
            ci <= cand@.len(),
            forall|k: int|
                0 <= k < cand@.len() ==> spec_in_range((#[trigger] cand@[k]).offset, player, *cfg)
                    && cand@[k].dist2 == spec_dist2_half(cand@[k].offset, player),
            forall|k1: int, k2: int|
                0 <= k1 < k2 < cand@.len() ==> (#[trigger] cand@[k1]).offset != (
                #[trigger] cand@[k2]).offset,
            forall|o: ChunkOffset|
                spec_in_range(o, player, *cfg) ==> spec_prefix_contains(
                    cand@,
                    cand@.len() as int,
                    o,
                ),
            forall|a: int, b: int|
                0 <= a < b < cand@.len() ==> (#[trigger] cand@[a]).dist2 <= (
                #[trigger] cand@[b]).dist2,
            forall|o: ChunkOffset| #[trigger]
                to_remove@.contains(o) == (map.contains_offset(o) && !spec_prefix_contains(
                    cand@,
                    ci as int,
                    o,
                )),
            forall|k1: int, k2: int|
                0 <= k1 < k2 < to_remove@.len() ==> to_remove@[k1] != to_remove@[k2],
            forall|k: int|
                0 <= k < to_create@.len() ==> spec_in_range(
                    #[trigger] to_create@[k],
                    player,
                    *cfg,
                ) && !map.contains_offset(to_create@[k]),
            forall|k: int|
                0 <= k < to_create@.len() ==> (exists|m: int|
                    0 <= m < ci && (#[trigger] cand@[m]).offset == #[trigger] to_create@[k]),
            forall|k1: int, k2: int|
                0 <= k1 < k2 < to_create@.len() ==> (#[trigger] to_create@[k1]) != (
                #[trigger] to_create@[k2]),
            to_create@.len() <= cfg.max_load_per_tick,
            to_create@.len() < cfg.max_load_per_tick ==> forall|m: int|
                0 <= m < ci && !map.contains_offset((#[trigger] cand@[m]).offset)
                    ==> to_create@.contains(cand@[m].offset),
            forall|k: int, m: int|
                0 <= k < to_create@.len() && ci <= m < cand@.len() ==> spec_dist2_half(
                    #[trigger] to_create@[k],
                    player,
                ) <= (#[trigger] cand@[m]).dist2,
            forall|k1: int, k2: int|
                0 <= k1 < k2 < to_create@.len() ==> spec_dist2_half(
                    #[trigger] to_create@[k1],
                    player,
                ) <= spec_dist2_half(#[trigger] to_create@[k2], player),
        decreases cand@.len() - ci,
    {
        let off = cand[ci].offset;
        let ghost pre_remove = to_remove@;
        let found = take_out(&mut to_remove, off);
        proof {
            assert(!spec_prefix_contains(cand@, ci as int, off));
            assert(found == map.contains_offset(off));
            assert forall|o: ChunkOffset| #[trigger]
                to_remove@.contains(o) == (map.contains_offset(o) && !spec_prefix_contains(
                cand@,
                ci + 1,
                o,
            )) by {
                if o == off {
                    assert(cand@[ci as int].offset == o);
                    assert(spec_prefix_contains(cand@, ci + 1, o));
                } else {
                    assert(to_remove@.contains(o) == pre_remove.contains(o));
                    assert(spec_prefix_contains(cand@, ci + 1, o) == spec_prefix_contains(
                        cand@,
                        ci as int,
                        o,
                    )) by {
                        if spec_prefix_contains(cand@, ci + 1, o) {
                            let k = choose|k: int|
                                0 <= k < ci + 1 && (#[trigger] cand@[k]).offset == o;
                            assert(k < ci);
                        }
                    }
                }
            }
        }
        if !found {
            if to_create.len() < cfg.max_load_per_tick {
                let ghost pre_create = to_create@;
                to_create.push(off);
                proof {
                    assert(to_create@[to_create@.len() - 1] == off);
                    assert forall|k1: int, k2: int|
                        0 <= k1 < k2 < to_create@.len() implies (#[trigger] to_create@[k1]) != (
                    #[trigger] to_create@[k2]) by {
                        if k2 == to_create@.len() - 1 {
                            let m = choose|m: int|
                                0 <= m < ci && (#[trigger] cand@[m]).offset == pre_create[k1];
                            assert(cand@[m].offset != cand@[ci as int].offset);
                        }
                    }
                    assert(exists|m: int|
                        0 <= m < ci + 1 && (#[trigger] cand@[m]).offset == off) by {
                        assert(cand@[ci as int].offset == off);
                    }
                    assert forall|m: int|
                        0 <= m < ci + 1 && !map.contains_offset(
                            (#[trigger] cand@[m]).offset,
                        ) implies to_create@.contains(cand@[m].offset) by {
                        if m == ci {
                            assert(to_create@[to_create@.len() - 1] == cand@[m].offset);
                        } else {
                            assert(pre_create.contains(cand@[m].offset));
                            let k = choose|k: int|
                                0 <= k < pre_create.len() && pre_create[k] == cand@[m].offset;
                            assert(to_create@[k] == cand@[m].offset);
                        }
                    }
                }
            }
        }
        ci = ci + 1;
    }
    proof {
        assert forall|k: int|
            0 <= k < to_remove@.len() implies map.contains_offset(#[trigger] to_remove@[k])
                && !spec_in_range(to_remove@[k], player, *cfg) by {
            assert(to_remove@.contains(to_remove@[k]));
            if spec_in_range(to_remove@[k], player, *cfg) {
                assert(spec_prefix_contains(cand@, cand@.len() as int, to_remove@[k]));
            }
        }
        assert forall|o: ChunkOffset|
            map.contains_offset(o) && !spec_in_range(o, player, *cfg) implies #[trigger]
            to_remove@.contains(o) by {
            if spec_prefix_contains(cand@, cand@.len() as int, o) {
                let k = choose|k: int|
                    0 <= k < cand@.len() && (#[trigger] cand@[k]).offset == o;
                assert(spec_in_range(cand@[k].offset, player, *cfg));
            }
        }
        if to_create@.len() < cfg.max_load_per_tick {
            assert forall|o: ChunkOffset|
                spec_in_range(o, player, *cfg) && !map.contains_offset(o) implies #[trigger]
                to_create@.contains(o) by {
                assert(spec_prefix_contains(cand@, cand@.len() as int, o));
                let m = choose|m: int| 0 <= m < cand@.len() && (#[trigger] cand@[m]).offset == o;
                assert(to_create@.contains(cand@[m].offset));
            }
        }
    }
    LoadPlan { to_create, to_destroy: to_remove }
}

/// The create step for one planned offset: builds the chunk from its
/// column heightfield and registers it in one stroke, promoting it from
/// `Populated` to `Loaded`. Afterwards the index resolves the offset to a
/// `Loaded` chunk carrying exactly the materialized grid.
pub fn create_chunk(map: &mut ChunkPositionMap, offset: ChunkOffset, heights: &Vec<i64>)
    requires
        old(map).wf(),
        !old(map).contains_offset(offset),
        heights@.len() == COLUMN_COUNT,
    ensures
        final(map).wf(),
        final(map).contains_offset(offset),
        forall|o: ChunkOffset|
            #[trigger] final(map).contains_offset(o) <==> (old(map).contains_offset(o) || o
                == offset),
        final(map).chunks@.len() == old(map).chunks@.len() + 1,
        forall|i: int|
            0 <= i < final(map).chunks@.len() && (#[trigger] final(map).chunks@[i]).offset
                == offset ==> final(map).chunks@[i].state == ChunkState::Loaded
                && final(map).chunks@[i].block_data@ == spec_chunk_grid(offset, heights@),
        forall|i: int| 0 <= i < old(map).chunks@.len() ==> final(map).chunks@[i] == old(map).chunks@[i],
{
    let c = Chunk::new(offset, heights);
    map.insert(c);
    proof {
        let n = old(map).chunks@.len() as int;
        assert forall|i: int|
            0 <= i < map.chunks@.len() && (#[trigger] map.chunks@[i]).offset == offset implies map
            .chunks@[i].state == ChunkState::Loaded && map.chunks@[i].block_data@
            == spec_chunk_grid(offset, heights@) by {
            if i < n {
                assert(old(map).chunks@[i].offset == offset);
                assert(old(map).contains_offset(offset));
            }
        }
    }
}

/// The destroy step for one out-of-range offset: unregisters and drops the
/// chunk in one stroke. Afterwards the index no longer resolves the offset.
pub fn destroy_chunk(map: &mut ChunkPositionMap, offset: ChunkOffset)
    requires
        old(map).wf(),
        old(map).contains_offset(offset),
    ensures
        final(map).wf(),
        !final(map).contains_offset(offset),
        forall|o: ChunkOffset|
            #[trigger] final(map).contains_offset(o) <==> (old(map).contains_offset(o) && o
                != offset),
        final(map).chunks@.len() == old(map).chunks@.len() - 1,
{
    map.remove(offset);
}

/// Streaming is idempotent at its fixed point: when the loaded set is
/// exactly the desired (in-range) set, any plan whose creations are
/// missing in-range offsets and whose destructions are loaded out-of-range
/// offsets - as [`load_chunks`] ensures - is empty on both sides.
pub proof fn lemma_streaming_idempotent(
    to_create: Seq<ChunkOffset>,
    to_destroy: Seq<ChunkOffset>,
    map: ChunkPositionMap,
    player: WorldPos,
    cfg: StreamConfig,
)
    requires
        forall|k: int|
            0 <= k < to_create.len() ==> spec_in_range(#[trigger] to_create[k], player, cfg)
                && !map.contains_offset(to_create[k]),
        forall|k: int|
            0 <= k < to_destroy.len() ==> map.contains_offset(#[trigger] to_destroy[k])
                && !spec_in_range(to_destroy[k], player, cfg),
        forall|o: ChunkOffset| #[trigger] map.contains_offset(o) <==> spec_in_range(o, player, cfg),
    ensures
        to_create.len() == 0,
        to_destroy.len() == 0,
{
    if to_create.len() > 0 {
        assert(spec_in_range(to_create[0], player, cfg));
        assert(map.contains_offset(to_create[0]));
    }
    if to_destroy.len() > 0 {
        assert(map.contains_offset(to_destroy[0]));
        assert(spec_in_range(to_destroy[0], player, cfg));
    }
}

} // verus!
