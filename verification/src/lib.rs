//! A streamed, procedurally generated voxel world.
//!
//! The world is partitioned into fixed-size cubic chunks. Terrain heights come
//! from layered 2D noise; a streaming controller decides each tick which chunks
//! to create or destroy around a moving reference point under a per-tick work
//! budget; a visibility encoder turns each chunk's solid-voxel occupancy into
//! per-axis face bitsets for a later meshing step.
//!
//! All world lengths are carried as fixed-point integers in milli-units
//! (one thousandth of a world unit), so that every rule of the library is a
//! statement about plain integers.

use vstd::prelude::*;

pub mod block;
pub mod voxel_directions;
pub mod terrain;
pub mod chunk;
pub mod chunk_updater;

verus! {

/// Side length of a chunk, in voxels.
pub const CHUNK_SIZE: usize = 32;

/// Side length of a chunk grid padded by one empty voxel on each face.
pub const CHUNK_SIZE_PAD: usize = CHUNK_SIZE + 2;

/// Edge length of one voxel cube, in milli world units.
pub const CUBE_SIZE_MILLI: i64 = 1500;

} // verus!
