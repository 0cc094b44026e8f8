//! Filling a freshly generated chunk from per-column terrain heights.
use vstd::prelude::*;

use crate::block::{BlockType, Voxel};
use crate::chunk::{delinearize, lx, ly, lz, Chunk, CHUNK_AREA, CHUNK_SIZE, CHUNK_VOLUME};

verus! {

/// Depth below the surface at which dirt gives way to stone: dirt fills the
/// layers strictly above `surface - SOIL_DEPTH` (floored at zero).
pub const SOIL_DEPTH: usize = 3;

/// The highest layer of a column that is not dirt or grass.
pub open spec fn soil_floor(top: int) -> int {
    if top >= SOIL_DEPTH {
        top - SOIL_DEPTH
    } else {
        0
    }
}

/// The surface height of a column: the terrain height, capped to the top
/// layer of the chunk.
pub open spec fn column_top(height: usize) -> int {
    if height < CHUNK_SIZE {
        height as int
    } else {
        CHUNK_SIZE - 1
    }
}

/// The voxel at height `y` of a column whose terrain height is `height`:
/// grass at the surface, dirt in the layers just below it, then stone, or
/// coal where the rare-species draw for that cell came up.
pub open spec fn terrain_voxel(height: usize, y: int, rare: bool) -> Voxel {
    let top = column_top(height);
    if y > top {
        Voxel::Empty
    } else if y == top {
        Voxel::Full(BlockType::Grass)
    } else if y > soil_floor(top) {
        Voxel::Full(BlockType::Dirt)
    } else if rare {
        Voxel::Full(BlockType::Coal)
    } else {
        Voxel::Full(BlockType::Stone)
    }
}

/// The terrain voxel at flat index `i`, with column heights indexed by
/// `x + CHUNK_SIZE * z` and rare-species draws by flat index.
pub open spec fn terrain_cell(heights: Seq<usize>, rare: Seq<bool>, i: int) -> Voxel {
    terrain_voxel(heights[lx(i) + CHUNK_SIZE * lz(i)], ly(i), rare[i])
}

fn column_voxel(height: usize, y: usize, rare: bool) -> (v: Voxel)
    ensures
        v == terrain_voxel(height, y as int, rare),
{
    let top = if height < CHUNK_SIZE { height } else { CHUNK_SIZE - 1 };
    if y > top {
        Voxel::Empty
    } else if y == top {
        Voxel::Full(BlockType::Grass)
    } else if y > top.saturating_sub(SOIL_DEPTH) {
        Voxel::Full(BlockType::Dirt)
    } else if rare {
        Voxel::Full(BlockType::Coal)
    } else {
        Voxel::Full(BlockType::Stone)
    }
}

/// A chunk filled from terrain heights: `heights[x + CHUNK_SIZE * z]` is the
/// height of column `(x, z)` and `rare[i]` says whether the bulk cell at flat
/// index `i` holds the rare species.
pub fn generate_chunk(heights: &Vec<usize>, rare: &Vec<bool>) -> (c: Chunk)
    requires
        heights.len() == CHUNK_AREA,
        rare.len() == CHUNK_VOLUME,
    ensures
        c.wf(),
        forall|i: int| 0 <= i < CHUNK_VOLUME ==> #[trigger] c@[i] == terrain_cell(heights@, rare@, i),
{
    let mut voxels: Vec<Voxel> = Vec::with_capacity(CHUNK_VOLUME);
    let mut i: usize = 0;
    while i < CHUNK_VOLUME
        invariant
            i <= CHUNK_VOLUME,
            heights.len() == CHUNK_AREA,
            rare.len() == CHUNK_VOLUME,
            voxels.len() == i,
            forall|j: int| 0 <= j < i ==> #[trigger] voxels@[j] == terrain_cell(heights@, rare@, j),
        decreases CHUNK_VOLUME - i,
    {
        let (x, y, z) = delinearize(i);
        let v = column_voxel(heights[x + CHUNK_SIZE * z], y, rare[i]);
        voxels.push(v);
        i = i + 1;
    }
    assert forall|j: int| 0 <= j < voxels.len() implies !(#[trigger] voxels@[j] is Semi) by {
        assert(voxels@[j] == terrain_cell(heights@, rare@, j));
    }
    Chunk::from_voxels(voxels)
}

} // verus!
