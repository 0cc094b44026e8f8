//! Voxel species and their cells in the shared texture atlas.
use vstd::prelude::*;

verus! {

/// One species of solid voxel.
#[derive(Debug, Clone, Copy, PartialEq, Eq, Structural)]
pub enum BlockType {
    Grass,
    Dirt,
    Sand,
    Wood,
    Leaf,
    Stone,
    Plank,
    Coal,
    Water,
}

/// The content of one cell of a chunk.
///
/// `Semi` is reserved for partial or translucent blocks. It is not supported:
/// chunks never hold it and edits that would place it are rejected.
#[derive(Debug, Clone, Copy, PartialEq, Eq, Structural)]
pub enum Voxel {
    Empty,
    Full(BlockType),
    Semi(BlockType),
}

/// A cell of the texture atlas, by column and row.
#[derive(Debug, Clone, Copy, PartialEq, Eq, Structural)]
pub struct AtlasCell {
    pub col: u32,
    pub row: u32,
}

/// The atlas cells used by the top, bottom and side faces of a species.
#[derive(Debug, Clone, Copy, PartialEq, Eq, Structural)]
pub struct BlockTexture {
    pub top: AtlasCell,
    pub bot: AtlasCell,
    pub sid: AtlasCell,
}

/// Number of selectable species.
pub const BLOCK_COUNT: usize = 9;

pub open spec fn cell(col: u32, row: u32) -> AtlasCell {
    AtlasCell { col, row }
}

pub open spec fn faces(top: AtlasCell, bot: AtlasCell, sid: AtlasCell) -> BlockTexture {
    BlockTexture { top, bot, sid }
}

/// The atlas layout of every species.
pub open spec fn texture_of(b: BlockType) -> BlockTexture {
    match b {
        BlockType::Grass => faces(cell(4, 4), cell(1, 1), cell(4, 1)),
        BlockType::Dirt => faces(cell(1, 1), cell(1, 1), cell(1, 1)),
        BlockType::Sand => faces(cell(10, 1), cell(10, 1), cell(10, 1)),
        BlockType::Wood => faces(cell(2, 7), cell(2, 7), cell(2, 4)),
        BlockType::Leaf => faces(cell(7, 4), cell(7, 4), cell(7, 4)),
        BlockType::Stone => faces(cell(13, 1), cell(13, 1), cell(13, 1)),
        BlockType::Plank => faces(cell(10, 4), cell(10, 4), cell(10, 4)),
        BlockType::Coal => faces(cell(13, 4), cell(13, 4), cell(13, 4)),
        BlockType::Water => faces(cell(7, 1), cell(7, 1), cell(7, 1)),
    }
}

/// The selectable species, in selection order.
pub open spec fn block_at(i: int) -> BlockType {
    if i == 0 {
        BlockType::Grass
    } else if i == 1 {
        BlockType::Dirt
    } else if i == 2 {
        BlockType::Sand
    } else if i == 3 {
        BlockType::Wood
    } else if i == 4 {
        BlockType::Leaf
    } else if i == 5 {
        BlockType::Stone
    } else if i == 6 {
        BlockType::Plank
    } else if i == 7 {
        BlockType::Coal
    } else {
        BlockType::Water
    }
}

/// Display name of a species.
pub open spec fn block_name(b: BlockType) -> Seq<char> {
    match b {
        BlockType::Grass => "grass"@,
        BlockType::Dirt => "dirt"@,
        BlockType::Sand => "sand"@,
        BlockType::Wood => "wood"@,
        BlockType::Leaf => "leaf"@,
        BlockType::Stone => "stone"@,
        BlockType::Plank => "plank"@,
        BlockType::Coal => "Coal"@,
        BlockType::Water => "water"@,
    }
}

impl BlockType {
    /// Atlas cells of this species; a constant table.
    pub fn texture(&self) -> (r: BlockTexture)
        ensures
            r == texture_of(*self),
    {
        match self {
            BlockType::Grass => BlockTexture {
                top: AtlasCell { col: 4, row: 4 },
                bot: AtlasCell { col: 1, row: 1 },
                sid: AtlasCell { col: 4, row: 1 },
            },
            BlockType::Dirt => BlockTexture {
                top: AtlasCell { col: 1, row: 1 },
                bot: AtlasCell { col: 1, row: 1 },
                sid: AtlasCell { col: 1, row: 1 },
            },
            BlockType::Sand => BlockTexture {
                top: AtlasCell { col: 10, row: 1 },
                bot: AtlasCell { col: 10, row: 1 },
                sid: AtlasCell { col: 10, row: 1 },
            },
            BlockType::Wood => BlockTexture {
                top: AtlasCell { col: 2, row: 7 },
                bot: AtlasCell { col: 2, row: 7 },
                sid: AtlasCell { col: 2, row: 4 },
            },
            BlockType::Leaf => BlockTexture {
                top: AtlasCell { col: 7, row: 4 },
                bot: AtlasCell { col: 7, row: 4 },
                sid: AtlasCell { col: 7, row: 4 },
            },
            BlockType::Stone => BlockTexture {
                top: AtlasCell { col: 13, row: 1 },
                bot: AtlasCell { col: 13, row: 1 },
                sid: AtlasCell { col: 13, row: 1 },
            },
            BlockType::Plank => BlockTexture {
                top: AtlasCell { col: 10, row: 4 },
                bot: AtlasCell { col: 10, row: 4 },
                sid: AtlasCell { col: 10, row: 4 },
            },
            BlockType::Coal => BlockTexture {
                top: AtlasCell { col: 13, row: 4 },
                bot: AtlasCell { col: 13, row: 4 },
                sid: AtlasCell { col: 13, row: 4 },
            },
            BlockType::Water => BlockTexture {
                top: AtlasCell { col: 7, row: 1 },
                bot: AtlasCell { col: 7, row: 1 },
                sid: AtlasCell { col: 7, row: 1 },
            },
        }
    }

    /// Display name of this species.
    pub fn name(&self) -> (r: String)
        ensures
            r@ == block_name(*self),
    {
        match self {
            BlockType::Grass => "grass".to_owned(),
            BlockType::Dirt => "dirt".to_owned(),
            BlockType::Sand => "sand".to_owned(),
            BlockType::Wood => "wood".to_owned(),
            BlockType::Leaf => "leaf".to_owned(),
            BlockType::Stone => "stone".to_owned(),
            BlockType::Plank => "plank".to_owned(),
            BlockType::Coal => "Coal".to_owned(),
            BlockType::Water => "water".to_owned(),
        }
    }
}

impl Default for BlockType {
    fn default() -> (r: BlockType)
        ensures
            r == BlockType::Grass,
    {
        BlockType::Grass
    }
}

impl Voxel {
    /// Display name of a full voxel. Only full voxels have a species to
    /// show: asking for the name of an empty or unsupported voxel is a
    /// caller error.
    pub fn name(&self) -> (r: String)
        requires
            *self is Full,
        ensures
            r@ == block_name(self->Full_0),
    {
        match self {
            Voxel::Full(b) => b.name(),
            Voxel::Empty | Voxel::Semi(_) => unreached(),
        }
    }
}

impl Default for Voxel {
    fn default() -> (r: Voxel)
        ensures
            r == Voxel::Full(BlockType::Grass),
    {
        Voxel::Full(BlockType::Grass)
    }
}

/// The selectable voxel at `index`, wrapping around the species list.
pub fn get_block(index: usize) -> (r: Voxel)
    ensures
        r == Voxel::Full(block_at(index as int % BLOCK_COUNT as int)),
{
    let i = index % BLOCK_COUNT;
    if i == 0 {
        Voxel::Full(BlockType::Grass)
    } else if i == 1 {
        Voxel::Full(BlockType::Dirt)
    } else if i == 2 {
        Voxel::Full(BlockType::Sand)
    } else if i == 3 {
        Voxel::Full(BlockType::Wood)
    } else if i == 4 {
        Voxel::Full(BlockType::Leaf)
    } else if i == 5 {
        Voxel::Full(BlockType::Stone)
    } else if i == 6 {
        Voxel::Full(BlockType::Plank)
    } else if i == 7 {
        Voxel::Full(BlockType::Coal)
    } else {
        Voxel::Full(BlockType::Water)
    }
}

/// Steps the selected species index one forward or one back, wrapping on
/// overflow, and returns the new index with the voxel it selects.
pub fn cycle_block(index: usize, forward: bool) -> (r: (usize, Voxel))
    ensures
        r.0 == (if forward { index.wrapping_add(1) } else { index.wrapping_sub(1) }),
        r.1 == Voxel::Full(block_at(r.0 as int % BLOCK_COUNT as int)),
{
    let next = if forward { index.wrapping_add(1) } else { index.wrapping_sub(1) };
    (next, get_block(next))
}

} // verus!
