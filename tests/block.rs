use voxel_world::block::{cycle_block, get_block, AtlasCell, BlockType, Voxel, BLOCK_COUNT};

#[test]
fn get_block_wraps_around() {
    assert_eq!(get_block(0), Voxel::Full(BlockType::Grass));
    assert_eq!(get_block(3), Voxel::Full(BlockType::Wood));
    assert_eq!(get_block(8), Voxel::Full(BlockType::Water));
    assert_eq!(get_block(9), Voxel::Full(BlockType::Grass));
    assert_eq!(get_block(10), Voxel::Full(BlockType::Dirt));
    assert_eq!(get_block(BLOCK_COUNT * 7 + 5), Voxel::Full(BlockType::Stone));
}

#[test]
fn cycle_block_steps_and_wraps() {
    assert_eq!(cycle_block(0, true), (1, Voxel::Full(BlockType::Dirt)));
    assert_eq!(cycle_block(1, false), (0, Voxel::Full(BlockType::Grass)));
    let (i, v) = cycle_block(0, false);
    assert_eq!(i, usize::MAX);
    assert_eq!(v, get_block(usize::MAX));
    assert_eq!(cycle_block(usize::MAX, true).0, 0);
}

#[test]
fn texture_table() {
    let grass = BlockType::Grass.texture();
    assert_eq!(grass.top, AtlasCell { col: 4, row: 4 });
    assert_eq!(grass.bot, AtlasCell { col: 1, row: 1 });
    assert_eq!(grass.sid, AtlasCell { col: 4, row: 1 });
    let wood = BlockType::Wood.texture();
    assert_eq!(wood.top, AtlasCell { col: 2, row: 7 });
    assert_eq!(wood.sid, AtlasCell { col: 2, row: 4 });
    assert_eq!(BlockType::Coal.texture().top, AtlasCell { col: 13, row: 4 });
    assert_eq!(BlockType::Water.texture().bot, AtlasCell { col: 7, row: 1 });
}

#[test]
fn names_and_defaults() {
    assert_eq!(BlockType::Grass.name(), "grass");
    assert_eq!(BlockType::Coal.name(), "Coal");
    assert_eq!(Voxel::Full(BlockType::Plank).name(), "plank");
    assert_eq!(Voxel::Full(BlockType::Water).name(), "water");
    assert_eq!(BlockType::default(), BlockType::Grass);
    assert_eq!(Voxel::default(), Voxel::Full(BlockType::Grass));
}
