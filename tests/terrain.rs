use voxel_world::block::{BlockType, Voxel};
use voxel_world::chunk::{CHUNK_AREA, CHUNK_SIZE, CHUNK_VOLUME};
use voxel_world::terrain::generate_chunk;

fn column_chunk(height: usize, rare: bool) -> voxel_world::chunk::Chunk {
    generate_chunk(&vec![height; CHUNK_AREA], &vec![rare; CHUNK_VOLUME])
}

#[test]
fn column_layers() {
    let c = column_chunk(5, false);
    assert_eq!(c.voxel(3, 6, 4), Voxel::Empty);
    assert_eq!(c.voxel(3, 5, 4), Voxel::Full(BlockType::Grass));
    assert_eq!(c.voxel(3, 4, 4), Voxel::Full(BlockType::Dirt));
    assert_eq!(c.voxel(3, 3, 4), Voxel::Full(BlockType::Dirt));
    assert_eq!(c.voxel(3, 2, 4), Voxel::Full(BlockType::Stone));
    assert_eq!(c.voxel(3, 0, 4), Voxel::Full(BlockType::Stone));
}

#[test]
fn rare_cells_become_coal() {
    let c = column_chunk(5, true);
    assert_eq!(c.voxel(0, 2, 0), Voxel::Full(BlockType::Coal));
    assert_eq!(c.voxel(0, 3, 0), Voxel::Full(BlockType::Dirt));
    assert_eq!(c.voxel(0, 5, 0), Voxel::Full(BlockType::Grass));
}

#[test]
fn shallow_columns() {
    let c = column_chunk(0, false);
    assert_eq!(c.voxel(0, 0, 0), Voxel::Full(BlockType::Grass));
    assert_eq!(c.voxel(0, 1, 0), Voxel::Empty);
    let c = column_chunk(1, false);
    assert_eq!(c.voxel(0, 1, 0), Voxel::Full(BlockType::Grass));
    assert_eq!(c.voxel(0, 0, 0), Voxel::Full(BlockType::Stone));
    let c = column_chunk(2, false);
    assert_eq!(c.voxel(0, 1, 0), Voxel::Full(BlockType::Dirt));
    assert_eq!(c.voxel(0, 0, 0), Voxel::Full(BlockType::Stone));
}

#[test]
fn tall_columns_are_capped() {
    let c = column_chunk(1000, false);
    assert_eq!(c.voxel(9, CHUNK_SIZE - 1, 9), Voxel::Full(BlockType::Grass));
    assert_eq!(c.voxel(9, CHUNK_SIZE - 2, 9), Voxel::Full(BlockType::Dirt));
    assert_eq!(c.voxel(9, CHUNK_SIZE - 4, 9), Voxel::Full(BlockType::Stone));
}

#[test]
fn heights_are_per_column() {
    let mut heights = vec![0usize; CHUNK_AREA];
    heights[2 + CHUNK_SIZE * 7] = 10;
    let c = generate_chunk(&heights, &vec![false; CHUNK_VOLUME]);
    assert_eq!(c.voxel(2, 10, 7), Voxel::Full(BlockType::Grass));
    assert_eq!(c.voxel(7, 10, 2), Voxel::Empty);
    assert_eq!(c.voxel(7, 0, 2), Voxel::Full(BlockType::Grass));
}
