use voxel_world::block::{BlockType, Voxel};
use voxel_world::chunk::Chunk;
use voxel_world::coords::IVec3;
use voxel_world::world::{BlockBreakEvent, BlockPlaceEvent, EditError, WorldChunks};

fn empty_chunk(_p: IVec3) -> Chunk {
    Chunk::new()
}

fn sorted(mut v: Vec<IVec3>) -> Vec<(i32, i32, i32)> {
    let mut out: Vec<(i32, i32, i32)> = v.drain(..).map(|k| (k.x, k.y, k.z)).collect();
    out.sort();
    out
}

fn square(cx: i32, cz: i32, r: i32) -> Vec<(i32, i32, i32)> {
    let mut out = Vec::new();
    for x in cx - r..=cx + r {
        for z in cz - r..=cz + r {
            out.push((x, 0, z));
        }
    }
    out.sort();
    out
}

fn loaded_set(w: &WorldChunks, cx: i32, cz: i32, r: i32) -> Vec<(i32, i32, i32)> {
    let mut out = Vec::new();
    for x in cx - r - 3..=cx + r + 3 {
        for z in cz - r - 3..=cz + r + 3 {
            for y in -1..=1 {
                if w.contains(IVec3::new(x, y, z)) {
                    out.push((x, y, z));
                }
            }
        }
    }
    out.sort();
    out
}

#[test]
fn startup_loads_square_around_origin() {
    let (w, loaded) = WorldChunks::startup_load(1, &empty_chunk);
    assert_eq!(w.len(), 9);
    assert_eq!(sorted(loaded), square(0, 0, 1));
    assert_eq!(loaded_set(&w, 0, 0, 1), square(0, 0, 1));
}

#[test]
fn startup_with_zero_distance_loads_one_chunk() {
    let (w, loaded) = WorldChunks::startup_load(0, &empty_chunk);
    assert_eq!(w.len(), 1);
    assert_eq!(sorted(loaded), vec![(0, 0, 0)]);
}

#[test]
fn streaming_tick_matches_square() {
    let (mut w, _) = WorldChunks::startup_load(1, &empty_chunk);
    let d = w.stream_tick(IVec3::new(2, 0, -1), 1, &empty_chunk);
    assert_eq!(loaded_set(&w, 2, -1, 1), square(2, -1, 1));
    assert_eq!(w.len(), 9);
    // x in 1..=3, z in -2..=0 against x in -1..=1, z in -1..=1: overlap x 1, z -1..=0
    assert_eq!(sorted(d.loaded.clone()).len(), 7);
    assert_eq!(sorted(d.unloaded.clone()).len(), 7);
    assert!(d.unloaded.contains(&IVec3::new(-1, 0, 0)));
    assert!(d.loaded.contains(&IVec3::new(3, 0, -2)));
    assert!(!d.loaded.contains(&IVec3::new(1, 0, 0)));
}

#[test]
fn streaming_keeps_existing_chunks_untouched() {
    let (mut w, _) = WorldChunks::startup_load(1, &empty_chunk);
    assert_eq!(w.place_block(IVec3::new(40, 3, 5), Voxel::Full(BlockType::Sand)), Ok(true));
    let d = w.stream_tick(IVec3::new(1, 0, 0), 1, &empty_chunk);
    let c = w.chunk(IVec3::new(1, 0, 0)).unwrap();
    assert_eq!(c.voxel(8, 3, 5), Voxel::Full(BlockType::Sand));
    assert_eq!(sorted(d.loaded), vec![(2, 0, -1), (2, 0, 0), (2, 0, 1)]);
    assert_eq!(sorted(d.unloaded), vec![(-1, 0, -1), (-1, 0, 0), (-1, 0, 1)]);
}

#[test]
fn streaming_far_jump_replaces_everything() {
    let (mut w, _) = WorldChunks::startup_load(2, &empty_chunk);
    let d = w.stream_tick(IVec3::new(-100, 5, 100), 2, &empty_chunk);
    assert_eq!(d.loaded.len(), 25);
    assert_eq!(d.unloaded.len(), 25);
    assert_eq!(loaded_set(&w, -100, 100, 2), square(-100, 100, 2));
    assert!(!w.contains(IVec3::new(0, 0, 0)));
}

#[test]
fn break_on_empty_voxel_is_noop() {
    let (mut w, _) = WorldChunks::startup_load(0, &empty_chunk);
    assert_eq!(w.break_block(IVec3::new(3, 3, 3)), Ok(false));
    let report = w.apply_edits(&vec![BlockBreakEvent { position: IVec3::new(3, 3, 3) }], &vec![]);
    assert!(report.dirty.is_empty());
    assert!(report.failures.is_empty());
    assert!(w.remesh(&report.dirty).is_empty());
    assert_eq!(w.chunk(IVec3::new(0, 0, 0)).unwrap().voxel(3, 3, 3), Voxel::Empty);
}

#[test]
fn place_on_solid_voxel_keeps_species() {
    let (mut w, _) = WorldChunks::startup_load(0, &empty_chunk);
    let p = IVec3::new(4, 4, 4);
    assert_eq!(w.place_block(p, Voxel::Full(BlockType::Wood)), Ok(true));
    assert_eq!(w.place_block(p, Voxel::Full(BlockType::Stone)), Ok(false));
    let report = w.apply_edits(&vec![], &vec![BlockPlaceEvent { position: p, species: Voxel::Full(BlockType::Coal) }]);
    assert!(report.dirty.is_empty());
    assert_eq!(w.chunk(IVec3::new(0, 0, 0)).unwrap().voxel(4, 4, 4), Voxel::Full(BlockType::Wood));
}

#[test]
fn break_then_place_in_one_batch() {
    let (mut w, _) = WorldChunks::startup_load(0, &empty_chunk);
    let p = IVec3::new(1, 1, 1);
    assert_eq!(w.place_block(p, Voxel::Full(BlockType::Leaf)), Ok(true));
    let report = w.apply_edits(
        &vec![BlockBreakEvent { position: p }],
        &vec![BlockPlaceEvent { position: p, species: Voxel::Full(BlockType::Plank) }],
    );
    assert_eq!(report.dirty, vec![IVec3::new(0, 0, 0)]);
    assert_eq!(w.chunk(IVec3::new(0, 0, 0)).unwrap().voxel(1, 1, 1), Voxel::Full(BlockType::Plank));
}

#[test]
fn edits_in_one_chunk_mark_it_dirty_once() {
    let (mut w, _) = WorldChunks::startup_load(1, &empty_chunk);
    let places: Vec<BlockPlaceEvent> = (0..5)
        .map(|i| BlockPlaceEvent { position: IVec3::new(i, 0, 0), species: Voxel::Full(BlockType::Dirt) })
        .chain([BlockPlaceEvent { position: IVec3::new(-1, 0, 0), species: Voxel::Full(BlockType::Dirt) }])
        .collect();
    let report = w.apply_edits(&vec![], &places);
    assert_eq!(report.dirty, vec![IVec3::new(0, 0, 0), IVec3::new(-1, 0, 0)]);
    let meshes = w.remesh(&report.dirty);
    assert_eq!(meshes.len(), 2);
    assert_eq!(meshes[0].0, IVec3::new(0, 0, 0));
    // five voxels in a row along x: 5 * 6 - 2 * 4 hidden faces
    assert_eq!(meshes[0].1.positions.len(), 4 * 22);
    assert_eq!(meshes[1].1.indices.len(), 36);
}

#[test]
fn edits_in_unloaded_chunks_are_reported_and_skipped() {
    let (mut w, _) = WorldChunks::startup_load(0, &empty_chunk);
    let report = w.apply_edits(
        &vec![BlockBreakEvent { position: IVec3::new(100, 0, 0) }],
        &vec![
            BlockPlaceEvent { position: IVec3::new(0, 40, 0), species: Voxel::Full(BlockType::Dirt) },
            BlockPlaceEvent { position: IVec3::new(2, 2, 2), species: Voxel::Semi(BlockType::Dirt) },
            BlockPlaceEvent { position: IVec3::new(2, 2, 2), species: Voxel::Full(BlockType::Dirt) },
        ],
    );
    assert_eq!(
        report.failures,
        vec![
            EditError::ChunkNotLoaded(IVec3::new(3, 0, 0)),
            EditError::ChunkNotLoaded(IVec3::new(0, 1, 0)),
            EditError::Unsupported(IVec3::new(2, 2, 2)),
        ]
    );
    assert_eq!(report.dirty, vec![IVec3::new(0, 0, 0)]);
    assert_eq!(w.chunk(IVec3::new(0, 0, 0)).unwrap().voxel(2, 2, 2), Voxel::Full(BlockType::Dirt));
}

#[test]
fn negative_positions_edit_the_right_chunk() {
    let (mut w, _) = WorldChunks::startup_load(1, &empty_chunk);
    assert_eq!(w.place_block(IVec3::new(-1, 0, -32), Voxel::Full(BlockType::Stone)), Ok(true));
    let c = w.chunk(IVec3::new(-1, 0, -1)).unwrap();
    assert_eq!(c.voxel(31, 0, 0), Voxel::Full(BlockType::Stone));
    assert_eq!(w.break_block(IVec3::new(-1, 0, -33)), Err(EditError::ChunkNotLoaded(IVec3::new(-1, 0, -2))));
    assert_eq!(w.break_block(IVec3::new(-1, 0, -1)), Ok(false));
}

#[test]
fn mesh_chunk_only_for_loaded() {
    let (w, _) = WorldChunks::startup_load(0, &empty_chunk);
    assert!(w.mesh_chunk(IVec3::new(0, 0, 0)).is_some());
    assert!(w.mesh_chunk(IVec3::new(1, 0, 0)).is_none());
    assert!(w.remesh(&vec![IVec3::new(1, 0, 0)]).is_empty());
}

#[test]
fn streaming_at_the_edge_of_the_coordinate_range() {
    let mut w = WorldChunks::new();
    let d = w.stream_tick(IVec3::new(i32::MAX, 0, 0), 1, &empty_chunk);
    assert_eq!(w.len(), 6);
    assert_eq!(d.loaded.len(), 6);
    for z in -1..=1 {
        assert!(w.contains(IVec3::new(i32::MAX, 0, z)));
        assert!(w.contains(IVec3::new(i32::MAX - 1, 0, z)));
    }
    let d = w.stream_tick(IVec3::new(i32::MIN, 0, i32::MIN), 2, &empty_chunk);
    assert_eq!(w.len(), 9);
    assert_eq!(d.unloaded.len(), 6);
    assert!(w.contains(IVec3::new(i32::MIN + 2, 0, i32::MIN + 2)));
}
