use voxel_world::block::{BlockType, Voxel};
use voxel_world::chunk::{delinearize, linearize, Chunk, CHUNK_SIZE, CHUNK_VOLUME};
use voxel_world::mesher::{build_mesh, generate_mesh, Quad, VoxelFace, ATLAS_SIZE};

fn chunk_with(cells: &[(usize, usize, usize, BlockType)]) -> Chunk {
    let mut c = Chunk::new();
    for &(x, y, z, b) in cells {
        assert!(c.set_voxel(x, y, z, Voxel::Full(b)));
    }
    c
}

#[test]
fn empty_chunk_has_no_quads() {
    let c = Chunk::new();
    assert!(generate_mesh(&c).is_empty());
    let m = build_mesh(&generate_mesh(&c));
    assert!(m.positions.is_empty() && m.indices.is_empty());
}

#[test]
fn single_voxel_gives_six_quads() {
    for (x, y, z) in [(5, 6, 7), (0, 0, 0), (31, 31, 31), (0, 15, 31)] {
        let c = chunk_with(&[(x, y, z, BlockType::Stone)]);
        let quads = generate_mesh(&c);
        assert_eq!(quads.len(), 6);
        let m = build_mesh(&quads);
        assert_eq!(m.positions.len(), 24);
        assert_eq!(m.normals.len(), 24);
        assert_eq!(m.uvs.len(), 24);
        assert_eq!(m.indices.len(), 36);
        assert_eq!(m.indices.len() / 3, 12);
    }
}

#[test]
fn single_voxel_face_order() {
    let c = chunk_with(&[(5, 6, 7, BlockType::Sand)]);
    let quads = generate_mesh(&c);
    let faces: Vec<VoxelFace> = quads.iter().map(|q| q.face).collect();
    assert_eq!(
        faces,
        vec![VoxelFace::Top, VoxelFace::Bot, VoxelFace::Rig, VoxelFace::Lef, VoxelFace::Fro, VoxelFace::Bac]
    );
    for q in &quads {
        assert_eq!(q.vox_loc, (5, 6, 7));
        assert_eq!(q.block, BlockType::Sand);
    }
}

#[test]
fn adjacent_pair_gives_ten_quads() {
    let pairs = [
        ((3, 3, 3), (4, 3, 3)),
        ((3, 3, 3), (3, 4, 3)),
        ((3, 3, 3), (3, 3, 4)),
        ((31, 0, 0), (31, 1, 0)),
    ];
    for (a, b) in pairs {
        let c = chunk_with(&[(a.0, a.1, a.2, BlockType::Dirt), (b.0, b.1, b.2, BlockType::Wood)]);
        let quads = generate_mesh(&c);
        assert_eq!(quads.len(), 10);
        let m = build_mesh(&quads);
        assert_eq!(m.positions.len(), 40);
        assert_eq!(m.indices.len(), 60);
    }
}

#[test]
fn full_chunk_shows_only_its_outer_faces() {
    let mut c = Chunk::new();
    for z in 0..CHUNK_SIZE {
        for y in 0..CHUNK_SIZE {
            for x in 0..CHUNK_SIZE {
                c.set_voxel(x, y, z, Voxel::Full(BlockType::Stone));
            }
        }
    }
    assert_eq!(generate_mesh(&c).len(), 6 * CHUNK_SIZE * CHUNK_SIZE);
}

#[test]
fn meshing_twice_is_identical() {
    let c = chunk_with(&[(1, 2, 3, BlockType::Grass), (1, 3, 3, BlockType::Leaf), (30, 0, 9, BlockType::Coal)]);
    let a = build_mesh(&generate_mesh(&c));
    let b = build_mesh(&generate_mesh(&c));
    assert_eq!(a.positions, b.positions);
    assert_eq!(a.normals, b.normals);
    assert_eq!(a.uvs, b.uvs);
    assert_eq!(a.indices, b.indices);
}

#[test]
fn quad_geometry_top_face() {
    let q = Quad { vox_loc: (1, 2, 3), face: VoxelFace::Top, block: BlockType::Grass };
    assert_eq!(q.positions(), [(1, 3, 3), (2, 3, 3), (1, 3, 4), (2, 3, 4)]);
    assert_eq!(q.normals(), [(0, 1, 0); 4]);
    assert_eq!(q.indices(4), [4, 6, 5, 5, 6, 7]);
    // grass top is atlas cell (4, 4): texels 64..80, inset by one texel
    assert_eq!(q.texture_uvs(), [(65, 65), (79, 65), (65, 79), (79, 79)]);
}

#[test]
fn quad_geometry_side_faces() {
    let q = Quad { vox_loc: (0, 0, 0), face: VoxelFace::Lef, block: BlockType::Grass };
    assert_eq!(q.positions(), [(0, 0, 0), (0, 1, 0), (0, 0, 1), (0, 1, 1)]);
    assert_eq!(q.normals(), [(-1, 0, 0); 4]);
    // grass side is atlas cell (4, 1)
    assert_eq!(q.texture_uvs(), [(79, 31), (79, 17), (65, 31), (65, 17)]);
    let q = Quad { vox_loc: (7, 8, 9), face: VoxelFace::Bac, block: BlockType::Stone };
    assert_eq!(q.positions(), [(7, 8, 9), (8, 8, 9), (7, 9, 9), (8, 9, 9)]);
    assert_eq!(q.normals(), [(0, 0, -1); 4]);
    let q = Quad { vox_loc: (7, 8, 9), face: VoxelFace::Bot, block: BlockType::Grass };
    assert_eq!(q.texture_uvs()[0], (17, 17));
    assert!(q.texture_uvs().iter().all(|&(u, v)| u < ATLAS_SIZE && v < ATLAS_SIZE));
}

#[test]
fn build_mesh_numbers_vertices_per_quad() {
    let c = chunk_with(&[(0, 0, 0, BlockType::Plank)]);
    let m = build_mesh(&generate_mesh(&c));
    assert_eq!(&m.indices[6..12], &[4, 6, 5, 5, 6, 7]);
    assert_eq!(&m.indices[30..36], &[20, 22, 21, 21, 22, 23]);
    assert_eq!(m.normals[4], (0, -1, 0));
    assert_eq!(m.positions[0], (0, 1, 0));
}

#[test]
fn chunk_neighbour_queries_stay_inside() {
    let c = chunk_with(&[(0, 0, 0, BlockType::Stone), (1, 0, 0, BlockType::Dirt)]);
    assert_eq!(c.get(0, 0, 0, 1, 0, 0), Voxel::Full(BlockType::Dirt));
    assert_eq!(c.get(1, 0, 0, -1, 0, 0), Voxel::Full(BlockType::Stone));
    assert_eq!(c.get(0, 0, 0, -1, 0, 0), Voxel::Empty);
    assert_eq!(c.get(0, 0, 0, 0, -1, 0), Voxel::Empty);
    assert_eq!(c.get(31, 31, 31, 0, 0, 1), Voxel::Empty);
    assert_eq!(c.get(1, 0, 0, 0, 1, 0), Voxel::Empty);
}

#[test]
fn chunk_refuses_unsupported_voxels() {
    let mut c = Chunk::new();
    assert!(!c.set_voxel(2, 2, 2, Voxel::Semi(BlockType::Water)));
    assert_eq!(c.voxel(2, 2, 2), Voxel::Empty);
    assert!(c.set_voxel(2, 2, 2, Voxel::Full(BlockType::Water)));
    assert_eq!(c.voxel(2, 2, 2), Voxel::Full(BlockType::Water));
}

#[test]
fn flat_index_round_trip() {
    assert_eq!(linearize(1, 2, 3), 1 + 32 * 2 + 1024 * 3);
    assert_eq!(delinearize(CHUNK_VOLUME - 1), (31, 31, 31));
    for i in [0, 1, 31, 32, 1023, 1024, 20000] {
        let (x, y, z) = delinearize(i);
        assert_eq!(linearize(x, y, z), i);
    }
}

fn sub(a: (u32, u32, u32), b: (u32, u32, u32)) -> (i64, i64, i64) {
    (a.0 as i64 - b.0 as i64, a.1 as i64 - b.1 as i64, a.2 as i64 - b.2 as i64)
}

#[test]
fn every_triangle_winds_outward() {
    let c = chunk_with(&[(4, 5, 6, BlockType::Grass), (4, 6, 6, BlockType::Stone), (0, 0, 31, BlockType::Wood)]);
    let m = build_mesh(&generate_mesh(&c));
    assert_eq!(m.indices.len() % 3, 0);
    for t in m.indices.chunks_exact(3) {
        let (a, b, c) = (t[0] as usize, t[1] as usize, t[2] as usize);
        let u = sub(m.positions[b], m.positions[a]);
        let v = sub(m.positions[c], m.positions[a]);
        let cross = (u.1 * v.2 - u.2 * v.1, u.2 * v.0 - u.0 * v.2, u.0 * v.1 - u.1 * v.0);
        let n = m.normals[a];
        let dot = cross.0 * n.0 as i64 + cross.1 * n.1 as i64 + cross.2 * n.2 as i64;
        assert!(dot > 0, "triangle {:?} winds inward", t);
    }
}

#[test]
fn reordered_faces_keep_their_texture_orientation() {
    // Corner (0, 0, 1) of a bottom face shows low u, high v, as on a top face.
    let q = Quad { vox_loc: (0, 0, 0), face: VoxelFace::Bot, block: BlockType::Dirt };
    assert_eq!(q.positions()[1], (0, 0, 1));
    assert_eq!(q.texture_uvs(), [(17, 17), (17, 31), (31, 17), (31, 31)]);
    let q = Quad { vox_loc: (0, 0, 0), face: VoxelFace::Rig, block: BlockType::Dirt };
    assert_eq!(q.positions(), [(1, 0, 0), (1, 0, 1), (1, 1, 0), (1, 1, 1)]);
    assert_eq!(q.texture_uvs(), [(31, 31), (17, 31), (31, 17), (17, 17)]);
}
