//! Face-culling mesher: one quad per voxel face that borders a cell that is
//! not full, and the triangle geometry of those quads.
//!
//! Geometry is integer-valued: positions are in voxel units, normals are unit
//! axis vectors and texture coordinates are in texels of the atlas. A renderer
//! scales positions by the voxel size and divides texel coordinates by
//! `ATLAS_SIZE`.
use vstd::prelude::*;

use crate::block::{texture_of, AtlasCell, BlockTexture, BlockType, Voxel};
use crate::chunk::{
    delinearize, in_chunk, lx, ly, lz, voxel_at, Chunk, CHUNK_SIZE, CHUNK_VOLUME,
};

verus! {

/// Edge length of one atlas cell, in texels.
pub const TEXTURE_SIZE: u32 = 16;

/// Edge length of the whole atlas, in texels.
pub const ATLAS_SIZE: u32 = 256;

/// Inward inset of a quad's texture coordinates from its cell's edges, in
/// texels, so that filtering never samples a neighbouring cell.
pub const TEXEL_INSET: u32 = 1;

/// The six axis-aligned face directions of a voxel.
#[derive(Debug, Clone, Copy, PartialEq, Eq, Structural)]
pub enum VoxelFace {
    Top,
    Bot,
    Rig,
    Lef,
    Fro,
    Bac,
}

/// Unit offset towards the neighbour behind a face.
pub open spec fn face_dir(f: VoxelFace) -> (int, int, int) {
    match f {
        VoxelFace::Top => (0, 1, 0),
        VoxelFace::Bot => (0, -1, 0),
        VoxelFace::Rig => (1, 0, 0),
        VoxelFace::Lef => (-1, 0, 0),
        VoxelFace::Fro => (0, 0, 1),
        VoxelFace::Bac => (0, 0, -1),
    }
}

/// Corner `k` (of four) of a face of the unit cube, listed so that the
/// triangles `[0, 2, 1]` and `[1, 2, 3]` wind counter-clockwise seen from
/// outside the face.
pub open spec fn face_corner(f: VoxelFace, k: int) -> (int, int, int) {
    match f {
        VoxelFace::Top => if k == 0 { (0, 1, 0) } else if k == 1 { (1, 1, 0) } else if k == 2 { (0, 1, 1) } else { (1, 1, 1) },
        VoxelFace::Bot => if k == 0 { (0, 0, 0) } else if k == 1 { (0, 0, 1) } else if k == 2 { (1, 0, 0) } else { (1, 0, 1) },
        VoxelFace::Rig => if k == 0 { (1, 0, 0) } else if k == 1 { (1, 0, 1) } else if k == 2 { (1, 1, 0) } else { (1, 1, 1) },
        VoxelFace::Lef => if k == 0 { (0, 0, 0) } else if k == 1 { (0, 1, 0) } else if k == 2 { (0, 0, 1) } else { (0, 1, 1) },
        VoxelFace::Fro => if k == 0 { (0, 0, 1) } else if k == 1 { (0, 1, 1) } else if k == 2 { (1, 0, 1) } else { (1, 1, 1) },
        VoxelFace::Bac => if k == 0 { (0, 0, 0) } else if k == 1 { (1, 0, 0) } else if k == 2 { (0, 1, 0) } else { (1, 1, 0) },
    }
}

/// Texel offset of corner `k` inside its atlas cell. Top and bottom faces
/// share one orientation, the four side faces another. Faces whose corners
/// 1 and 2 are listed the other way round (to keep the winding outward)
/// swap those two texels too, so that no texture is mirrored.
pub open spec fn corner_texel(f: VoxelFace, k: int) -> (int, int) {
    let lo = TEXEL_INSET as int;
    let hi = TEXTURE_SIZE as int - TEXEL_INSET as int;
    match f {
        VoxelFace::Top => if k == 0 { (lo, lo) } else if k == 1 { (hi, lo) } else if k == 2 { (lo, hi) } else { (hi, hi) },
        VoxelFace::Bot => if k == 0 { (lo, lo) } else if k == 1 { (lo, hi) } else if k == 2 { (hi, lo) } else { (hi, hi) },
        VoxelFace::Lef | VoxelFace::Fro => if k == 0 { (hi, hi) } else if k == 1 { (hi, lo) } else if k == 2 { (lo, hi) } else { (lo, lo) },
        VoxelFace::Rig | VoxelFace::Bac => if k == 0 { (hi, hi) } else if k == 1 { (lo, hi) } else if k == 2 { (hi, lo) } else { (lo, lo) },
    }
}

/// The atlas cell that a face of a species shows.
pub open spec fn face_cell(t: BlockTexture, f: VoxelFace) -> AtlasCell {
    match f {
        VoxelFace::Top => t.top,
        VoxelFace::Bot => t.bot,
        _ => t.sid,
    }
}

impl VoxelFace {
    /// Outward unit normal of this face.
    pub fn normal(&self) -> (r: (i32, i32, i32))
        ensures
            r.0 == face_dir(*self).0 && r.1 == face_dir(*self).1 && r.2 == face_dir(*self).2,
    {
        match self {
            VoxelFace::Top => (0, 1, 0),
            VoxelFace::Bot => (0, -1, 0),
            VoxelFace::Rig => (1, 0, 0),
            VoxelFace::Lef => (-1, 0, 0),
            VoxelFace::Fro => (0, 0, 1),
            VoxelFace::Bac => (0, 0, -1),
        }
    }
}

/// One exposed face of one voxel.
#[derive(Debug, Clone, Copy)]
pub struct Quad {
    pub vox_loc: (usize, usize, usize),
    pub face: VoxelFace,
    pub block: BlockType,
}

pub open spec fn spec_normal(f: VoxelFace) -> (i32, i32, i32) {
    (face_dir(f).0 as i32, face_dir(f).1 as i32, face_dir(f).2 as i32)
}

pub open spec fn corner_position(q: Quad, k: int) -> (u32, u32, u32) {
    (
        (q.vox_loc.0 + face_corner(q.face, k).0) as u32,
        (q.vox_loc.1 + face_corner(q.face, k).1) as u32,
        (q.vox_loc.2 + face_corner(q.face, k).2) as u32,
    )
}

pub open spec fn corner_uv(q: Quad, k: int) -> (u32, u32) {
    let c = face_cell(texture_of(q.block), q.face);
    (
        (c.col * TEXTURE_SIZE + corner_texel(q.face, k).0) as u32,
        (c.row * TEXTURE_SIZE + corner_texel(q.face, k).1) as u32,
    )
}

/// The six indices of a quad whose first vertex is `start`: two triangles,
/// corners `[0, 2, 1]` and `[1, 2, 3]`.
pub open spec fn quad_indices(start: int) -> Seq<u32> {
    seq![start as u32, (start + 2) as u32, (start + 1) as u32, (start + 1) as u32, (start + 2) as u32, (start + 3) as u32]
}

impl Quad {
    /// The voxel lies inside a chunk.
    pub open spec fn wf(&self) -> bool {
        in_chunk(self.vox_loc.0 as int, self.vox_loc.1 as int, self.vox_loc.2 as int)
    }

    /// Index list of this quad's two triangles, numbering its corners from
    /// `start`.
    pub fn indices(&self, start: u32) -> (r: [u32; 6])
        requires
            start + 3 <= u32::MAX,
        ensures
            r@ == quad_indices(start as int),
    {
        let r = [start, start + 2, start + 1, start + 1, start + 2, start + 3];
        assert(r@ =~= quad_indices(start as int));
        r
    }

    /// The four corners of this face, in voxel units.
    pub fn positions(&self) -> (r: [(u32, u32, u32); 4])
        requires
            self.wf(),
        ensures
            forall|k: int| 0 <= k < 4 ==> #[trigger] r@[k] == corner_position(*self, k),
    {
        let x = self.vox_loc.0 as u32;
        let y = self.vox_loc.1 as u32;
        let z = self.vox_loc.2 as u32;
        match self.face {
            VoxelFace::Top => [(x, y + 1, z), (x + 1, y + 1, z), (x, y + 1, z + 1), (x + 1, y + 1, z + 1)],
            VoxelFace::Bot => [(x, y, z), (x, y, z + 1), (x + 1, y, z), (x + 1, y, z + 1)],
            VoxelFace::Rig => [(x + 1, y, z), (x + 1, y, z + 1), (x + 1, y + 1, z), (x + 1, y + 1, z + 1)],
            VoxelFace::Lef => [(x, y, z), (x, y + 1, z), (x, y, z + 1), (x, y + 1, z + 1)],
            VoxelFace::Fro => [(x, y, z + 1), (x, y + 1, z + 1), (x + 1, y, z + 1), (x + 1, y + 1, z + 1)],
            VoxelFace::Bac => [(x, y, z), (x + 1, y, z), (x, y + 1, z), (x + 1, y + 1, z)],
        }
    }

    /// The normal of this face, once per corner.
    pub fn normals(&self) -> (r: [(i32, i32, i32); 4])
        ensures
            forall|k: int| 0 <= k < 4 ==> #[trigger] r@[k] == spec_normal(self.face),
    {
        let n = self.face.normal();
        [n, n, n, n]
    }

    /// Atlas texel coordinates of the four corners.
    pub fn texture_uvs(&self) -> (r: [(u32, u32); 4])
        ensures
            forall|k: int| 0 <= k < 4 ==> #[trigger] r@[k] == corner_uv(*self, k),
    {
        let t = self.block.texture();
        let c = match self.face {
            VoxelFace::Top => t.top,
            VoxelFace::Bot => t.bot,
            _ => t.sid,
        };
        let u0 = c.col * TEXTURE_SIZE;
        let v0 = c.row * TEXTURE_SIZE;
        let lo = TEXEL_INSET;
        let hi = TEXTURE_SIZE - TEXEL_INSET;
        match self.face {
            VoxelFace::Top => [(u0 + lo, v0 + lo), (u0 + hi, v0 + lo), (u0 + lo, v0 + hi), (u0 + hi, v0 + hi)],
            VoxelFace::Bot => [(u0 + lo, v0 + lo), (u0 + lo, v0 + hi), (u0 + hi, v0 + lo), (u0 + hi, v0 + hi)],
            VoxelFace::Lef | VoxelFace::Fro => [(u0 + hi, v0 + hi), (u0 + hi, v0 + lo), (u0 + lo, v0 + hi), (u0 + lo, v0 + lo)],
            VoxelFace::Rig | VoxelFace::Bac => [(u0 + hi, v0 + hi), (u0 + lo, v0 + hi), (u0 + hi, v0 + lo), (u0 + lo, v0 + lo)],
        }
    }
}

/// A face of the voxel at `(x, y, z)` is exposed when the cell behind it is
/// not full; cells outside the chunk count as empty.
pub open spec fn exposed(s: Seq<Voxel>, x: int, y: int, z: int, f: VoxelFace) -> bool {
    !(voxel_at(s, x + face_dir(f).0, y + face_dir(f).1, z + face_dir(f).2) is Full)
}

/// The quad of face `f` of the voxel at flat index `i`, if that face is exposed.
pub open spec fn face_quads(s: Seq<Voxel>, i: int, f: VoxelFace, b: BlockType) -> Seq<Quad> {
    if exposed(s, lx(i), ly(i), lz(i), f) {
        seq![Quad { vox_loc: (lx(i) as usize, ly(i) as usize, lz(i) as usize), face: f, block: b }]
    } else {
        seq![]
    }
}

/// The quads of the voxel at flat index `i`, faces in the order
/// top, bottom, right, left, front, back.
pub open spec fn voxel_quads(s: Seq<Voxel>, i: int) -> Seq<Quad> {
    match s[i] {
        Voxel::Full(b) => face_quads(s, i, VoxelFace::Top, b) + face_quads(s, i, VoxelFace::Bot, b)
            + face_quads(s, i, VoxelFace::Rig, b) + face_quads(s, i, VoxelFace::Lef, b)
            + face_quads(s, i, VoxelFace::Fro, b) + face_quads(s, i, VoxelFace::Bac, b),
        _ => seq![],
    }
}

/// The quads of the first `n` voxels in flat-index order.
pub open spec fn quads_upto(s: Seq<Voxel>, n: nat) -> Seq<Quad>
    decreases n,
{
    if n == 0 {
        seq![]
    } else {
        quads_upto(s, (n - 1) as nat) + voxel_quads(s, n - 1)
    }
}

/// Every exposed face of a chunk, voxel by voxel in flat-index order
/// (z outermost, x innermost).
pub open spec fn quads_of(s: Seq<Voxel>) -> Seq<Quad> {
    quads_upto(s, CHUNK_VOLUME as nat)
}

/// Most quads a chunk can produce: six per voxel.
pub const MAX_QUADS: usize = 6 * CHUNK_VOLUME;

proof fn lemma_voxel_quads_bounded(s: Seq<Voxel>, i: int)
    requires
        0 <= i < s.len(),
        s.len() <= CHUNK_VOLUME,
    ensures
        voxel_quads(s, i).len() <= 6,
        forall|j: int| 0 <= j < voxel_quads(s, i).len() ==> (#[trigger] voxel_quads(s, i)[j]).wf(),
{
    assert(0 <= lx(i) < CHUNK_SIZE && 0 <= ly(i) < CHUNK_SIZE && 0 <= lz(i) < CHUNK_SIZE);
}

proof fn lemma_quads_upto_bounded(s: Seq<Voxel>, n: nat)
    requires
        n <= s.len(),
        s.len() <= CHUNK_VOLUME,
    ensures
        quads_upto(s, n).len() <= 6 * n,
        forall|j: int| 0 <= j < quads_upto(s, n).len() ==> (#[trigger] quads_upto(s, n)[j]).wf(),
    decreases n,
{
    if n > 0 {
        lemma_quads_upto_bounded(s, (n - 1) as nat);
        lemma_voxel_quads_bounded(s, n - 1);
        let a = quads_upto(s, (n - 1) as nat);
        let b = voxel_quads(s, n - 1);
        assert forall|j: int| 0 <= j < quads_upto(s, n).len() implies (#[trigger] quads_upto(s, n)[j]).wf() by {
            if j < a.len() {
                assert(quads_upto(s, n)[j] == a[j]);
            } else {
                assert(quads_upto(s, n)[j] == b[j - a.len()]);
            }
        }
    }
}

/// Appends the quad of one face of the full voxel `(x, y, z)` if it is exposed.
fn push_face(
    out: &mut Vec<Quad>,
    chunk: &Chunk,
    i: Ghost<int>,
    x: usize,
    y: usize,
    z: usize,
    f: VoxelFace,
    b: BlockType,
)
    requires
        chunk.wf(),
        in_chunk(x as int, y as int, z as int),
        x == lx(i@) && y == ly(i@) && z == lz(i@),
    ensures
        final(out)@ == old(out)@ + face_quads(chunk@, i@, f, b),
{
    let (dx, dy, dz): (isize, isize, isize) = match f {
        VoxelFace::Top => (0, 1, 0),
        VoxelFace::Bot => (0, -1, 0),
        VoxelFace::Rig => (1, 0, 0),
        VoxelFace::Lef => (-1, 0, 0),
        VoxelFace::Fro => (0, 0, 1),
        VoxelFace::Bac => (0, 0, -1),
    };
    let neighbor = chunk.get(x, y, z, dx, dy, dz);
    if let Voxel::Full(_) = neighbor {
        assert(face_quads(chunk@, i@, f, b) =~= seq![]);
    } else {
        out.push(Quad { vox_loc: (x, y, z), face: f, block: b });
        assert(final(out)@ =~= old(out)@ + face_quads(chunk@, i@, f, b));
    }
}

/// Appends the quads of the exposed faces of the full voxel `(x, y, z)`.
fn push_voxel_quads(
    out: &mut Vec<Quad>,
    chunk: &Chunk,
    i: Ghost<int>,
    x: usize,
    y: usize,
    z: usize,
    b: BlockType,
)
    requires
        chunk.wf(),
        in_chunk(x as int, y as int, z as int),
        x == lx(i@) && y == ly(i@) && z == lz(i@),
        0 <= i@ < chunk@.len(),
        chunk@[i@] == Voxel::Full(b),
    ensures
        final(out)@ == old(out)@ + voxel_quads(chunk@, i@),
{
    let ghost before = out@;
    push_face(out, chunk, i, x, y, z, VoxelFace::Top, b);
    push_face(out, chunk, i, x, y, z, VoxelFace::Bot, b);
    push_face(out, chunk, i, x, y, z, VoxelFace::Rig, b);
    push_face(out, chunk, i, x, y, z, VoxelFace::Lef, b);
    push_face(out, chunk, i, x, y, z, VoxelFace::Fro, b);
    push_face(out, chunk, i, x, y, z, VoxelFace::Bac, b);
    assert(out@ =~= before + voxel_quads(chunk@, i@));
}

/// Every exposed face of the chunk as one quad, voxel by voxel with z
/// outermost and x innermost, faces of a voxel in the order top, bottom,
/// right, left, front, back.
pub fn generate_mesh(chunk: &Chunk) -> (r: Vec<Quad>)
    requires
        chunk.wf(),
    ensures
        r@ == quads_of(chunk@),
        r.len() <= MAX_QUADS,
        forall|j: int| 0 <= j < r.len() ==> (#[trigger] r@[j]).wf(),
{
    let mut output: Vec<Quad> = Vec::new();
    let mut i: usize = 0;
    while i < CHUNK_VOLUME
        invariant
            chunk.wf(),
            i <= CHUNK_VOLUME,
            output@ == quads_upto(chunk@, i as nat),
        decreases CHUNK_VOLUME - i,
    {
        let (x, y, z) = delinearize(i);
        let current = chunk.voxel(x, y, z);
        let ghost before = output@;
        assert(quads_upto(chunk@, (i + 1) as nat) == before + voxel_quads(chunk@, i as int));
        if let Voxel::Full(b) = current {
            push_voxel_quads(&mut output, chunk, Ghost(i as int), x, y, z, b);
        } else {
            assert(voxel_quads(chunk@, i as int) =~= seq![]);
            assert(output@ =~= before + voxel_quads(chunk@, i as int));
        }
        i = i + 1;
    }
    proof {
        lemma_quads_upto_bounded(chunk@, CHUNK_VOLUME as nat);
    }
    output
}

/// Triangle-list geometry: four vertices and six indices per quad.
pub struct MeshData {
    /// Vertex positions, in voxel units relative to the chunk's origin.
    pub positions: Vec<(u32, u32, u32)>,
    /// Outward unit normal of each vertex.
    pub normals: Vec<(i32, i32, i32)>,
    /// Atlas texel coordinates of each vertex.
    pub uvs: Vec<(u32, u32)>,
    /// Vertex indices, three per triangle.
    pub indices: Vec<u32>,
}

pub open spec fn quad_positions(q: Quad) -> Seq<(u32, u32, u32)> {
    Seq::new(4, |k: int| corner_position(q, k))
}

pub open spec fn quad_normals(q: Quad) -> Seq<(i32, i32, i32)> {
    Seq::new(4, |k: int| spec_normal(q.face))
}

pub open spec fn quad_uvs(q: Quad) -> Seq<(u32, u32)> {
    Seq::new(4, |k: int| corner_uv(q, k))
}

pub open spec fn mesh_positions(qs: Seq<Quad>) -> Seq<(u32, u32, u32)>
    decreases qs.len(),
{
    if qs.len() == 0 {
        seq![]
    } else {
        mesh_positions(qs.drop_last()) + quad_positions(qs.last())
    }
}

pub open spec fn mesh_normals(qs: Seq<Quad>) -> Seq<(i32, i32, i32)>
    decreases qs.len(),
{
    if qs.len() == 0 {
        seq![]
    } else {
        mesh_normals(qs.drop_last()) + quad_normals(qs.last())
    }
}

pub open spec fn mesh_uvs(qs: Seq<Quad>) -> Seq<(u32, u32)>
    decreases qs.len(),
{
    if qs.len() == 0 {
        seq![]
    } else {
        mesh_uvs(qs.drop_last()) + quad_uvs(qs.last())
    }
}

/// Quad `j` owns vertices `4j .. 4j + 4`.
pub open spec fn mesh_indices(qs: Seq<Quad>) -> Seq<u32>
    decreases qs.len(),
{
    if qs.len() == 0 {
        seq![]
    } else {
        mesh_indices(qs.drop_last()) + quad_indices(4 * (qs.len() - 1))
    }
}

/// `m` is the geometry of the quads `qs`, in order.
pub open spec fn is_mesh_of(m: &MeshData, qs: Seq<Quad>) -> bool {
    &&& m.positions@ == mesh_positions(qs)
    &&& m.normals@ == mesh_normals(qs)
    &&& m.uvs@ == mesh_uvs(qs)
    &&& m.indices@ == mesh_indices(qs)
}

/// Each list of a mesh grows by a fixed amount per quad.
pub proof fn lemma_mesh_lengths(qs: Seq<Quad>)
    ensures
        mesh_positions(qs).len() == 4 * qs.len(),
        mesh_normals(qs).len() == 4 * qs.len(),
        mesh_uvs(qs).len() == 4 * qs.len(),
        mesh_indices(qs).len() == 6 * qs.len(),
    decreases qs.len(),
{
    if qs.len() > 0 {
        lemma_mesh_lengths(qs.drop_last());
    }
}

/// Geometry of the quads, in order: for quad `j`, the four corners of its
/// face, its normal four times, the atlas texels of its corners, and the
/// indices of its two triangles numbered from `4j`.
pub fn build_mesh(quads: &Vec<Quad>) -> (m: MeshData)
    requires
        4 * quads.len() <= u32::MAX,
        forall|j: int| 0 <= j < quads.len() ==> (#[trigger] quads@[j]).wf(),
    ensures
        is_mesh_of(&m, quads@),
{
    let mut positions: Vec<(u32, u32, u32)> = Vec::new();
    let mut normals: Vec<(i32, i32, i32)> = Vec::new();
    let mut uvs: Vec<(u32, u32)> = Vec::new();
    let mut indices: Vec<u32> = Vec::new();
    let mut j: usize = 0;
    while j < quads.len()
        invariant
            j <= quads.len(),
            4 * quads.len() <= u32::MAX,
            forall|k: int| 0 <= k < quads.len() ==> (#[trigger] quads@[k]).wf(),
            positions@ == mesh_positions(quads@.take(j as int)),
            normals@ == mesh_normals(quads@.take(j as int)),
            uvs@ == mesh_uvs(quads@.take(j as int)),
            indices@ == mesh_indices(quads@.take(j as int)),
            positions.len() == 4 * j,
        decreases quads.len() - j,
    {
        let q = &quads[j];
        proof {
            lemma_mesh_lengths(quads@.take(j as int));
            assert(quads@.take(j + 1).drop_last() =~= quads@.take(j as int));
            assert(quads@.take(j + 1).last() == quads@[j as int]);
        }
        let start = positions.len() as u32;
        let ind = q.indices(start);
        let pos = q.positions();
        let nor = q.normals();
        let tex = q.texture_uvs();
        let ghost p0 = positions@;
        let ghost n0 = normals@;
        let ghost u0 = uvs@;
        let ghost i0 = indices@;
        positions.push(pos[0]);
        positions.push(pos[1]);
        positions.push(pos[2]);
        positions.push(pos[3]);
        normals.push(nor[0]);
        normals.push(nor[1]);
        normals.push(nor[2]);
        normals.push(nor[3]);
        uvs.push(tex[0]);
        uvs.push(tex[1]);
        uvs.push(tex[2]);
        uvs.push(tex[3]);
        indices.push(ind[0]);
        indices.push(ind[1]);
        indices.push(ind[2]);
        indices.push(ind[3]);
        indices.push(ind[4]);
        indices.push(ind[5]);
        assert(positions@ =~= p0 + quad_positions(*q));
        assert(normals@ =~= n0 + quad_normals(*q));
        assert(uvs@ =~= u0 + quad_uvs(*q));
        assert(indices@ =~= i0 + quad_indices(4 * j));
        j = j + 1;
    }
    assert(quads@.take(j as int) =~= quads@);
    MeshData { positions, normals, uvs, indices }
}

} // verus!
