//! Facts about the mesher's output that hold for whole families of chunks.
use vstd::prelude::*;

use crate::block::Voxel;
use crate::chunk::{chunk_wf, in_chunk, lin, lx, ly, lz, CHUNK_VOLUME};
use crate::mesher::{
    corner_position, exposed, face_dir, is_mesh_of, lemma_mesh_lengths, mesh_indices, mesh_normals,
    mesh_positions, mesh_uvs, quad_indices, quads_of, quads_upto, spec_normal, voxel_quads,
    MeshData, Quad, VoxelFace,
};

verus! {

/// Number of exposed faces of the voxel at flat index `i`.
pub open spec fn exposed_count(s: Seq<Voxel>, i: int) -> int {
    let (x, y, z) = (lx(i), ly(i), lz(i));
    (if exposed(s, x, y, z, VoxelFace::Top) { 1int } else { 0 })
        + (if exposed(s, x, y, z, VoxelFace::Bot) { 1int } else { 0 })
        + (if exposed(s, x, y, z, VoxelFace::Rig) { 1int } else { 0 })
        + (if exposed(s, x, y, z, VoxelFace::Lef) { 1int } else { 0 })
        + (if exposed(s, x, y, z, VoxelFace::Fro) { 1int } else { 0 })
        + (if exposed(s, x, y, z, VoxelFace::Bac) { 1int } else { 0 })
}

proof fn lemma_index_coords(i: int)
    requires
        0 <= i < CHUNK_VOLUME,
    ensures
        in_chunk(lx(i), ly(i), lz(i)),
        lin(lx(i), ly(i), lz(i)) == i,
{
}

proof fn lemma_voxel_quads_len(s: Seq<Voxel>, i: int)
    requires
        chunk_wf(s),
        0 <= i < CHUNK_VOLUME,
    ensures
        voxel_quads(s, i).len() == if s[i] is Full { exposed_count(s, i) } else { 0 },
{
}

/// A face whose neighbour cell is empty, or outside the chunk, is exposed.
proof fn lemma_open_neighbor_exposed(s: Seq<Voxel>, i: int, f: VoxelFace)
    requires
        chunk_wf(s),
        0 <= i < CHUNK_VOLUME,
        in_chunk(lx(i) + face_dir(f).0, ly(i) + face_dir(f).1, lz(i) + face_dir(f).2)
            ==> s[lin(lx(i) + face_dir(f).0, ly(i) + face_dir(f).1, lz(i) + face_dir(f).2)] is Empty,
    ensures
        exposed(s, lx(i), ly(i), lz(i), f),
{
}

proof fn lemma_single_upto(s: Seq<Voxel>, k: int, n: nat)
    requires
        chunk_wf(s),
        0 <= k < CHUNK_VOLUME,
        n <= CHUNK_VOLUME,
        s[k] is Full,
        forall|i: int| 0 <= i < CHUNK_VOLUME && i != k ==> #[trigger] s[i] is Empty,
    ensures
        quads_upto(s, n).len() == if n > k { 6int } else { 0 },
    decreases n,
{
    if n > 0 {
        lemma_single_upto(s, k, (n - 1) as nat);
        let i = n - 1;
        lemma_voxel_quads_len(s, i);
        if i == k {
            lemma_index_coords(k);
            let (x, y, z) = (lx(k), ly(k), lz(k));
            assert forall|f: VoxelFace| #![auto] exposed(s, x, y, z, f) by {
                let (dx, dy, dz) = face_dir(f);
                if in_chunk(x + dx, y + dy, z + dz) {
                    assert(lin(x + dx, y + dy, z + dz) != k);
                }
                lemma_open_neighbor_exposed(s, k, f);
            }
            assert(exposed(s, x, y, z, VoxelFace::Top));
            assert(exposed(s, x, y, z, VoxelFace::Bot));
            assert(exposed(s, x, y, z, VoxelFace::Rig));
            assert(exposed(s, x, y, z, VoxelFace::Lef));
            assert(exposed(s, x, y, z, VoxelFace::Fro));
            assert(exposed(s, x, y, z, VoxelFace::Bac));
        }
    }
}

/// A chunk whose only solid voxel is the one at flat index `k` gives six
/// quads, one per face, whether or not that voxel touches the chunk's
/// boundary: 24 vertices and 36 indices, that is 12 triangles.
pub proof fn lemma_single_voxel_quads(s: Seq<Voxel>, k: int)
    requires
        chunk_wf(s),
        0 <= k < CHUNK_VOLUME,
        s[k] is Full,
        forall|i: int| 0 <= i < CHUNK_VOLUME && i != k ==> #[trigger] s[i] is Empty,
    ensures
        quads_of(s).len() == 6,
        mesh_positions(quads_of(s)).len() == 24,
        mesh_normals(quads_of(s)).len() == 24,
        mesh_uvs(quads_of(s)).len() == 24,
        mesh_indices(quads_of(s)).len() == 36,
{
    lemma_single_upto(s, k, CHUNK_VOLUME as nat);
    lemma_mesh_lengths(quads_of(s));
}

/// The flat index of the neighbour of the cell at index `i` through face `f`.
pub open spec fn neighbor_index(i: int, f: VoxelFace) -> int {
    lin(lx(i) + face_dir(f).0, ly(i) + face_dir(f).1, lz(i) + face_dir(f).2)
}

pub open spec fn is_positive_face(f: VoxelFace) -> bool {
    f == VoxelFace::Rig || f == VoxelFace::Top || f == VoxelFace::Fro
}

/// The face pointing the other way.
pub open spec fn opposite(f: VoxelFace) -> VoxelFace {
    match f {
        VoxelFace::Top => VoxelFace::Bot,
        VoxelFace::Bot => VoxelFace::Top,
        VoxelFace::Rig => VoxelFace::Lef,
        VoxelFace::Lef => VoxelFace::Rig,
        VoxelFace::Fro => VoxelFace::Bac,
        VoxelFace::Bac => VoxelFace::Fro,
    }
}

proof fn lemma_lin_injective(x1: int, y1: int, z1: int, x2: int, y2: int, z2: int)
    requires
        in_chunk(x1, y1, z1),
        in_chunk(x2, y2, z2),
        lin(x1, y1, z1) == lin(x2, y2, z2),
    ensures
        x1 == x2 && y1 == y2 && z1 == z2,
{
    let (a1, a2) = (x1 + 32 * y1, x2 + 32 * y2);
    assert(0 <= a1 < 1024 && 0 <= a2 < 1024);
    if z1 < z2 {
        assert(a1 + 1024 * z1 < a2 + 1024 * z2);
    } else if z1 > z2 {
        assert(a1 + 1024 * z1 > a2 + 1024 * z2);
    }
    assert(z1 == z2);
    if y1 < y2 {
        assert(x1 + 32 * y1 < x2 + 32 * y2);
    } else if y1 > y2 {
        assert(x1 + 32 * y1 > x2 + 32 * y2);
    }
}

proof fn lemma_lin_linear(x: int, y: int, z: int)
    ensures
        lin(x, y, z) == x + 32 * y + 1024 * z,
{
}

proof fn lemma_lin_bounds(x: int, y: int, z: int)
    requires
        in_chunk(x, y, z),
    ensures
        0 <= lin(x, y, z) < CHUNK_VOLUME,
{
    assert(0 <= x + 32 * y < 1024);
    assert(0 <= x + 32 * y + 1024 * z < 32768);
}

/// Coordinates of the neighbour of cell `a` through face `f`.
proof fn lemma_neighbor_coords(a: int, f: VoxelFace)
    requires
        0 <= a < CHUNK_VOLUME,
        in_chunk(lx(a) + face_dir(f).0, ly(a) + face_dir(f).1, lz(a) + face_dir(f).2),
    ensures
        0 <= neighbor_index(a, f) < CHUNK_VOLUME,
        lx(neighbor_index(a, f)) == lx(a) + face_dir(f).0,
        ly(neighbor_index(a, f)) == ly(a) + face_dir(f).1,
        lz(neighbor_index(a, f)) == lz(a) + face_dir(f).2,
        is_positive_face(f) ==> neighbor_index(a, f) > a,
{
    let b = neighbor_index(a, f);
    lemma_index_coords(a);
    let (dx, dy, dz) = face_dir(f);
    lemma_lin_bounds(lx(a) + dx, ly(a) + dy, lz(a) + dz);
    let (x, y, z) = (lx(a), ly(a), lz(a));
    lemma_lin_linear(x + dx, y + dy, z + dz);
    lemma_lin_linear(x, y, z);
    assert((x + dx) + 32 * (y + dy) + 1024 * (z + dz) == (x + 32 * y + 1024 * z) + dx + 32 * dy + 1024 * dz);
    assert(is_positive_face(f) ==> dx + 32 * dy + 1024 * dz > 0);
    lemma_index_coords(b);
    lemma_lin_injective(lx(b), ly(b), lz(b), lx(a) + dx, ly(a) + dy, lz(a) + dz);
}

/// In the chunk holding just the solid cells `a` and `b`, the neighbour of
/// `a` through `f`, face `g` of cell `c` (one of the two) is exposed unless
/// it is the face that the two cells share.
proof fn lemma_pair_face(s: Seq<Voxel>, a: int, f: VoxelFace, c: int, g: VoxelFace)
    requires
        chunk_wf(s),
        0 <= a < CHUNK_VOLUME,
        in_chunk(lx(a) + face_dir(f).0, ly(a) + face_dir(f).1, lz(a) + face_dir(f).2),
        c == a || c == neighbor_index(a, f),
        s[a] is Full,
        s[neighbor_index(a, f)] is Full,
        forall|i: int| 0 <= i < CHUNK_VOLUME && i != a && i != neighbor_index(a, f) ==> #[trigger] s[i] is Empty,
    ensures
        exposed(s, lx(c), ly(c), lz(c), g) <==> !((c == a && g == f) || (c == neighbor_index(a, f) && g == opposite(f))),
{
    let b = neighbor_index(a, f);
    lemma_neighbor_coords(a, f);
    lemma_index_coords(a);
    lemma_index_coords(b);
    let (x, y, z) = (lx(c), ly(c), lz(c));
    let (dx, dy, dz) = face_dir(g);
    if in_chunk(x + dx, y + dy, z + dz) {
        let j = lin(x + dx, y + dy, z + dz);
        if j == a {
            lemma_lin_injective(x + dx, y + dy, z + dz, lx(a), ly(a), lz(a));
        } else if j == b {
            lemma_lin_injective(x + dx, y + dy, z + dz, lx(b), ly(b), lz(b));
        }
    }
}

/// Each of the two cells has five exposed faces.
proof fn lemma_pair_cell_faces(s: Seq<Voxel>, a: int, f: VoxelFace, c: int)
    requires
        chunk_wf(s),
        0 <= a < CHUNK_VOLUME,
        in_chunk(lx(a) + face_dir(f).0, ly(a) + face_dir(f).1, lz(a) + face_dir(f).2),
        c == a || c == neighbor_index(a, f),
        s[a] is Full,
        s[neighbor_index(a, f)] is Full,
        forall|i: int| 0 <= i < CHUNK_VOLUME && i != a && i != neighbor_index(a, f) ==> #[trigger] s[i] is Empty,
    ensures
        exposed_count(s, c) == 5,
{
    lemma_neighbor_coords(a, f);
    lemma_pair_face(s, a, f, c, VoxelFace::Top);
    lemma_pair_face(s, a, f, c, VoxelFace::Bot);
    lemma_pair_face(s, a, f, c, VoxelFace::Rig);
    lemma_pair_face(s, a, f, c, VoxelFace::Lef);
    lemma_pair_face(s, a, f, c, VoxelFace::Fro);
    lemma_pair_face(s, a, f, c, VoxelFace::Bac);
}

proof fn lemma_pair_upto(s: Seq<Voxel>, a: int, f: VoxelFace, n: nat)
    requires
        chunk_wf(s),
        0 <= a < CHUNK_VOLUME,
        is_positive_face(f),
        in_chunk(lx(a) + face_dir(f).0, ly(a) + face_dir(f).1, lz(a) + face_dir(f).2),
        s[a] is Full,
        s[neighbor_index(a, f)] is Full,
        forall|i: int| 0 <= i < CHUNK_VOLUME && i != a && i != neighbor_index(a, f) ==> #[trigger] s[i] is Empty,
        n <= CHUNK_VOLUME,
    ensures
        quads_upto(s, n) == (if n > a { voxel_quads(s, a) } else { seq![] })
            + (if n > neighbor_index(a, f) { voxel_quads(s, neighbor_index(a, f)) } else { seq![] }),
    decreases n,
{
    let b = neighbor_index(a, f);
    lemma_neighbor_coords(a, f);
    if n > 0 {
        lemma_pair_upto(s, a, f, (n - 1) as nat);
        let i = n - 1;
        if i != a && i != b {
            assert(voxel_quads(s, i) =~= seq![]);
        }
        assert(quads_upto(s, n) =~= (if n > a { voxel_quads(s, a) } else { seq![] })
            + (if n > b { voxel_quads(s, b) } else { seq![] }));
    } else {
        assert(quads_upto(s, n) =~= seq![]);
    }
}

/// A chunk holding exactly two solid voxels, adjacent along one axis, gives
/// ten quads: twelve faces less the two that face each other. The voxel
/// with the smaller flat index is at `a`, the other, `b`, one step along the
/// positive direction of face `f`. The quads are those of `a` followed by
/// those of `b`, five each: every face of `a` but `f` is exposed, and every
/// face of `b` but the opposite of `f`.
pub proof fn lemma_adjacent_pair_quads(s: Seq<Voxel>, a: int, f: VoxelFace)
    requires
        chunk_wf(s),
        0 <= a < CHUNK_VOLUME,
        is_positive_face(f),
        in_chunk(lx(a) + face_dir(f).0, ly(a) + face_dir(f).1, lz(a) + face_dir(f).2),
        s[a] is Full,
        s[neighbor_index(a, f)] is Full,
        forall|i: int| 0 <= i < CHUNK_VOLUME && i != a && i != neighbor_index(a, f) ==> #[trigger] s[i] is Empty,
    ensures
        quads_of(s) == voxel_quads(s, a) + voxel_quads(s, neighbor_index(a, f)),
        voxel_quads(s, a).len() == 5,
        voxel_quads(s, neighbor_index(a, f)).len() == 5,
        forall|g: VoxelFace| #[trigger] exposed(s, lx(a), ly(a), lz(a), g) <==> g != f,
        forall|g: VoxelFace| #[trigger] exposed(s, lx(neighbor_index(a, f)), ly(neighbor_index(a, f)), lz(neighbor_index(a, f)), g)
            <==> g != opposite(f),
        quads_of(s).len() == 10,
        mesh_positions(quads_of(s)).len() == 40,
        mesh_indices(quads_of(s)).len() == 60,
{
    let b = neighbor_index(a, f);
    lemma_neighbor_coords(a, f);
    lemma_pair_upto(s, a, f, CHUNK_VOLUME as nat);
    lemma_voxel_quads_len(s, a);
    lemma_voxel_quads_len(s, b);
    lemma_pair_cell_faces(s, a, f, a);
    lemma_pair_cell_faces(s, a, f, b);
    assert forall|g: VoxelFace| #[trigger] exposed(s, lx(a), ly(a), lz(a), g) <==> g != f by {
        lemma_pair_face(s, a, f, a, g);
    }
    assert forall|g: VoxelFace| #[trigger] exposed(s, lx(b), ly(b), lz(b), g) <==> g != opposite(f) by {
        lemma_pair_face(s, a, f, b, g);
    }
    lemma_mesh_lengths(quads_of(s));
}

/// Meshing depends on the chunk's contents alone: meshing an unchanged
/// chunk twice gives the same quads in the same order, and the same
/// positions, normals, texture coordinates and indices.
pub proof fn lemma_mesh_repeatable(
    c1: Seq<Voxel>,
    c2: Seq<Voxel>,
    q1: Seq<Quad>,
    q2: Seq<Quad>,
    m1: MeshData,
    m2: MeshData,
)
    requires
        c1 == c2,
        q1 == quads_of(c1),
        q2 == quads_of(c2),
        is_mesh_of(&m1, q1),
        is_mesh_of(&m2, q2),
    ensures
        q1 == q2,
        m1.positions@ == m2.positions@,
        m1.normals@ == m2.normals@,
        m1.uvs@ == m2.uvs@,
        m1.indices@ == m2.indices@,
{
}

/// `(b - a) x (c - a) . n`: positive when the triangle `a, b, c` winds
/// counter-clockwise seen from the side that `n` points to.
pub open spec fn winding(a: (u32, u32, u32), b: (u32, u32, u32), c: (u32, u32, u32), n: (i32, i32, i32)) -> int {
    let ux = b.0 - a.0;
    let uy = b.1 - a.1;
    let uz = b.2 - a.2;
    let vx = c.0 - a.0;
    let vy = c.1 - a.1;
    let vz = c.2 - a.2;
    (uy * vz - uz * vy) * n.0 + (uz * vx - ux * vz) * n.1 + (ux * vy - uy * vx) * n.2
}

/// Both triangles of every quad, corners `[0, 2, 1]` and `[1, 2, 3]`, wind
/// counter-clockwise seen from outside the face.
pub proof fn lemma_quad_winds_outward(q: Quad)
    requires
        q.wf(),
    ensures
        winding(corner_position(q, 0), corner_position(q, 2), corner_position(q, 1), spec_normal(q.face)) > 0,
        winding(corner_position(q, 1), corner_position(q, 2), corner_position(q, 3), spec_normal(q.face)) > 0,
{
    let (x, y, z) = (q.vox_loc.0 as int, q.vox_loc.1 as int, q.vox_loc.2 as int);
    assert forall|k: int| 0 <= k < 4 implies {
        let p = #[trigger] corner_position(q, k);
        let c = crate::mesher::face_corner(q.face, k);
        p.0 == x + c.0 && p.1 == y + c.1 && p.2 == z + c.2
    } by {
        let c = crate::mesher::face_corner(q.face, k);
        assert(0 <= c.0 <= 1 && 0 <= c.1 <= 1 && 0 <= c.2 <= 1);
    }
    let p0 = corner_position(q, 0);
    let p1 = corner_position(q, 1);
    let p2 = corner_position(q, 2);
    let p3 = corner_position(q, 3);
    let n = spec_normal(q.face);
    match q.face {
        VoxelFace::Top => {
            lemma_winding_by_offsets(p0, p2, p1, n, 0, 1, 0, 0, 0, 1, 1, 0, 0);
            lemma_winding_by_offsets(p1, p2, p3, n, 0, 1, 0, -1, 0, 1, 0, 0, 1);
        },
        VoxelFace::Bot => {
            lemma_winding_by_offsets(p0, p2, p1, n, 0, -1, 0, 1, 0, 0, 0, 0, 1);
            lemma_winding_by_offsets(p1, p2, p3, n, 0, -1, 0, 1, 0, -1, 1, 0, 0);
        },
        VoxelFace::Rig => {
            lemma_winding_by_offsets(p0, p2, p1, n, 1, 0, 0, 0, 1, 0, 0, 0, 1);
            lemma_winding_by_offsets(p1, p2, p3, n, 1, 0, 0, 0, 1, -1, 0, 1, 0);
        },
        VoxelFace::Lef => {
            lemma_winding_by_offsets(p0, p2, p1, n, -1, 0, 0, 0, 0, 1, 0, 1, 0);
            lemma_winding_by_offsets(p1, p2, p3, n, -1, 0, 0, 0, -1, 1, 0, 0, 1);
        },
        VoxelFace::Fro => {
            lemma_winding_by_offsets(p0, p2, p1, n, 0, 0, 1, 1, 0, 0, 0, 1, 0);
            lemma_winding_by_offsets(p1, p2, p3, n, 0, 0, 1, 1, -1, 0, 1, 0, 0);
        },
        VoxelFace::Bac => {
            lemma_winding_by_offsets(p0, p2, p1, n, 0, 0, -1, 0, 1, 0, 1, 0, 0);
            lemma_winding_by_offsets(p1, p2, p3, n, 0, 0, -1, -1, 1, 0, 0, 1, 0);
        },
    }
}

/// `winding` in terms of the offsets `u = b - a` and `v = c - a`.
proof fn lemma_winding_by_offsets(
    a: (u32, u32, u32),
    b: (u32, u32, u32),
    c: (u32, u32, u32),
    n: (i32, i32, i32),
    nx: int,
    ny: int,
    nz: int,
    ux: int,
    uy: int,
    uz: int,
    vx: int,
    vy: int,
    vz: int,
)
    requires
        b.0 - a.0 == ux && b.1 - a.1 == uy && b.2 - a.2 == uz,
        c.0 - a.0 == vx && c.1 - a.1 == vy && c.2 - a.2 == vz,
        n.0 == nx && n.1 == ny && n.2 == nz,
    ensures
        winding(a, b, c, n) == (uy * vz - uz * vy) * nx + (uz * vx - ux * vz) * ny + (ux * vy - uy * vx) * nz,
{
}

/// Where quad `j` of `qs` lands in the mesh lists.
pub proof fn lemma_mesh_at(qs: Seq<Quad>, j: int)
    requires
        0 <= j < qs.len(),
    ensures
        forall|k: int| 0 <= k < 4 ==> #[trigger] mesh_positions(qs)[4 * j + k] == corner_position(qs[j], k),
        forall|k: int| 0 <= k < 4 ==> #[trigger] mesh_normals(qs)[4 * j + k] == spec_normal(qs[j].face),
        forall|m: int| 0 <= m < 6 ==> #[trigger] mesh_indices(qs)[6 * j + m] == quad_indices(4 * j)[m],
    decreases qs.len(),
{
    let prev = qs.drop_last();
    lemma_mesh_lengths(prev);
    if j < qs.len() - 1 {
        lemma_mesh_at(prev, j);
        assert forall|k: int| 0 <= k < 4 implies #[trigger] mesh_positions(qs)[4 * j + k] == corner_position(qs[j], k) by {
            assert(mesh_positions(qs)[4 * j + k] == mesh_positions(prev)[4 * j + k]);
        }
        assert forall|k: int| 0 <= k < 4 implies #[trigger] mesh_normals(qs)[4 * j + k] == spec_normal(qs[j].face) by {
            assert(mesh_normals(qs)[4 * j + k] == mesh_normals(prev)[4 * j + k]);
        }
        assert forall|m: int| 0 <= m < 6 implies #[trigger] mesh_indices(qs)[6 * j + m] == quad_indices(4 * j)[m] by {
            assert(mesh_indices(qs)[6 * j + m] == mesh_indices(prev)[6 * j + m]);
        }
    }
}

/// Every triangle of the mesh of a chunk's quads winds counter-clockwise
/// seen from outside its face: for the triangle with vertex indices
/// `a, b, c`, `(p[b] - p[a]) x (p[c] - p[a])` points the way of `a`'s normal.
pub proof fn lemma_mesh_winds_outward(qs: Seq<Quad>, t: int)
    requires
        forall|j: int| 0 <= j < qs.len() ==> (#[trigger] qs[j]).wf(),
        4 * qs.len() <= u32::MAX,
        0 <= t < 2 * qs.len(),
    ensures
        ({
            let ind = mesh_indices(qs);
            let (a, b, c) = (ind[3 * t] as int, ind[3 * t + 1] as int, ind[3 * t + 2] as int);
            &&& 0 <= a < mesh_positions(qs).len()
            &&& 0 <= b < mesh_positions(qs).len()
            &&& 0 <= c < mesh_positions(qs).len()
            &&& winding(mesh_positions(qs)[a], mesh_positions(qs)[b], mesh_positions(qs)[c], mesh_normals(qs)[a]) > 0
        }),
{
    let j = t / 2;
    let h = t % 2;
    assert(t == 2 * j + h && 0 <= h < 2 && 0 <= j < qs.len());
    lemma_mesh_at(qs, j);
    lemma_mesh_lengths(qs);
    lemma_quad_winds_outward(qs[j]);
    let ind = mesh_indices(qs);
    assert(3 * t == 6 * j + 3 * h);
    assert(4 * j + 3 <= u32::MAX);
    if h == 0 {
        assert(ind[6 * j + 0] == 4 * j);
        assert(ind[6 * j + 1] == 4 * j + 2);
        assert(ind[6 * j + 2] == 4 * j + 1);
        assert(mesh_positions(qs)[4 * j + 0] == corner_position(qs[j], 0));
        assert(mesh_normals(qs)[4 * j + 0] == spec_normal(qs[j].face));
        assert(mesh_positions(qs)[4 * j + 2] == corner_position(qs[j], 2));
        assert(mesh_positions(qs)[4 * j + 1] == corner_position(qs[j], 1));
    } else {
        assert(ind[6 * j + 3] == 4 * j + 1);
        assert(ind[6 * j + 4] == 4 * j + 2);
        assert(ind[6 * j + 5] == 4 * j + 3);
        assert(mesh_positions(qs)[4 * j + 1] == corner_position(qs[j], 1));
        assert(mesh_normals(qs)[4 * j + 1] == spec_normal(qs[j].face));
        assert(mesh_positions(qs)[4 * j + 2] == corner_position(qs[j], 2));
        assert(mesh_positions(qs)[4 * j + 3] == corner_position(qs[j], 3));
    }
}

} // verus!
