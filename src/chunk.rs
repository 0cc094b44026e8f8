//! Fixed-size cubic chunks of voxels and their bounded neighbour query.
use vstd::prelude::*;

use crate::block::Voxel;

verus! {

/// Side length of a chunk, in voxels.
pub const CHUNK_SIZE: usize = 32;

/// Number of voxels in one horizontal layer of a chunk.
pub const CHUNK_AREA: usize = CHUNK_SIZE * CHUNK_SIZE;

/// Number of voxels in a chunk.
pub const CHUNK_VOLUME: usize = CHUNK_AREA * CHUNK_SIZE;

/// Flat index of local coordinate `(x, y, z)`: x varies fastest, z slowest.
pub open spec fn lin(x: int, y: int, z: int) -> int {
    x + CHUNK_SIZE * y + CHUNK_AREA * z
}

/// Local x, y and z of a flat index.
pub open spec fn lx(i: int) -> int {
    i % CHUNK_SIZE as int
}

pub open spec fn ly(i: int) -> int {
    (i / CHUNK_SIZE as int) % CHUNK_SIZE as int
}

pub open spec fn lz(i: int) -> int {
    i / CHUNK_AREA as int
}

pub open spec fn in_chunk(x: int, y: int, z: int) -> bool {
    0 <= x < CHUNK_SIZE && 0 <= y < CHUNK_SIZE && 0 <= z < CHUNK_SIZE
}

/// Voxel contents that a chunk may hold: one voxel per cell, none of them
/// of the unsupported variant.
pub open spec fn chunk_wf(s: Seq<Voxel>) -> bool {
    &&& s.len() == CHUNK_VOLUME
    &&& forall|i: int| 0 <= i < s.len() ==> !(#[trigger] s[i] is Semi)
}

/// The voxel at `(x, y, z)`, `Empty` outside the chunk.
pub open spec fn voxel_at(s: Seq<Voxel>, x: int, y: int, z: int) -> Voxel {
    if in_chunk(x, y, z) {
        s[lin(x, y, z)]
    } else {
        Voxel::Empty
    }
}

/// Flat index of a local coordinate.
pub fn linearize(x: usize, y: usize, z: usize) -> (i: usize)
    requires
        in_chunk(x as int, y as int, z as int),
    ensures
        i == lin(x as int, y as int, z as int),
        i < CHUNK_VOLUME,
{
    x + CHUNK_SIZE * y + CHUNK_AREA * z
}

/// Local coordinate of a flat index; the inverse of `linearize`.
pub fn delinearize(index: usize) -> (r: (usize, usize, usize))
    requires
        index < CHUNK_VOLUME,
    ensures
        in_chunk(r.0 as int, r.1 as int, r.2 as int),
        lin(r.0 as int, r.1 as int, r.2 as int) == index,
        r.0 == lx(index as int),
        r.1 == ly(index as int),
        r.2 == lz(index as int),
{
    let z = index / CHUNK_AREA;
    let rest = index - z * CHUNK_AREA;
    let y = rest / CHUNK_SIZE;
    let x = rest - y * CHUNK_SIZE;
    (x, y, z)
}

/// A cube of `CHUNK_SIZE`³ voxels, stored flat in `lin` order.
pub struct Chunk {
    voxels: Vec<Voxel>,
}

impl View for Chunk {
    type V = Seq<Voxel>;

    closed spec fn view(&self) -> Seq<Voxel> {
        self.voxels@
    }
}

impl Chunk {
    pub open spec fn wf(&self) -> bool {
        chunk_wf(self@)
    }

    /// An all-empty chunk.
    pub fn new() -> (c: Chunk)
        ensures
            c.wf(),
            c@ == Seq::new(CHUNK_VOLUME as nat, |i: int| Voxel::Empty),
    {
        let mut voxels: Vec<Voxel> = Vec::with_capacity(CHUNK_VOLUME);
        while voxels.len() < CHUNK_VOLUME
            invariant
                voxels.len() <= CHUNK_VOLUME,
                forall|i: int| 0 <= i < voxels.len() ==> voxels@[i] == Voxel::Empty,
            decreases CHUNK_VOLUME - voxels.len(),
        {
            voxels.push(Voxel::Empty);
        }
        let c = Chunk { voxels };
        assert(c@ =~= Seq::new(CHUNK_VOLUME as nat, |i: int| Voxel::Empty));
        c
    }

    /// A chunk holding `voxels`, in flat-index order.
    pub fn from_voxels(voxels: Vec<Voxel>) -> (c: Chunk)
        requires
            chunk_wf(voxels@),
        ensures
            c.wf(),
            c@ == voxels@,
    {
        Chunk { voxels }
    }

    /// The voxel at a local coordinate.
    pub fn voxel(&self, x: usize, y: usize, z: usize) -> (v: Voxel)
        requires
            self.wf(),
            in_chunk(x as int, y as int, z as int),
        ensures
            v == self@[lin(x as int, y as int, z as int)],
    {
        self.voxels[linearize(x, y, z)]
    }

    /// Overwrites the voxel at a local coordinate. The unsupported variant is
    /// refused: the chunk is then left as it was and `false` is returned.
    pub fn set_voxel(&mut self, x: usize, y: usize, z: usize, v: Voxel) -> (ok: bool)
        requires
            old(self).wf(),
            in_chunk(x as int, y as int, z as int),
        ensures
            final(self).wf(),
            ok == !(v is Semi),
            ok ==> final(self)@ == old(self)@.update(lin(x as int, y as int, z as int), v),
            !ok ==> final(self)@ == old(self)@,
    {
        if let Voxel::Semi(_) = v {
            return false;
        }
        let i = linearize(x, y, z);
        self.voxels.set(i, v);
        true
    }

    /// The neighbour of `(x, y, z)` at offset `(dx, dy, dz)`. Queries never
    /// cross the chunk boundary: a neighbour outside the chunk reads as
    /// `Empty`, so faces on the chunk's outer boundary are always exposed.
    pub fn get(&self, x: usize, y: usize, z: usize, dx: isize, dy: isize, dz: isize) -> (v: Voxel)
        requires
            self.wf(),
            in_chunk(x as int, y as int, z as int),
            -1 <= dx <= 1,
            -1 <= dy <= 1,
            -1 <= dz <= 1,
        ensures
            v == voxel_at(self@, x + dx, y + dy, z + dz),
    {
        let nx = x as isize + dx;
        let ny = y as isize + dy;
        let nz = z as isize + dz;
        if nx < 0 || ny < 0 || nz < 0 {
            return Voxel::Empty;
        }
        let (ux, uy, uz) = (nx as usize, ny as usize, nz as usize);
        if !(ux < CHUNK_SIZE && uy < CHUNK_SIZE && uz < CHUNK_SIZE) {
            return Voxel::Empty;
        }
        self.voxels[linearize(ux, uy, uz)]
    }
}

impl Default for Chunk {
    fn default() -> (c: Chunk)
        ensures
            c.wf(),
            c@ == Seq::new(CHUNK_VOLUME as nat, |i: int| Voxel::Empty),
    {
        Chunk::new()
    }
}

} // verus!
