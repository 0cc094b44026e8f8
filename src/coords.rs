//! Integer positions and the split of a world position into the chunk that
//! holds it and the local coordinate inside that chunk.
use vstd::prelude::*;

use crate::chunk::CHUNK_SIZE;

verus! {

/// An integer 3-vector: a world position in voxels, a chunk coordinate, or
/// a local coordinate inside a chunk.
#[derive(Debug, Clone, Copy, PartialEq, Eq, Structural, Hash)]
pub struct IVec3 {
    pub x: i32,
    pub y: i32,
    pub z: i32,
}

impl IVec3 {
    pub fn new(x: i32, y: i32, z: i32) -> (r: IVec3)
        ensures
            r == (IVec3 { x, y, z }),
    {
        IVec3 { x, y, z }
    }
}

/// A world position split into its chunk and the offset inside that chunk.
#[derive(Debug, Clone, Copy, PartialEq, Eq, Structural)]
pub struct WorldPosition {
    pub chunk_location: IVec3,
    pub location_in_chunk: IVec3,
}

/// Floor division of one coordinate by the chunk size.
pub open spec fn chunk_of(v: i32) -> i32 {
    (v as int / CHUNK_SIZE as int) as i32
}

/// Euclidean remainder of one coordinate by the chunk size.
pub open spec fn local_of(v: i32) -> i32 {
    (v as int % CHUNK_SIZE as int) as i32
}

/// The split of `p` by Euclidean division, component by component.
pub open spec fn resolve(p: IVec3) -> WorldPosition {
    WorldPosition {
        chunk_location: IVec3 { x: chunk_of(p.x), y: chunk_of(p.y), z: chunk_of(p.z) },
        location_in_chunk: IVec3 { x: local_of(p.x), y: local_of(p.y), z: local_of(p.z) },
    }
}

/// `c * CHUNK_SIZE + l == v` with `0 <= l < CHUNK_SIZE`.
pub open spec fn splits(v: int, c: int, l: int) -> bool {
    c * CHUNK_SIZE + l == v && 0 <= l < CHUNK_SIZE
}

fn split_axis(v: i32) -> (r: (i32, i32))
    ensures
        r.0 == chunk_of(v),
        r.1 == local_of(v),
        splits(v as int, r.0 as int, r.1 as int),
{
    let n = CHUNK_SIZE as i32;
    proof {
        let vi = v as int;
        assert(vi == (vi / 32) * 32 + vi % 32) by (nonlinear_arith);
        assert(0 <= vi % 32 < 32);
        assert(i32::MIN <= vi / 32 <= i32::MAX) by (nonlinear_arith)
            requires i32::MIN <= vi <= i32::MAX, vi == (vi / 32) * 32 + vi % 32, 0 <= vi % 32 < 32;
    }
    let c = v.checked_div_euclid(n).unwrap();
    let l = v.checked_rem_euclid(n).unwrap();
    (c, l)
}

impl WorldPosition {
    /// Splits a world position by Euclidean (floor) division: the result
    /// satisfies `chunk * CHUNK_SIZE + local == world` with every local
    /// component in `[0, CHUNK_SIZE)`, negative positions included.
    pub fn get(world: IVec3) -> (r: WorldPosition)
        ensures
            r == resolve(world),
            splits(world.x as int, r.chunk_location.x as int, r.location_in_chunk.x as int),
            splits(world.y as int, r.chunk_location.y as int, r.location_in_chunk.y as int),
            splits(world.z as int, r.chunk_location.z as int, r.location_in_chunk.z as int),
    {
        let (cx, lx) = split_axis(world.x);
        let (cy, ly) = split_axis(world.y);
        let (cz, lz) = split_axis(world.z);
        WorldPosition {
            chunk_location: IVec3 { x: cx, y: cy, z: cz },
            location_in_chunk: IVec3 { x: lx, y: ly, z: lz },
        }
    }
}

} // verus!
