use voxel_world::chunk::CHUNK_SIZE;
use voxel_world::coords::{IVec3, WorldPosition};

#[test]
fn world_pos_positive() {
    let position = IVec3::new(1, 0, 0);
    let world = WorldPosition::get(position);
    assert!(world.chunk_location == IVec3::new(0, 0, 0));
    assert!(world.location_in_chunk == IVec3::new(1, 0, 0));
}

#[test]
fn world_pos_negative() {
    let position = IVec3::new(-1, 0, 0);
    let world = WorldPosition::get(position);
    assert!(world.chunk_location == IVec3::new(-1, 0, 0));
    assert!(world.location_in_chunk == IVec3::new(CHUNK_SIZE as i32 - 1, 0, 0));
}

#[test]
fn resolve_recomposes_for_many_positions() {
    let n = CHUNK_SIZE as i32;
    for v in [-100, -65, -64, -33, -32, -31, -1, 0, 1, 31, 32, 33, 63, 64, 1000] {
        let p = IVec3::new(v, -v, v * 3);
        let w = WorldPosition::get(p);
        let (c, l) = (w.chunk_location, w.location_in_chunk);
        assert_eq!(c.x * n + l.x, p.x);
        assert_eq!(c.y * n + l.y, p.y);
        assert_eq!(c.z * n + l.z, p.z);
        for k in [l.x, l.y, l.z] {
            assert!(0 <= k && k < n);
        }
    }
}

#[test]
fn resolve_exact_values() {
    let w = WorldPosition::get(IVec3::new(-33, 64, -32));
    assert_eq!(w.chunk_location, IVec3::new(-2, 2, -1));
    assert_eq!(w.location_in_chunk, IVec3::new(31, 0, 0));
}

#[test]
fn resolve_extremes() {
    let w = WorldPosition::get(IVec3::new(i32::MIN, i32::MAX, 0));
    assert_eq!(w.chunk_location, IVec3::new(i32::MIN / 32, i32::MAX / 32, 0));
    assert_eq!(w.location_in_chunk, IVec3::new(0, 31, 0));
}
