use voxworld::{ChunkData, ChunkPos, VoxelKind, VoxelWorld};

#[test]
fn test_get_out_of_bounds_is_air() {
    let chunk = ChunkData::new();
    assert_eq!(chunk.get(-1, 0, 0), VoxelKind::Air);
    assert_eq!(chunk.get(0, 16, 0), VoxelKind::Air);
    assert_eq!(chunk.get(0, 0, 99), VoxelKind::Air);
}

#[test]
fn test_set_out_of_bounds_is_noop() {
    let mut chunk = ChunkData::new();
    chunk.is_dirty = false;
    chunk.set(-1, 0, 0, VoxelKind::Stone);
    chunk.set(16, 3, 3, VoxelKind::Stone);
    // the dirty flag is untouched by a rejected write
    assert!(!chunk.is_dirty);
    assert!(chunk.is_empty());
}

#[test]
fn test_set_get_round_trip() {
    let mut chunk = ChunkData::new();
    chunk.set(3, 4, 5, VoxelKind::Sand);
    assert_eq!(chunk.get(3, 4, 5), VoxelKind::Sand);
    assert!(chunk.is_dirty);
    assert!(!chunk.is_empty());
}

#[test]
fn test_world_pos_round_trip() {
    for &p in &[-33, -17, -16, -1, 0, 1, 15, 16, 31, 100] {
        let c = ChunkPos::from_world_pos(p, 0, 0);
        let (ox, _, _) = c.world_origin();
        assert!(ox <= p);
        assert!(p - ox >= 0 && p - ox < 16);
    }
}

#[test]
fn test_world_get_set_voxel() {
    let mut world = VoxelWorld::new();
    // a write into a non-resident chunk is a no-op
    world.set_voxel(-5, 3, 70, VoxelKind::Stone);
    assert_eq!(world.get_voxel(-5, 3, 70), VoxelKind::Air);

    world.chunks.insert(ChunkPos { x: -1, y: 0, z: 4 }, ChunkData::new());
    world.set_voxel(-5, 3, 70, VoxelKind::Stone);
    assert_eq!(world.get_voxel(-5, 3, 70), VoxelKind::Stone);
}

#[test]
fn test_is_fully_opaque() {
    let mut chunk = ChunkData::new();
    assert!(!chunk.is_fully_opaque());
    for y in 0..16 {
        for z in 0..16 {
            for x in 0..16 {
                chunk.set(x, y, z, VoxelKind::Stone);
            }
        }
    }
    assert!(chunk.is_fully_opaque());
}
