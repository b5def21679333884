use voxworld::{BlockChange, VoxelKind};

#[test]
fn test_change_idx() {
    let change = BlockChange::SetVoxel {
        idx: 42,
        prev: VoxelKind::Air,
        next: VoxelKind::Stone,
    };
    assert_eq!(change.idx(), 42);
}

#[test]
fn test_needs_remesh() {
    let change1 = BlockChange::SetVoxel {
        idx: 0,
        prev: VoxelKind::Air,
        next: VoxelKind::Stone,
    };
    assert!(change1.needs_remesh());

    // 100 degrees Celsius, in milli-degrees
    let change2 = BlockChange::SetTemp { idx: 0, temp: 100_000 };
    assert!(!change2.needs_remesh());
}
