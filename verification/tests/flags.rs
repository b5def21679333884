use voxworld::VoxelFlags;

#[test]
fn test_flags_basic() {
    let mut flags = VoxelFlags::none();
    assert!(!flags.contains(VoxelFlags::burning()));

    flags.insert(VoxelFlags::burning());
    assert!(flags.contains(VoxelFlags::burning()));

    flags.remove(VoxelFlags::burning());
    assert!(!flags.contains(VoxelFlags::burning()));
}

#[test]
fn test_flags_combination() {
    let flags = VoxelFlags::wet().union(VoxelFlags::cold());
    assert!(flags.contains(VoxelFlags::wet()));
    assert!(flags.contains(VoxelFlags::cold()));
    assert!(!flags.contains(VoxelFlags::burning()));
}
