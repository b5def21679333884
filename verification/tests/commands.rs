use voxworld::{BlockChange, ChunkData, ChunkPos, CommandQueue, DomainCommand, ThermalApi, VoxelKind};
use voxworld::command::{commit_chunk, execute_command, resolve_conflicts};
use voxworld::world::{commit_system, VoxelWorld};

#[test]
fn test_set_block_wins_conflicts() {
    // a set-block and other commands on the same cell in one tick: only
    // the set-block's effect is observable after commit
    let mut chunk = ChunkData::new();
    let commands = vec![
        DomainCommand::SetVariant { idx: 7, variant: 9 },
        DomainCommand::SetBlock { idx: 7, new_voxel: VoxelKind::Sand },
        DomainCommand::SetTemp { idx: 7, temp: 300_000 },
        DomainCommand::SetBlock { idx: 7, new_voxel: VoxelKind::Clay },
    ];
    let resolved = resolve_conflicts(commands);
    assert_eq!(resolved.len(), 1);
    commit_chunk(&mut chunk, &resolved);

    assert_eq!(chunk.voxels[7], VoxelKind::Sand); // the first set-block
    assert_eq!(chunk.variant[7], 0); // the variant write was discarded
    // no temperature override was stored
    assert_eq!(ThermalApi::get_temp(&chunk, 7), 28_000); // sand's default
}

#[test]
fn test_other_cells_unaffected_by_resolution() {
    let mut chunk = ChunkData::new();
    let commands = vec![
        DomainCommand::SetBlock { idx: 3, new_voxel: VoxelKind::Stone },
        DomainCommand::SetVariant { idx: 4, variant: 5 },
    ];
    let resolved = resolve_conflicts(commands);
    assert_eq!(resolved.len(), 2);
    commit_chunk(&mut chunk, &resolved);
    assert_eq!(chunk.voxels[3], VoxelKind::Stone);
    assert_eq!(chunk.variant[4], 5);
}

#[test]
fn test_execute_command_variant_saturation() {
    let mut chunk = ChunkData::new();
    execute_command(&mut chunk, &DomainCommand::DecrementVariant { idx: 0 });
    assert_eq!(chunk.variant[0], 0); // saturates at zero
    execute_command(&mut chunk, &DomainCommand::SetVariant { idx: 0, variant: 255 });
    execute_command(&mut chunk, &DomainCommand::IncrementVariant { idx: 0 });
    assert_eq!(chunk.variant[0], 255); // saturates at the top
}

#[test]
fn test_execute_ignite_extinguish() {
    let mut chunk = ChunkData::new();
    execute_command(&mut chunk, &DomainCommand::Ignite { idx: 11, power: 500 });
    assert!(chunk.active_burning.contains(11));
    execute_command(&mut chunk, &DomainCommand::Extinguish { idx: 11 });
    assert!(!chunk.active_burning.contains(11));
}

#[test]
fn test_out_of_bounds_command_is_noop() {
    let mut chunk = ChunkData::new();
    execute_command(
        &mut chunk,
        &DomainCommand::SetBlock { idx: 5000, new_voxel: VoxelKind::Stone },
    );
    assert!(chunk.is_empty());
    assert!(chunk.changes.is_empty());
}

#[test]
fn test_commit_system_drains_queue() {
    let mut world = VoxelWorld::new();
    world.chunks.insert(ChunkPos { x: 0, y: 0, z: 0 }, ChunkData::new());
    let mut queue = CommandQueue::new();
    queue.push(
        ChunkPos { x: 0, y: 0, z: 0 },
        DomainCommand::SetBlock { idx: 0, new_voxel: VoxelKind::Gravel },
    );
    commit_system(&mut world, &mut queue);
    assert!(queue.commands.is_empty());
    let chunk = world.chunks.get(ChunkPos { x: 0, y: 0, z: 0 }).unwrap();
    assert_eq!(chunk.voxels[0], VoxelKind::Gravel);
    // the change log recorded the committed write
    assert_eq!(chunk.changes.len(), 1);
}

#[test]
fn test_commit_targets_only_its_chunk() {
    // a command targets one chunk; other resident chunks are untouched
    let mut world = VoxelWorld::new();
    world.chunks.insert(ChunkPos { x: 0, y: 0, z: 0 }, ChunkData::new());
    world.chunks.insert(ChunkPos { x: 1, y: 0, z: 0 }, ChunkData::new());
    let mut queue = CommandQueue::new();
    queue.push(
        ChunkPos { x: 0, y: 0, z: 0 },
        DomainCommand::SetBlock { idx: 0, new_voxel: VoxelKind::Sand },
    );
    commit_system(&mut world, &mut queue);
    let a = world.chunks.get(ChunkPos { x: 0, y: 0, z: 0 }).unwrap();
    let b = world.chunks.get(ChunkPos { x: 1, y: 0, z: 0 }).unwrap();
    assert_eq!(a.voxels[0], VoxelKind::Sand);
    assert_eq!(b.voxels[0], VoxelKind::Air); // the other chunk is untouched
    assert!(b.changes.is_empty());
}

#[test]
fn test_change_log_records_commands() {
    let mut chunk = ChunkData::new();
    execute_command(&mut chunk, &DomainCommand::SetBlock { idx: 3, new_voxel: VoxelKind::Clay });
    execute_command(&mut chunk, &DomainCommand::IncrementVariant { idx: 3 });
    assert_eq!(chunk.changes.len(), 2);
    assert_eq!(
        chunk.changes[0],
        BlockChange::SetVoxel { idx: 3, prev: VoxelKind::Air, next: VoxelKind::Clay }
    );
    assert_eq!(chunk.changes[1], BlockChange::SetVariant { idx: 3, prev: 0, next: 1 });
    assert_eq!(chunk.dirty_blocks, vec![3, 3]);
    // variant changes are geometry-affecting and request a remesh
    assert!(chunk.needs_remesh);
}
