use voxworld::mesh::MeshData;
use voxworld::streaming::{
    apply_chunk_replacements, cleanup_orphan_placeholders, handle_completed_mesh_task,
    process_chunk_unload, register_placeholder, spawn_mesh_tasks, ChunkLoadQueue,
    ChunkReplacementBuffer, PlaceholderEntities, TaskTracker,
};
use voxworld::world::VoxelWorld;
use voxworld::{ChunkPos, VoxelKind};

fn empty_mesh() -> MeshData {
    MeshData { vertices: Vec::new(), indices: Vec::new() }
}

fn air_voxels() -> Vec<VoxelKind> {
    vec![VoxelKind::Air; 4096]
}

#[test]
fn test_batch_apply_waits_then_triggers() {
    // with min_batch_size 3 and a 300 ms interval, two buffered chunks at
    // 100 ms are not applied; a third arriving 50 ms later triggers the
    // immediate application of all three
    let mut world = VoxelWorld::new();
    let mut buffer = ChunkReplacementBuffer::new();
    let mut placeholders = PlaceholderEntities::new();
    let mut queue = ChunkLoadQueue::new();
    let mut tasks = TaskTracker::new();

    for (i, pos) in [ChunkPos { x: 0, y: 0, z: 0 }, ChunkPos { x: 1, y: 0, z: 0 }]
        .into_iter()
        .enumerate()
    {
        register_placeholder(&mut placeholders, pos, 100 + i as u64);
        tasks.tasks.push(voxworld::ComputeMeshTask {
            chunk_pos: pos,
            placeholder_entity: 100 + i as u64,
        });
        assert!(handle_completed_mesh_task(
            &mut queue,
            &mut buffer,
            &mut tasks,
            pos,
            air_voxels(),
            empty_mesh(),
        ));
    }

    // two results buffered, 100 ms elapsed: nothing applied yet
    let outcomes = apply_chunk_replacements(&mut world, &mut buffer, &mut placeholders, 100);
    assert!(outcomes.is_empty());
    assert_eq!(buffer.completed.len(), 2);
    assert_eq!(world.chunks.len(), 0);

    // the third result arrives 50 ms later: the batch size is reached and
    // all three apply at once
    let pos3 = ChunkPos { x: 2, y: 0, z: 0 };
    register_placeholder(&mut placeholders, pos3, 102);
    tasks.tasks.push(voxworld::ComputeMeshTask { chunk_pos: pos3, placeholder_entity: 102 });
    assert!(handle_completed_mesh_task(
        &mut queue,
        &mut buffer,
        &mut tasks,
        pos3,
        air_voxels(),
        empty_mesh(),
    ));
    let outcomes = apply_chunk_replacements(&mut world, &mut buffer, &mut placeholders, 50);
    assert_eq!(outcomes.len(), 3);
    assert!(buffer.completed.is_empty());
    assert_eq!(buffer.timer_ms, 0);
    assert_eq!(world.chunks.len(), 3);
    // empty meshes: the host creates no render entities
    for o in &outcomes {
        assert!(!o.has_geometry);
    }
}

#[test]
fn test_unload_cancels_in_flight_work() {
    // a chunk queued for unload while its background task is pending: its
    // placeholder and task are dropped, the task budget is freed, and no
    // entry ever appears among the visible chunks
    let pos = ChunkPos { x: 3, y: 0, z: 0 };
    let mut world = VoxelWorld::new();
    let mut queue = ChunkLoadQueue::new();
    let mut buffer = ChunkReplacementBuffer::new();
    let mut placeholders = PlaceholderEntities::new();
    let mut tasks = TaskTracker::new();

    register_placeholder(&mut placeholders, pos, 777);
    queue.to_load.push(pos);
    let dispatched = spawn_mesh_tasks(&mut queue, &placeholders, &mut tasks);
    assert_eq!(dispatched.len(), 1);
    assert_eq!(queue.active_tasks, 1);
    assert!(tasks.has_pos(pos));

    // the observer moves away: the chunk is queued for unload while the
    // task is still in flight
    queue.to_unload.push(pos);
    let despawn = process_chunk_unload(
        &mut world,
        &mut queue,
        &mut buffer,
        &mut placeholders,
        &mut tasks,
    );

    assert!(despawn.contains(&777)); // the placeholder is destroyed
    assert!(!tasks.has_pos(pos)); // the tracking task is gone
    assert_eq!(queue.active_tasks, 0); // the budget is freed
    assert!(placeholders.map.get(pos).is_none());

    // the background result arrives late: it is silently discarded
    assert!(!handle_completed_mesh_task(
        &mut queue,
        &mut buffer,
        &mut tasks,
        pos,
        air_voxels(),
        empty_mesh(),
    ));
    let outcomes = apply_chunk_replacements(&mut world, &mut buffer, &mut placeholders, 1000);
    assert!(outcomes.is_empty());
    // no entry ever appeared for the unloaded coordinate
    assert!(world.loaded_chunks.get(pos).is_none());
    assert!(world.chunks.get(pos).is_none());
}

#[test]
fn test_unload_removes_resident_chunk() {
    let pos = ChunkPos { x: 9, y: 0, z: 0 };
    let mut world = VoxelWorld::new();
    world.chunks.insert(pos, voxworld::ChunkData::new());
    world.loaded_chunks.insert(pos, 4242);
    let mut queue = ChunkLoadQueue::new();
    queue.to_unload.push(pos);
    let mut buffer = ChunkReplacementBuffer::new();
    let mut placeholders = PlaceholderEntities::new();
    let mut tasks = TaskTracker::new();

    let despawn = process_chunk_unload(
        &mut world,
        &mut queue,
        &mut buffer,
        &mut placeholders,
        &mut tasks,
    );
    assert_eq!(despawn, vec![4242]);
    assert!(world.chunks.get(pos).is_none());
    assert!(world.loaded_chunks.get(pos).is_none());
    assert!(queue.to_unload.is_empty());
}

#[test]
fn test_orphan_placeholder_cleanup() {
    let mut placeholders = PlaceholderEntities::new();
    let queue = ChunkLoadQueue::new();
    let mut tasks = TaskTracker::new();
    let kept = ChunkPos { x: 1, y: 1, z: 1 };
    let orphan = ChunkPos { x: 5, y: 5, z: 5 };
    register_placeholder(&mut placeholders, kept, 1);
    register_placeholder(&mut placeholders, orphan, 2);
    tasks.tasks.push(voxworld::ComputeMeshTask { chunk_pos: kept, placeholder_entity: 1 });

    let despawn = cleanup_orphan_placeholders(&mut placeholders, &queue, &tasks);
    assert_eq!(despawn, vec![2]);
    assert!(placeholders.map.get(kept).is_some());
    assert!(placeholders.map.get(orphan).is_none());
}

#[test]
fn test_dispatch_respects_budget_and_order() {
    let mut queue = ChunkLoadQueue::new();
    queue.max_concurrent_tasks = 2;
    let mut placeholders = PlaceholderEntities::new();
    let mut tasks = TaskTracker::new();
    for i in 0..4 {
        let p = ChunkPos { x: i, y: 0, z: 0 };
        queue.to_load.push(p);
        register_placeholder(&mut placeholders, p, 10 + i as u64);
    }
    let dispatched = spawn_mesh_tasks(&mut queue, &placeholders, &mut tasks);
    // only the budget's worth, taken from the front
    assert_eq!(dispatched.len(), 2);
    assert_eq!(dispatched[0].chunk_pos, ChunkPos { x: 0, y: 0, z: 0 });
    assert_eq!(dispatched[0].placeholder_entity, 10);
    assert_eq!(dispatched[1].chunk_pos, ChunkPos { x: 1, y: 0, z: 0 });
    assert_eq!(queue.to_load.len(), 2);
    assert_eq!(queue.active_tasks, 2);
}
