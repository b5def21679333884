use voxworld::streaming::{spawn_batch_placeholders, update_chunk_loading, ChunkLoadQueue, TaskTracker};
use voxworld::world::VoxelWorld;
use voxworld::{ChunkData, ChunkPos};

#[test]
fn test_streaming_scheduling_pass() {
    // observer at chunk (0,0,0), no view filter: after one scheduling
    // pass, to_load holds exactly the in-range coordinates that are not
    // already resident, sorted ascending by squared distance
    let mut world = VoxelWorld::new();
    world.chunks.insert(ChunkPos { x: 1, y: 0, z: 0 }, ChunkData::new());

    let mut queue = ChunkLoadQueue::new();
    let tasks = TaskTracker::new();
    let center = ChunkPos { x: 0, y: 0, z: 0 };
    update_chunk_loading(&world, &mut queue, &tasks, center, None);

    // the box is 17 x 9 x 17 minus the one resident chunk
    assert_eq!(queue.to_load.len(), 17 * 9 * 17 - 1);

    // sorted ascending by squared distance to the center
    let key = |p: &ChunkPos| -> i64 {
        let dx = (p.x - center.x) as i64;
        let dy = (p.y - center.y) as i64;
        let dz = (p.z - center.z) as i64;
        dx * dx + dy * dy + dz * dz
    };
    for w in queue.to_load.windows(2) {
        assert!(key(&w[0]) <= key(&w[1]));
    }

    // nearest first: the center chunk itself leads the queue
    assert_eq!(queue.to_load[0], center);

    // the resident chunk was not rediscovered
    assert!(!queue.to_load.contains(&ChunkPos { x: 1, y: 0, z: 0 }));

    // everything in range, nothing out of range
    for p in &queue.to_load {
        assert!((p.x - center.x).abs() <= 8);
        assert!((p.y - center.y).abs() <= 4);
        assert!((p.z - center.z).abs() <= 8);
    }

    // nothing resident is in range, so nothing is queued for unloading
    assert!(queue.to_unload.is_empty());
}

#[test]
fn test_streaming_unload_out_of_range() {
    let mut world = VoxelWorld::new();
    world.chunks.insert(ChunkPos { x: 40, y: 0, z: 0 }, ChunkData::new());
    let mut queue = ChunkLoadQueue::new();
    let tasks = TaskTracker::new();
    update_chunk_loading(&world, &mut queue, &tasks, ChunkPos { x: 0, y: 0, z: 0 }, None);
    assert_eq!(queue.to_unload, vec![ChunkPos { x: 40, y: 0, z: 0 }]);
}

#[test]
fn test_placeholder_batch_filter() {
    let mut queue = ChunkLoadQueue::new();
    queue.pending_placeholders.push(ChunkPos { x: 1, y: 0, z: 0 });
    queue.pending_placeholders.push(ChunkPos { x: 30, y: 0, z: 0 }); // out of range by now
    let to_create = spawn_batch_placeholders(&mut queue, ChunkPos { x: 0, y: 0, z: 0 }, None);
    assert_eq!(to_create, vec![ChunkPos { x: 1, y: 0, z: 0 }]);
    assert!(queue.pending_placeholders.is_empty());
}
