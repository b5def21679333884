//! The world store: resident chunk data and live render entities, keyed by
//! chunk coordinate, with the world-level simulation passes.

use vstd::prelude::*;

use crate::chunk::{spec_in_bounds, spec_index, ChunkData};
use crate::command::{
    commands_for, commit_chunk, resolve_conflicts, spec_apply_cell, spec_cell_state,
    spec_commands_for, spec_resolve, ChunkCommand, CommandQueue,
};
use crate::kind::VoxelKind;
use crate::pos::{ChunkPos, CHUNK_SIZE};
use crate::thermal::{heat_source_chunk, thermal_diffusion_chunk};

verus! {

/// A small association map from chunk coordinates to values, backed by a
/// vector with pairwise-distinct keys.
pub struct PosMap<V> {
    pub entries: Vec<(ChunkPos, V)>,
}

impl<V> PosMap<V> {
    /// Structural invariant: no two entries share a key.
    pub open spec fn wf(&self) -> bool {
        forall|i: int, j: int|
            0 <= i < j < self.entries.len() ==> (#[trigger] self.entries[i]).0 != (
            #[trigger] self.entries[j]).0
    }

    /// Whether some entry holds the key.
    pub open spec fn spec_contains_pos(&self, pos: ChunkPos) -> bool {
        exists|i: int| 0 <= i < self.entries.len() && (#[trigger] self.entries[i]).0 == pos
    }

    /// The value stored under a key, when present.
    pub open spec fn spec_get(&self, pos: ChunkPos) -> Option<V> {
        if self.spec_contains_pos(pos) {
            Some(
                self.entries[choose|i: int|
                    0 <= i < self.entries.len() && (#[trigger] self.entries[i]).0 == pos].1,
            )
        } else {
            None
        }
    }

    /// An empty map.
    pub fn new() -> (r: Self)
        ensures
            r.wf(),
            r.entries@.len() == 0,
            forall|p: ChunkPos| r.spec_get(p) is None,
    {
        PosMap { entries: Vec::new() }
    }

    /// Number of entries.
    pub fn len(&self) -> (r: usize)
        ensures
            r == self.entries@.len(),
    {
        self.entries.len()
    }

    /// The position of the entry holding a key, when present.
    pub fn find(&self, pos: ChunkPos) -> (r: Option<usize>)
        requires
            self.wf(),
        ensures
            match r {
                Some(i) => i < self.entries@.len() && self.entries[i as int].0 == pos
                    && self.spec_get(pos) == Some(self.entries[i as int].1),
                None => !self.spec_contains_pos(pos) && self.spec_get(pos) is None,
            },
    {
        let mut i: usize = 0;
        while i < self.entries.len()
            invariant
                self.wf(),
                i <= self.entries@.len(),
                forall|j: int| 0 <= j < i ==> (#[trigger] self.entries[j]).0 != pos,
            decreases self.entries@.len() - i,
        {
            if self.entries[i].0 == pos {
                proof {
                    let w = choose|k: int|
                        0 <= k < self.entries@.len() && (#[trigger] self.entries[k]).0 == pos;
                    assert(w == i as int);
                }
                return Some(i);
            }
            i = i + 1;
        }
        None
    }

    /// Whether the map holds the key.
    pub fn contains_pos(&self, pos: ChunkPos) -> (r: bool)
        requires
            self.wf(),
        ensures
            r == self.spec_contains_pos(pos),
    {
        matches!(self.find(pos), Some(_))
    }

    /// Borrows the value stored under a key.
    pub fn get(&self, pos: ChunkPos) -> (r: Option<&V>)
        requires
            self.wf(),
        ensures
            match r {
                Some(v) => self.spec_get(pos) == Some(*v),
                None => self.spec_get(pos) is None,
            },
    {
        match self.find(pos) {
            Some(i) => Some(&self.entries[i].1),
            None => None,
        }
    }

    /// Stores a value under a key, replacing any previous value.
    pub fn insert(&mut self, pos: ChunkPos, value: V)
        requires
            old(self).wf(),
        ensures
            final(self).wf(),
            final(self).spec_get(pos) == Some(value),
            forall|p: ChunkPos| p != pos ==> final(self).spec_get(p) == old(self).spec_get(p),
            final(self).entries@.len() <= old(self).entries@.len() + 1,
            // every entry is either the inserted pair or one of the old entries
            forall|i: int|
                0 <= i < final(self).entries@.len() ==> ((#[trigger] final(self).entries@[i]) == (
                pos, value) || old(self).entries@.contains(final(self).entries@[i])),
    {
        let ghost pre = *self;
        match self.find(pos) {
            Some(i) => {
                self.entries[i] = (pos, value);
                proof {
                    assert forall|k: int|
                        0 <= k < self.entries@.len() implies ((#[trigger] self.entries@[k]) == (
                        pos,
                        value,
                    ) || pre.entries@.contains(self.entries@[k])) by {
                        if k != i as int {
                            assert(self.entries@[k] == pre.entries@[k]);
                        }
                    }
                }
                proof {
                    lemma_posmap_update(&pre, self, pos, i as int);
                }
            },
            None => {
                self.entries.push((pos, value));
                proof {
                    lemma_posmap_push(&pre, self, pos);
                    assert forall|k: int|
                        0 <= k < self.entries@.len() implies ((#[trigger] self.entries@[k]) == (
                        pos,
                        value,
                    ) || pre.entries@.contains(self.entries@[k])) by {
                        if k < self.entries@.len() - 1 {
                            assert(self.entries@[k] == pre.entries@[k]);
                        }
                    }
                }
            },
        }
    }

    /// Removes the value stored under a key, returning it.
    pub fn remove(&mut self, pos: ChunkPos) -> (r: Option<V>)
        requires
            old(self).wf(),
        ensures
            final(self).wf(),
            final(self).spec_get(pos) is None,
            forall|p: ChunkPos| p != pos ==> final(self).spec_get(p) == old(self).spec_get(p),
            r == old(self).spec_get(pos),
            final(self).entries@.len() <= old(self).entries@.len(),
            // every remaining entry is one of the old entries
            forall|i: int|
                0 <= i < final(self).entries@.len() ==> old(self).entries@.contains(
                    #[trigger] final(self).entries@[i],
                ),
    {
        let ghost pre = *self;
        match self.find(pos) {
            Some(i) => {
                let (_, v) = self.entries.swap_remove(i);
                proof {
                    lemma_posmap_swap_remove(&pre, self, pos, i as int);
                    assert forall|k: int|
                        0 <= k < self.entries@.len() implies pre.entries@.contains(
                        #[trigger] self.entries@[k],
                    ) by {
                        if k == i as int {
                            assert(self.entries@[k] == pre.entries@[pre.entries@.len() - 1]);
                        } else {
                            assert(self.entries@[k] == pre.entries@[k]);
                        }
                    }
                }
                Some(v)
            },
            None => {
                proof {
                    assert forall|k: int|
                        0 <= k < self.entries@.len() implies pre.entries@.contains(
                        #[trigger] self.entries@[k],
                    ) by {}
                }
                None
            },
        }
    }
}

/// After replacing the entry at a key's position, lookups behave as a map
/// update.
proof fn lemma_posmap_update<V>(pre: &PosMap<V>, post: &PosMap<V>, pos: ChunkPos, i: int)
    requires
        pre.wf(),
        0 <= i < pre.entries.len(),
        pre.entries[i].0 == pos,
        post.entries@ == pre.entries@.update(i, (pos, post.entries[i].1)),
    ensures
        post.wf(),
        post.spec_get(pos) == Some(post.entries[i].1),
        forall|p: ChunkPos| p != pos ==> post.spec_get(p) == pre.spec_get(p),
{
    assert forall|p: ChunkPos| p != pos implies post.spec_get(p) == pre.spec_get(p) by {
        if pre.spec_contains_pos(p) {
            let w = choose|k: int|
                0 <= k < pre.entries@.len() && (#[trigger] pre.entries[k]).0 == p;
            assert(post.entries[w].0 == p);
            if post.spec_contains_pos(p) {
                let w2 = choose|k: int|
                    0 <= k < post.entries@.len() && (#[trigger] post.entries[k]).0 == p;
                assert(pre.entries[w2].0 == p);
                assert(w2 == w);
            }
        } else {
            if post.spec_contains_pos(p) {
                let w2 = choose|k: int|
                    0 <= k < post.entries@.len() && (#[trigger] post.entries[k]).0 == p;
                assert(pre.entries[w2].0 == p);
            }
        }
    }
    assert(post.spec_contains_pos(pos));
    let w = choose|k: int| 0 <= k < post.entries@.len() && (#[trigger] post.entries[k]).0 == pos;
    assert(w == i);
}

/// After pushing a fresh key, lookups behave as a map insert.
proof fn lemma_posmap_push<V>(pre: &PosMap<V>, post: &PosMap<V>, pos: ChunkPos)
    requires
        pre.wf(),
        !pre.spec_contains_pos(pos),
        post.entries@ == pre.entries@.push((pos, post.entries[post.entries@.len() - 1].1)),
    ensures
        post.wf(),
        post.spec_get(pos) == Some(post.entries[post.entries@.len() - 1].1),
        forall|p: ChunkPos| p != pos ==> post.spec_get(p) == pre.spec_get(p),
{
    let n = pre.entries@.len() as int;
    assert forall|i: int, j: int| 0 <= i < j < post.entries.len() implies (
    #[trigger] post.entries[i]).0 != (#[trigger] post.entries[j]).0 by {
        if j == n {
            assert(pre.entries[i].0 != pos);
        }
    }
    assert(post.entries[n].0 == pos);
    assert(post.spec_contains_pos(pos));
    let w = choose|k: int| 0 <= k < post.entries@.len() && (#[trigger] post.entries[k]).0 == pos;
    assert(w == n);
    assert forall|p: ChunkPos| p != pos implies post.spec_get(p) == pre.spec_get(p) by {
        if pre.spec_contains_pos(p) {
            let w2 = choose|k: int|
                0 <= k < pre.entries@.len() && (#[trigger] pre.entries[k]).0 == p;
            assert(post.entries[w2].0 == p);
            if post.spec_contains_pos(p) {
                let w3 = choose|k: int|
                    0 <= k < post.entries@.len() && (#[trigger] post.entries[k]).0 == p;
                assert(w3 == w2);
            }
        } else {
            if post.spec_contains_pos(p) {
                let w3 = choose|k: int|
                    0 <= k < post.entries@.len() && (#[trigger] post.entries[k]).0 == p;
                assert(w3 != n);
                assert(pre.entries[w3].0 == p);
            }
        }
    }
}

/// After swap-removing a key's entry, lookups behave as a map removal.
proof fn lemma_posmap_swap_remove<V>(pre: &PosMap<V>, post: &PosMap<V>, pos: ChunkPos, i: int)
    requires
        pre.wf(),
        0 <= i < pre.entries.len(),
        pre.entries[i].0 == pos,
        post.entries@ == pre.entries@.update(i, pre.entries[pre.entries@.len() - 1]).drop_last(),
    ensures
        post.wf(),
        !post.spec_contains_pos(pos),
        post.spec_get(pos) is None,
        forall|p: ChunkPos| p != pos ==> post.spec_get(p) == pre.spec_get(p),
{
    let n = pre.entries@.len() as int;
    assert forall|a: int, b: int| 0 <= a < b < post.entries.len() implies (
    #[trigger] post.entries[a]).0 != (#[trigger] post.entries[b]).0 by {
        if a == i {
            assert(post.entries[a] == pre.entries[n - 1]);
            assert(pre.entries[b].0 != pre.entries[n - 1].0);
        } else if b == i {
            assert(post.entries[b] == pre.entries[n - 1]);
            assert(pre.entries[a].0 != pre.entries[n - 1].0);
        }
    }
    assert forall|k: int| 0 <= k < post.entries.len() implies (#[trigger] post.entries[k]).0
        != pos by {
        if k == i {
            assert(post.entries[k] == pre.entries[n - 1]);
            if n - 1 != i {
                assert(pre.entries[n - 1].0 != pre.entries[i].0);
            }
        } else {
            assert(post.entries[k] == pre.entries[k]);
            assert(pre.entries[k].0 != pre.entries[i].0);
        }
    }
    assert forall|p: ChunkPos| p != pos implies post.spec_get(p) == pre.spec_get(p) by {
        if pre.spec_contains_pos(p) {
            let w = choose|k: int|
                0 <= k < pre.entries@.len() && (#[trigger] pre.entries[k]).0 == p;
            assert(w != i);
            if w == n - 1 {
                if i < n - 1 {
                    assert(post.entries[i].0 == p);
                    assert(post.spec_contains_pos(p));
                } else {
                    assert(false);
                }
            } else {
                assert(post.entries[w].0 == p);
                assert(post.spec_contains_pos(p));
            }
            let w2 = choose|k: int|
                0 <= k < post.entries@.len() && (#[trigger] post.entries[k]).0 == p;
            if w2 == i {
                assert(post.entries[w2] == pre.entries[n - 1]);
                assert(post.entries[w2].1 == pre.entries[w].1);
            } else {
                assert(post.entries[w2] == pre.entries[w2]);
                assert(w2 == w);
            }
        } else {
            if post.spec_contains_pos(p) {
                let w2 = choose|k: int|
                    0 <= k < post.entries@.len() && (#[trigger] post.entries[k]).0 == p;
                if w2 == i {
                    assert(pre.entries[n - 1].0 == p);
                } else {
                    assert(pre.entries[w2].0 == p);
                }
            }
        }
    }
}

/// The world: every resident chunk's data, and the render-entity handle of
/// every visible chunk. A chunk can be resident without being visible.
pub struct VoxelWorld {
    /// Chunk contents by chunk coordinate.
    pub chunks: PosMap<ChunkData>,
    /// Render-entity handles (as opaque bit patterns) by chunk coordinate.
    pub loaded_chunks: PosMap<u64>,
}

impl VoxelWorld {
    /// Structural invariant: both maps have distinct keys and every
    /// resident chunk's arrays have the chunk volume.
    pub open spec fn spec_wf(&self) -> bool {
        &&& self.chunks.wf()
        &&& self.loaded_chunks.wf()
        &&& forall|i: int|
            0 <= i < self.chunks.entries.len() ==> (#[trigger] self.chunks.entries[i]).1.spec_wf()
    }

    /// An empty world.
    pub fn new() -> (r: VoxelWorld)
        ensures
            r.spec_wf(),
            r.chunks.entries@.len() == 0,
            r.loaded_chunks.entries@.len() == 0,
            forall|p: ChunkPos| r.chunks.spec_get(p) is None,
            forall|p: ChunkPos| r.loaded_chunks.spec_get(p) is None,
    {
        VoxelWorld { chunks: PosMap::new(), loaded_chunks: PosMap::new() }
    }

    /// The voxel kind a world coordinate holds: air when the owning chunk
    /// is not resident, else that chunk's voxel at the local offset.
    pub fn get_voxel(&self, world_x: i32, world_y: i32, world_z: i32) -> (r: VoxelKind)
        requires
            self.spec_wf(),
        ensures
            r == spec_world_voxel(self, world_x as int, world_y as int, world_z as int),
    {
        let chunk_pos = ChunkPos::from_world_pos(world_x, world_y, world_z);
        let local_x = crate::pos::rem_floor_chunk(world_x);
        let local_y = crate::pos::rem_floor_chunk(world_y);
        let local_z = crate::pos::rem_floor_chunk(world_z);

        match self.chunks.get(chunk_pos) {
            Some(chunk) => {
                proof {
                    let w = choose|i: int|
                        0 <= i < self.chunks.entries.len() && (#[trigger] self.chunks.entries[i]).0
                            == chunk_pos;
                    assert(self.chunks.entries[w].1.spec_wf());
                }
                chunk.get(local_x, local_y, local_z)
            },
            None => VoxelKind::Air,
        }
    }

    /// Writes the voxel kind at a world coordinate and marks the owning
    /// chunk dirty; a coordinate in a non-resident chunk is left alone.
    pub fn set_voxel(&mut self, world_x: i32, world_y: i32, world_z: i32, kind: VoxelKind)
        requires
            old(self).spec_wf(),
        ensures
            final(self).spec_wf(),
            final(self).loaded_chunks == old(self).loaded_chunks,
            ({
                let cpos = ChunkPos {
                    x: (world_x as int / 16) as i32,
                    y: (world_y as int / 16) as i32,
                    z: (world_z as int / 16) as i32,
                };
                let lx = world_x as int % 16;
                let ly = world_y as int % 16;
                let lz = world_z as int % 16;
                match old(self).chunks.spec_get(cpos) {
                    Some(c) => {
                        &&& final(self).chunks.spec_get(cpos) is Some
                        &&& final(self).chunks.spec_get(cpos)->0.voxels@ == c.voxels@.update(
                            spec_index(lx, ly, lz),
                            kind,
                        )
                        &&& final(self).chunks.spec_get(cpos)->0.is_dirty
                        &&& final(self).chunks.spec_get(cpos)->0.flags == c.flags
                        &&& final(self).chunks.spec_get(cpos)->0.variant == c.variant
                        &&& final(self).chunks.spec_get(cpos)->0.thermal_state == c.thermal_state
                        &&& final(self).chunks.spec_get(cpos)->0.changes == c.changes
                        &&& final(self).chunks.spec_get(cpos)->0.dirty_blocks == c.dirty_blocks
                        &&& final(self).chunks.spec_get(cpos)->0.needs_remesh == c.needs_remesh
                        &&& final(self).chunks.spec_get(cpos)->0.active_thermal == c.active_thermal
                        &&& final(self).chunks.spec_get(cpos)->0.active_burning == c.active_burning
                        &&& final(self).chunks.spec_get(cpos)->0.active_freezing
                            == c.active_freezing
                        &&& final(self).chunks.spec_get(cpos)->0.active_melting == c.active_melting
                        &&& forall|p: ChunkPos|
                            p != cpos ==> final(self).chunks.spec_get(p) == old(
                                self,
                            ).chunks.spec_get(p)
                    },
                    None => final(self).chunks == old(self).chunks,
                }
            }),
    {
        let chunk_pos = ChunkPos::from_world_pos(world_x, world_y, world_z);
        let local_x = crate::pos::rem_floor_chunk(world_x);
        let local_y = crate::pos::rem_floor_chunk(world_y);
        let local_z = crate::pos::rem_floor_chunk(world_z);

        let ghost pre = *self;
        match self.chunks.find(chunk_pos) {
            Some(i) => {
                proof {
                    assert(self.chunks.entries[i as int].1.spec_wf());
                }
                let entry = &mut self.chunks.entries[i];
                entry.1.set(local_x, local_y, local_z, kind);
                proof {
                    assert(self.chunks.entries@ == pre.chunks.entries@.update(
                        i as int,
                        (chunk_pos, self.chunks.entries[i as int].1),
                    ));
                    lemma_posmap_update(&pre.chunks, &self.chunks, chunk_pos, i as int);
                }
            },
            None => {},
        }
    }
}

/// The voxel kind the world holds at a world coordinate: air when the
/// owning chunk is not resident.
pub open spec fn spec_world_voxel(w: &VoxelWorld, wx: int, wy: int, wz: int) -> VoxelKind {
    let cpos = ChunkPos { x: (wx / 16) as i32, y: (wy / 16) as i32, z: (wz / 16) as i32 };
    match w.chunks.spec_get(cpos) {
        Some(c) => c.spec_get(wx % 16, wy % 16, wz % 16),
        None => VoxelKind::Air,
    }
}

impl Default for VoxelWorld {
    /// The default world is empty.
    fn default() -> (r: Self)
        ensures
            r.spec_wf(),
            r.chunks.entries@.len() == 0,
            r.loaded_chunks.entries@.len() == 0,
    {
        VoxelWorld { chunks: PosMap::new(), loaded_chunks: PosMap::new() }
    }
}

// ===========================================================================
// World-level simulation passes
// ===========================================================================

/// The commit stage: drains the command queue, and for each resident
/// chunk resolves the conflicts among the commands targeting that chunk
/// (set-block priority) and applies the survivors in order. A command
/// touches only its target chunk; every surviving command is consumed
/// exactly once.
pub fn commit_system(world: &mut VoxelWorld, queue: &mut CommandQueue)
    requires
        old(world).spec_wf(),
    ensures
        final(world).spec_wf(),
        final(queue).commands@ == Seq::<ChunkCommand>::empty(),
        final(world).loaded_chunks == old(world).loaded_chunks,
        final(world).chunks.entries.len() == old(world).chunks.entries.len(),
        forall|i: int|
            0 <= i < old(world).chunks.entries.len() ==> (
            #[trigger] final(world).chunks.entries[i]).0 == old(world).chunks.entries[i].0,
        forall|i: int, c: usize|
            #![trigger spec_cell_state(&old(world).chunks.entries[i].1, c)]
            0 <= i < old(world).chunks.entries.len() && c < 4096 ==> {
                let for_chunk = spec_commands_for(
                    old(queue).commands@,
                    old(world).chunks.entries[i].0,
                    old(queue).commands@.len() as int,
                );
                let resolved = spec_resolve(for_chunk, for_chunk.len() as int);
                spec_cell_state(&final(world).chunks.entries[i].1, c) == spec_apply_cell(
                    spec_cell_state(&old(world).chunks.entries[i].1, c),
                    resolved,
                    c,
                    resolved.len() as int,
                )
            },
{
    let commands = crate::chunk::clone_plain_vec(&queue.commands);
    queue.commands.clear();

    let ghost entry_world = *old(world);
    let ghost cmds0 = commands@;
    let n = world.chunks.entries.len();
    let mut i: usize = 0;
    while i < n
        invariant
            world.spec_wf(),
            n == world.chunks.entries.len(),
            n == entry_world.chunks.entries.len(),
            i <= n,
            cmds0 == commands@,
            world.loaded_chunks == entry_world.loaded_chunks,
            forall|k: int|
                0 <= k < n ==> (#[trigger] world.chunks.entries[k]).0
                    == entry_world.chunks.entries[k].0,
            forall|k: int|
                i <= k < n ==> (#[trigger] world.chunks.entries[k]).1
                    == entry_world.chunks.entries[k].1,
            forall|k: int, c: usize|
                #![trigger spec_cell_state(&entry_world.chunks.entries[k].1, c)]
                0 <= k < i && c < 4096 ==> {
                    let for_chunk = spec_commands_for(
                        cmds0,
                        entry_world.chunks.entries[k].0,
                        cmds0.len() as int,
                    );
                    let resolved = spec_resolve(for_chunk, for_chunk.len() as int);
                    spec_cell_state(&world.chunks.entries[k].1, c) == spec_apply_cell(
                        spec_cell_state(&entry_world.chunks.entries[k].1, c),
                        resolved,
                        c,
                        resolved.len() as int,
                    )
                },
        decreases n - i,
    {
        proof {
            assert(world.chunks.entries[i as int].1.spec_wf());
        }
        let pos = world.chunks.entries[i].0;
        let for_chunk = commands_for(&commands, pos);
        let resolved = resolve_conflicts(for_chunk);
        let ghost pre = *world;
        let entry = &mut world.chunks.entries[i];
        commit_chunk(&mut entry.1, &resolved);
        proof {
            assert(world.chunks.entries@ == pre.chunks.entries@.update(
                i as int,
                (pre.chunks.entries[i as int].0, world.chunks.entries[i as int].1),
            ));
        }
        i = i + 1;
    }
}

/// The post stage: clears every resident chunk's change log, incremental
/// dirty list and remesh flag, after external consumers have read them.
pub fn cleanup_changes_system(world: &mut VoxelWorld)
    requires
        old(world).spec_wf(),
    ensures
        final(world).spec_wf(),
        final(world).loaded_chunks == old(world).loaded_chunks,
        final(world).chunks.entries.len() == old(world).chunks.entries.len(),
        forall|i: int|
            0 <= i < old(world).chunks.entries.len() ==> {
                let pre = old(world).chunks.entries[i];
                let post = #[trigger] final(world).chunks.entries[i];
                &&& post.0 == pre.0
                &&& post.1.changes@ == Seq::<crate::change::BlockChange>::empty()
                &&& post.1.dirty_blocks@ == Seq::<usize>::empty()
                &&& !post.1.needs_remesh
                &&& post.1.voxels == pre.1.voxels
                &&& post.1.flags == pre.1.flags
                &&& post.1.variant == pre.1.variant
                &&& post.1.thermal_state == pre.1.thermal_state
                &&& post.1.is_dirty == pre.1.is_dirty
            },
{
    let ghost entry_world = *old(world);
    let n = world.chunks.entries.len();
    let mut i: usize = 0;
    while i < n
        invariant
            world.spec_wf(),
            n == world.chunks.entries.len(),
            n == entry_world.chunks.entries.len(),
            i <= n,
            world.loaded_chunks == entry_world.loaded_chunks,
            forall|k: int|
                0 <= k < n ==> (#[trigger] world.chunks.entries[k]).0
                    == entry_world.chunks.entries[k].0,
            forall|k: int|
                i <= k < n ==> (#[trigger] world.chunks.entries[k]).1
                    == entry_world.chunks.entries[k].1,
            forall|k: int|
                0 <= k < i ==> {
                    let pre = entry_world.chunks.entries[k];
                    let post = #[trigger] world.chunks.entries[k];
                    &&& post.1.changes@ == Seq::<crate::change::BlockChange>::empty()
                    &&& post.1.dirty_blocks@ == Seq::<usize>::empty()
                    &&& !post.1.needs_remesh
                    &&& post.1.voxels == pre.1.voxels
                    &&& post.1.flags == pre.1.flags
                    &&& post.1.variant == pre.1.variant
                    &&& post.1.thermal_state == pre.1.thermal_state
                    &&& post.1.is_dirty == pre.1.is_dirty
                },
        decreases n - i,
    {
        let ghost pre = *world;
        let entry = &mut world.chunks.entries[i];
        entry.1.clear_changes();
        proof {
            assert(world.chunks.entries@ == pre.chunks.entries@.update(
                i as int,
                (pre.chunks.entries[i as int].0, world.chunks.entries[i as int].1),
            ));
        }
        i = i + 1;
    }
}

/// The field-update stage for the thermal domain: one diffusion step over
/// every resident chunk. A non-positive duration is a paused tick and
/// leaves the world untouched.
pub fn thermal_diffusion_system(world: &mut VoxelWorld, dt_ms: i64)
    requires
        old(world).spec_wf(),
        dt_ms <= 3600000,
    ensures
        final(world).spec_wf(),
        final(world).loaded_chunks == old(world).loaded_chunks,
        final(world).chunks.entries.len() == old(world).chunks.entries.len(),
        dt_ms <= 0 ==> *final(world) == *old(world),
        forall|i: int|
            0 <= i < old(world).chunks.entries.len() ==> (
            #[trigger] final(world).chunks.entries[i]).0 == old(world).chunks.entries[i].0,
        dt_ms > 0 ==> forall|i: int|
            0 <= i < old(world).chunks.entries.len() ==> {
                let pre = old(world).chunks.entries[i].1;
                let post = (#[trigger] final(world).chunks.entries[i]).1;
                &&& post.voxels == pre.voxels
                &&& post.variant == pre.variant
                &&& forall|k: usize|
                    k < 4096 ==> crate::thermal::spec_get_temp(&post, k)
                        == crate::thermal::spec_diffused_temp(&pre, k, dt_ms)
                &&& forall|c: int|
                    post.active_thermal.spec_contains(c) == (pre.active_thermal.spec_contains(c)
                        && crate::thermal::spec_should_stay_active(&post, c as usize))
            },
{
    if dt_ms <= 0 {
        return;
    }

    let ghost entry_world = *old(world);
    let n = world.chunks.entries.len();
    let mut i: usize = 0;
    while i < n
        invariant
            world.spec_wf(),
            0 < dt_ms <= 3600000,
            n == world.chunks.entries.len(),
            n == entry_world.chunks.entries.len(),
            i <= n,
            world.loaded_chunks == entry_world.loaded_chunks,
            forall|k: int|
                0 <= k < n ==> (#[trigger] world.chunks.entries[k]).0
                    == entry_world.chunks.entries[k].0,
            forall|k: int|
                i <= k < n ==> (#[trigger] world.chunks.entries[k]).1
                    == entry_world.chunks.entries[k].1,
            forall|k: int|
                0 <= k < i ==> {
                    let pre = entry_world.chunks.entries[k].1;
                    let post = (#[trigger] world.chunks.entries[k]).1;
                    &&& post.voxels == pre.voxels
                    &&& post.variant == pre.variant
                    &&& forall|c: usize|
                        c < 4096 ==> crate::thermal::spec_get_temp(&post, c)
                            == crate::thermal::spec_diffused_temp(&pre, c, dt_ms)
                    &&& forall|c: int|
                        post.active_thermal.spec_contains(c) == (
                        pre.active_thermal.spec_contains(c)
                            && crate::thermal::spec_should_stay_active(&post, c as usize))
                },
        decreases n - i,
    {
        proof {
            assert(world.chunks.entries[i as int].1.spec_wf());
        }
        let ghost pre = *world;
        let entry = &mut world.chunks.entries[i];
        thermal_diffusion_chunk(&mut entry.1, dt_ms);
        proof {
            assert(world.chunks.entries@ == pre.chunks.entries@.update(
                i as int,
                (pre.chunks.entries[i as int].0, world.chunks.entries[i as int].1),
            ));
        }
        i = i + 1;
    }
}

/// The state-update stage for heat sources: every burning, flammable cell
/// with a positive heat release distributes its released heat, half to
/// itself and half among its neighbors. A non-positive duration is a
/// paused tick and leaves the world untouched.
pub fn heat_source_system(world: &mut VoxelWorld, dt_ms: i64)
    requires
        old(world).spec_wf(),
        dt_ms <= 3600000,
    ensures
        final(world).spec_wf(),
        final(world).loaded_chunks == old(world).loaded_chunks,
        final(world).chunks.entries.len() == old(world).chunks.entries.len(),
        dt_ms <= 0 ==> *final(world) == *old(world),
        forall|i: int|
            0 <= i < old(world).chunks.entries.len() ==> (
            #[trigger] final(world).chunks.entries[i]).0 == old(world).chunks.entries[i].0,
        dt_ms > 0 ==> forall|i: int|
            0 <= i < old(world).chunks.entries.len() ==> {
                let pre = old(world).chunks.entries[i].1;
                let post = (#[trigger] final(world).chunks.entries[i]).1;
                &&& post.voxels == pre.voxels
                &&& post.variant == pre.variant
                &&& post.active_burning == pre.active_burning
                &&& forall|c: usize|
                    c < 4096 ==> crate::thermal::spec_get_temp(&post, c)
                        == crate::thermal::spec_heat_sourced(&pre, c, dt_ms)
            },
{
    if dt_ms <= 0 {
        return;
    }

    let ghost entry_world = *old(world);
    let n = world.chunks.entries.len();
    let mut i: usize = 0;
    while i < n
        invariant
            world.spec_wf(),
            0 < dt_ms <= 3600000,
            n == world.chunks.entries.len(),
            n == entry_world.chunks.entries.len(),
            i <= n,
            world.loaded_chunks == entry_world.loaded_chunks,
            forall|k: int|
                0 <= k < n ==> (#[trigger] world.chunks.entries[k]).0
                    == entry_world.chunks.entries[k].0,
            forall|k: int|
                i <= k < n ==> (#[trigger] world.chunks.entries[k]).1
                    == entry_world.chunks.entries[k].1,
            forall|k: int|
                0 <= k < i ==> {
                    let pre = entry_world.chunks.entries[k].1;
                    let post = (#[trigger] world.chunks.entries[k]).1;
                    &&& post.voxels == pre.voxels
                    &&& post.variant == pre.variant
                    &&& post.active_burning == pre.active_burning
                    &&& forall|c: usize|
                        c < 4096 ==> crate::thermal::spec_get_temp(&post, c)
                            == crate::thermal::spec_heat_sourced(&pre, c, dt_ms)
                },
        decreases n - i,
    {
        proof {
            assert(world.chunks.entries[i as int].1.spec_wf());
        }
        let ghost pre = *world;
        let entry = &mut world.chunks.entries[i];
        heat_source_chunk(&mut entry.1, dt_ms);
        proof {
            assert(world.chunks.entries@ == pre.chunks.entries@.update(
                i as int,
                (pre.chunks.entries[i as int].0, world.chunks.entries[i as int].1),
            ));
        }
        i = i + 1;
    }
}

} // verus!
