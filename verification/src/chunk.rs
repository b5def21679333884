//! Chunk storage: the dense voxel array of one chunk together with its
//! per-voxel auxiliary state, active sets and change log.

use vstd::prelude::*;

use crate::change::BlockChange;
use crate::flags::VoxelFlags;
use crate::kind::{spec_is_transparent, VoxelKind};
use crate::thermal::ThermalState;

verus! {

/// True when a local coordinate lies inside the chunk on all three axes.
pub open spec fn spec_in_bounds(x: int, y: int, z: int) -> bool {
    &&& 0 <= x < 16
    &&& 0 <= y < 16
    &&& 0 <= z < 16
}

/// Linearization of a local coordinate: Y-major, then Z, then X.
/// The same order is used by the generator, the mesher and the simulation.
pub open spec fn spec_index(x: int, y: int, z: int) -> int {
    y * 256 + z * 16 + x
}

/// A set of voxel indices of one chunk, stored as a dense membership array.
/// Used for the per-domain active sets that drive sparse simulation work.
pub struct ActiveSet {
    pub present: Vec<bool>,
}

impl ActiveSet {
    /// Structural invariant: one membership slot per voxel of the chunk.
    pub open spec fn wf(&self) -> bool {
        self.present.len() == 4096
    }

    /// Membership at a (mathematical) index.
    pub open spec fn spec_contains(&self, i: int) -> bool {
        0 <= i < 4096 && self.present[i]
    }

    /// The members below `n`, in ascending order.
    pub open spec fn spec_indices_below(&self, n: int) -> Seq<usize>
        decreases n,
    {
        if n <= 0 {
            Seq::empty()
        } else if self.spec_contains(n - 1) {
            self.spec_indices_below(n - 1).push((n - 1) as usize)
        } else {
            self.spec_indices_below(n - 1)
        }
    }

    /// How many members lie below `n`.
    pub open spec fn spec_count_below(&self, n: int) -> int
        decreases n,
    {
        if n <= 0 {
            0
        } else {
            self.spec_count_below(n - 1) + if self.spec_contains(n - 1) {
                1int
            } else {
                0int
            }
        }
    }

    /// An empty set.
    pub fn new() -> (r: ActiveSet)
        ensures
            r.wf(),
            forall|i: int| !r.spec_contains(i),
    {
        ActiveSet { present: vec![false; 4096] }
    }

    /// Adds an index to the set.
    pub fn insert(&mut self, idx: usize)
        requires
            old(self).wf(),
            idx < 4096,
        ensures
            final(self).wf(),
            forall|i: int|
                final(self).spec_contains(i) == (old(self).spec_contains(i) || i == idx),
    {
        self.present[idx] = true;
    }

    /// Removes an index from the set.
    pub fn remove(&mut self, idx: usize)
        requires
            old(self).wf(),
            idx < 4096,
        ensures
            final(self).wf(),
            forall|i: int|
                final(self).spec_contains(i) == (old(self).spec_contains(i) && i != idx),
    {
        self.present[idx] = false;
    }

    /// Membership test.
    pub fn contains(&self, idx: usize) -> (r: bool)
        requires
            self.wf(),
        ensures
            r == self.spec_contains(idx as int),
    {
        idx < 4096 && self.present[idx]
    }

    /// Number of members.
    pub fn count(&self) -> (r: usize)
        requires
            self.wf(),
        ensures
            r == self.spec_count_below(4096),
    {
        let mut n: usize = 0;
        let mut i: usize = 0;
        while i < 4096
            invariant
                self.wf(),
                i <= 4096,
                n == self.spec_count_below(i as int),
                n <= i,
            decreases 4096 - i,
        {
            if self.present[i] {
                n = n + 1;
            }
            i = i + 1;
        }
        n
    }

    /// True when the set has no members.
    pub fn is_empty(&self) -> (r: bool)
        requires
            self.wf(),
        ensures
            r == (forall|i: int| !self.spec_contains(i)),
    {
        let mut i: usize = 0;
        while i < 4096
            invariant
                self.wf(),
                i <= 4096,
                forall|j: int| 0 <= j < i ==> !self.spec_contains(j),
            decreases 4096 - i,
        {
            if self.present[i] {
                proof {
                    assert(self.spec_contains(i as int));
                }
                return false;
            }
            i = i + 1;
        }
        true
    }

    /// All members, in ascending index order.
    pub fn to_indices(&self) -> (r: Vec<usize>)
        requires
            self.wf(),
        ensures
            r@ == self.spec_indices_below(4096),
            forall|k: int| 0 <= k < r@.len() ==> self.spec_contains(#[trigger] r@[k] as int),
    {
        let mut out: Vec<usize> = Vec::new();
        let mut i: usize = 0;
        while i < 4096
            invariant
                self.wf(),
                i <= 4096,
                out@ == self.spec_indices_below(i as int),
                forall|k: int| 0 <= k < out@.len() ==> self.spec_contains(#[trigger] out@[k] as int),
            decreases 4096 - i,
        {
            if self.present[i] {
                out.push(i);
            }
            i = i + 1;
        }
        out
    }
}

/// Copies a vector of plain values element for element.
pub fn clone_plain_vec<T: Copy>(v: &Vec<T>) -> (r: Vec<T>)
    ensures
        r@ == v@,
{
    let mut out: Vec<T> = Vec::new();
    let mut i: usize = 0;
    while i < v.len()
        invariant
            i <= v.len(),
            out@ == v@.subrange(0, i as int),
        decreases v.len() - i,
    {
        out.push(v[i]);
        i = i + 1;
    }
    proof {
        assert(out@ =~= v@);
    }
    out
}

impl Clone for ActiveSet {
    /// A clone has the same members.
    fn clone(&self) -> (r: Self)
        ensures
            r.present@ == self.present@,
            r.wf() == self.wf(),
            forall|i: int| r.spec_contains(i) == self.spec_contains(i),
    {
        ActiveSet { present: clone_plain_vec(&self.present) }
    }
}

/// Voxel contents and auxiliary state of one chunk.
pub struct ChunkData {
    /// Dense voxel array of length `CHUNK_VOLUME`, linearized Y-major.
    pub voxels: Vec<VoxelKind>,
    /// Set when the chunk was modified and its mesh is stale.
    pub is_dirty: bool,
    /// Per-voxel status flags, parallel to `voxels`.
    pub flags: Vec<VoxelFlags>,
    /// Per-voxel variant or stage byte, parallel to `voxels`.
    pub variant: Vec<u8>,
    /// Sparse thermal state; absent until the first thermal write.
    pub thermal_state: Option<ThermalState>,
    /// Voxels needing per-tick thermal evaluation.
    pub active_thermal: ActiveSet,
    /// Voxels currently burning.
    pub active_burning: ActiveSet,
    /// Voxels currently freezing.
    pub active_freezing: ActiveSet,
    /// Voxels currently melting.
    pub active_melting: ActiveSet,
    /// Indices changed this tick, for incremental consumers.
    pub dirty_blocks: Vec<usize>,
    /// Set when a geometry-affecting change was committed this tick.
    pub needs_remesh: bool,
    /// Append-only change log for this tick.
    pub changes: Vec<BlockChange>,
}

impl ChunkData {
    /// Number of voxels in one chunk.
    pub open spec fn spec_wf(&self) -> bool {
        &&& self.voxels.len() == 4096
        &&& self.flags.len() == 4096
        &&& self.variant.len() == 4096
        &&& self.active_thermal.wf()
        &&& self.active_burning.wf()
        &&& self.active_freezing.wf()
        &&& self.active_melting.wf()
    }

    /// The voxel kind at a local coordinate, or air outside the chunk.
    pub open spec fn spec_get(&self, x: int, y: int, z: int) -> VoxelKind {
        if spec_in_bounds(x, y, z) {
            self.voxels[spec_index(x, y, z)]
        } else {
            VoxelKind::Air
        }
    }

    /// A fresh chunk: all air, no auxiliary state, marked dirty.
    pub fn new() -> (r: ChunkData)
        ensures
            r.spec_wf(),
            forall|i: int| 0 <= i < 4096 ==> r.voxels[i] == VoxelKind::Air,
            forall|i: int| 0 <= i < 4096 ==> r.flags[i].bits == 0,
            forall|i: int| 0 <= i < 4096 ==> r.variant[i] == 0,
            r.is_dirty,
            r.thermal_state is None,
            forall|i: int| !r.active_thermal.spec_contains(i),
            forall|i: int| !r.active_burning.spec_contains(i),
            forall|i: int| !r.active_freezing.spec_contains(i),
            forall|i: int| !r.active_melting.spec_contains(i),
            r.dirty_blocks@ == Seq::<usize>::empty(),
            !r.needs_remesh,
            r.changes@ == Seq::<BlockChange>::empty(),
    {
        ChunkData {
            voxels: vec![VoxelKind::Air; 4096],
            is_dirty: true,
            flags: vec![VoxelFlags { bits: 0 }; 4096],
            variant: vec![0u8; 4096],
            thermal_state: None,
            active_thermal: ActiveSet::new(),
            active_burning: ActiveSet::new(),
            active_freezing: ActiveSet::new(),
            active_melting: ActiveSet::new(),
            dirty_blocks: Vec::new(),
            needs_remesh: false,
            changes: Vec::new(),
        }
    }

    /// Linear index of an in-bounds local coordinate.
    pub fn index(x: i32, y: i32, z: i32) -> (r: usize)
        requires
            spec_in_bounds(x as int, y as int, z as int),
        ensures
            r == spec_index(x as int, y as int, z as int),
            r < 4096,
    {
        ((y * 16 * 16) + (z * 16) + x) as usize
    }

    /// The voxel kind at a local coordinate; air when the coordinate lies
    /// outside the chunk.
    pub fn get(&self, x: i32, y: i32, z: i32) -> (r: VoxelKind)
        requires
            self.spec_wf(),
        ensures
            r == self.spec_get(x as int, y as int, z as int),
    {
        if x < 0 || x >= 16 || y < 0 || y >= 16 || z < 0 || z >= 16 {
            return VoxelKind::Air;
        }
        self.voxels[Self::index(x, y, z)]
    }

    /// Writes the voxel kind at a local coordinate and marks the chunk
    /// dirty. A coordinate outside the chunk leaves the chunk entirely
    /// unchanged, including the dirty flag.
    pub fn set(&mut self, x: i32, y: i32, z: i32, kind: VoxelKind)
        requires
            old(self).spec_wf(),
        ensures
            final(self).spec_wf(),
            spec_in_bounds(x as int, y as int, z as int) ==> {
                &&& final(self).voxels@ == old(self).voxels@.update(
                    spec_index(x as int, y as int, z as int),
                    kind,
                )
                &&& final(self).is_dirty
            },
            !spec_in_bounds(x as int, y as int, z as int) ==> *final(self) == *old(self),
            final(self).flags == old(self).flags,
            final(self).variant == old(self).variant,
            final(self).thermal_state == old(self).thermal_state,
            final(self).active_thermal == old(self).active_thermal,
            final(self).active_burning == old(self).active_burning,
            final(self).active_freezing == old(self).active_freezing,
            final(self).active_melting == old(self).active_melting,
            final(self).dirty_blocks == old(self).dirty_blocks,
            final(self).needs_remesh == old(self).needs_remesh,
            final(self).changes == old(self).changes,
    {
        if x < 0 || x >= 16 || y < 0 || y >= 16 || z < 0 || z >= 16 {
            return;
        }
        let idx = Self::index(x, y, z);
        self.voxels[idx] = kind;
        self.is_dirty = true;
    }

    /// True when every voxel is air; such a chunk needs no mesh.
    pub fn is_empty(&self) -> (r: bool)
        requires
            self.spec_wf(),
        ensures
            r == (forall|i: int| 0 <= i < 4096 ==> self.voxels[i] == VoxelKind::Air),
    {
        let mut i: usize = 0;
        while i < 4096
            invariant
                self.spec_wf(),
                i <= 4096,
                forall|j: int| 0 <= j < i ==> self.voxels[j] == VoxelKind::Air,
            decreases 4096 - i,
        {
            if !matches!(self.voxels[i], VoxelKind::Air) {
                return false;
            }
            i = i + 1;
        }
        true
    }

    /// True when no voxel is transparent; a chunk buried behind opaque
    /// voxels on every side needs no mesh.
    pub fn is_fully_opaque(&self) -> (r: bool)
        requires
            self.spec_wf(),
        ensures
            r == (forall|i: int| 0 <= i < 4096 ==> !spec_is_transparent(self.voxels[i])),
    {
        let mut i: usize = 0;
        while i < 4096
            invariant
                self.spec_wf(),
                i <= 4096,
                forall|j: int| 0 <= j < i ==> !spec_is_transparent(self.voxels[j]),
            decreases 4096 - i,
        {
            if self.voxels[i].is_transparent() {
                return false;
            }
            i = i + 1;
        }
        true
    }

    /// Clears the change log, the incremental dirty list and the remesh
    /// flag at the end of a tick, once external consumers have read them.
    pub fn clear_changes(&mut self)
        ensures
            final(self).dirty_blocks@ == Seq::<usize>::empty(),
            final(self).changes@ == Seq::<BlockChange>::empty(),
            !final(self).needs_remesh,
            final(self).voxels == old(self).voxels,
            final(self).is_dirty == old(self).is_dirty,
            final(self).flags == old(self).flags,
            final(self).variant == old(self).variant,
            final(self).thermal_state == old(self).thermal_state,
            final(self).active_thermal == old(self).active_thermal,
            final(self).active_burning == old(self).active_burning,
            final(self).active_freezing == old(self).active_freezing,
            final(self).active_melting == old(self).active_melting,
    {
        self.dirty_blocks.clear();
        self.changes.clear();
        self.needs_remesh = false;
    }

    /// Total number of active voxels over all simulation domains.
    pub fn active_count(&self) -> (r: usize)
        requires
            self.spec_wf(),
        ensures
            r == self.active_thermal.spec_count_below(4096)
                + self.active_burning.spec_count_below(4096)
                + self.active_freezing.spec_count_below(4096)
                + self.active_melting.spec_count_below(4096),
    {
        proof {
            lemma_count_below_bound(&self.active_thermal, 4096);
            lemma_count_below_bound(&self.active_burning, 4096);
            lemma_count_below_bound(&self.active_freezing, 4096);
            lemma_count_below_bound(&self.active_melting, 4096);
        }
        self.active_thermal.count() + self.active_burning.count() + self.active_freezing.count()
            + self.active_melting.count()
    }
}

/// The number of members below `n` never exceeds `n`.
pub proof fn lemma_count_below_bound(s: &ActiveSet, n: int)
    requires
        0 <= n,
    ensures
        0 <= s.spec_count_below(n) <= n,
    decreases n,
{
    if n > 0 {
        lemma_count_below_bound(s, n - 1);
    }
}

impl Clone for ChunkData {
    /// A clone carries exactly the same voxels and auxiliary state.
    fn clone(&self) -> (r: Self)
        ensures
            r.voxels@ == self.voxels@,
            r.is_dirty == self.is_dirty,
            r.flags@ == self.flags@,
            r.variant@ == self.variant@,
            r.thermal_state is Some == self.thermal_state is Some,
            r.thermal_state is Some ==> {
                &&& r.thermal_state->0.temp_overrides@ == self.thermal_state->0.temp_overrides@
                &&& r.thermal_state->0.heat_buffer@ == self.thermal_state->0.heat_buffer@
            },
            forall|i: int| r.active_thermal.spec_contains(i) == self.active_thermal.spec_contains(i),
            forall|i: int| r.active_burning.spec_contains(i) == self.active_burning.spec_contains(i),
            forall|i: int|
                r.active_freezing.spec_contains(i) == self.active_freezing.spec_contains(i),
            forall|i: int| r.active_melting.spec_contains(i) == self.active_melting.spec_contains(i),
            r.dirty_blocks@ == self.dirty_blocks@,
            r.needs_remesh == self.needs_remesh,
            r.changes@ == self.changes@,
            r.spec_wf() == self.spec_wf(),
    {
        ChunkData {
            voxels: clone_plain_vec(&self.voxels),
            is_dirty: self.is_dirty,
            flags: clone_plain_vec(&self.flags),
            variant: clone_plain_vec(&self.variant),
            thermal_state: match &self.thermal_state {
                Some(t) => Some(t.clone()),
                None => None,
            },
            active_thermal: self.active_thermal.clone(),
            active_burning: self.active_burning.clone(),
            active_freezing: self.active_freezing.clone(),
            active_melting: self.active_melting.clone(),
            dirty_blocks: clone_plain_vec(&self.dirty_blocks),
            needs_remesh: self.needs_remesh,
            changes: clone_plain_vec(&self.changes),
        }
    }
}

} // verus!
