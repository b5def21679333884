//! The thermal domain: a sparse temperature field over each chunk.
//!
//! A cell's effective temperature is its sparse override when present, else
//! the default temperature of its voxel kind. Overrides within a small
//! epsilon of the default are removed, keeping the sparse state minimal.
//! All temperatures are fixed-point milli-degrees Celsius; heat is in
//! millijoules; durations are in milliseconds.

use vstd::prelude::*;

use std::collections::HashMap;

use crate::change::BlockChange;
use crate::chunk::{spec_in_bounds, spec_index, ActiveSet, ChunkData};
use crate::flags::{spec_contains, VoxelFlags};
use crate::kind::{spec_def, VoxelKind};

verus! {

broadcast use vstd::std_specs::hash::group_hash_axioms;

/// Above this temperature a cell carries the hot flag, in milli-degrees.
pub const TEMP_HOT_THRESHOLD: i64 = 100000;

/// Below this temperature a cell carries the cold flag, in milli-degrees.
pub const TEMP_COLD_THRESHOLD: i64 = 0;

/// Overrides closer than this to the default are dropped, in milli-degrees.
pub const TEMP_EPSILON: i64 = 100;

/// A neighbor gradient above this keeps a cell active, in milli-degrees.
pub const GRADIENT_THRESHOLD: i64 = 5000;

/// Ambient temperature for environment exchange, in milli-degrees.
pub const ENV_TEMPERATURE: i64 = 20000;

/// Sparse thermal state of one chunk: only cells that deviate from their
/// kind's default temperature hold an entry.
pub struct ThermalState {
    /// Override temperatures by voxel index, in milli-degrees Celsius.
    pub temp_overrides: HashMap<usize, i64>,
    /// Heat deltas buffered during diffusion, in millijoules, applied in a
    /// second pass so results do not depend on evaluation order.
    pub heat_buffer: Vec<(usize, i64)>,
}

impl ThermalState {
    /// A fresh, empty thermal state.
    pub fn new() -> (r: ThermalState)
        ensures
            r.temp_overrides@ == Map::<usize, i64>::empty(),
            r.heat_buffer@ == Seq::<(usize, i64)>::empty(),
    {
        ThermalState { temp_overrides: HashMap::new(), heat_buffer: Vec::new() }
    }

    /// True when no cell holds an override.
    pub fn is_empty(&self) -> (r: bool)
        ensures
            r == self.temp_overrides@.is_empty(),
    {
        self.temp_overrides.is_empty()
    }

    /// Number of cells holding an override.
    pub fn active_count(&self) -> (r: usize)
        ensures
            r == self.temp_overrides@.len(),
    {
        self.temp_overrides.len()
    }

    /// Drops every override and any buffered heat.
    pub fn clear(&mut self)
        ensures
            final(self).temp_overrides@ == Map::<usize, i64>::empty(),
            final(self).heat_buffer@ == Seq::<(usize, i64)>::empty(),
    {
        self.temp_overrides.clear();
        self.heat_buffer.clear();
    }
}

impl Clone for ThermalState {
    /// A clone holds the same overrides and buffered heat.
    fn clone(&self) -> (r: Self)
        ensures
            r.temp_overrides@ == self.temp_overrides@,
            r.heat_buffer@ == self.heat_buffer@,
    {
        ThermalState {
            temp_overrides: self.temp_overrides.clone(),
            heat_buffer: crate::chunk::clone_plain_vec(&self.heat_buffer),
        }
    }
}

// ===========================================================================
// Index helpers shared by the simulation domains
// ===========================================================================

/// The six neighbor indices of a cell in the Y-major linearization, computed
/// with wrapping arithmetic and no bounds filtering; callers must discard
/// indices that do not name a valid in-chunk neighbor.
pub fn get_neighbor_indices(idx: usize) -> (r: [usize; 6])
    ensures
        r[0] == if idx >= 1 {
            (idx - 1) as usize
        } else {
            usize::MAX
        },
        idx < usize::MAX ==> r[1] == idx + 1,
        r[2] == if idx >= 16 {
            (idx - 16) as usize
        } else {
            (usize::MAX - 15 + idx) as usize
        },
        idx <= usize::MAX - 16 ==> r[3] == idx + 16,
        r[4] == if idx >= 256 {
            (idx - 256) as usize
        } else {
            (usize::MAX - 255 + idx) as usize
        },
        idx <= usize::MAX - 256 ==> r[5] == idx + 256,
{
    [
        idx.wrapping_sub(1),
        idx.wrapping_add(1),
        idx.wrapping_sub(16),
        idx.wrapping_add(16),
        idx.wrapping_sub(256),
        idx.wrapping_add(256),
    ]
}

/// Decodes a linear voxel index into its local coordinate.
pub fn idx_to_xyz(idx: usize) -> (r: (i32, i32, i32))
    requires
        idx < 4096,
    ensures
        r.0 as int == idx as int % 16,
        r.2 as int == (idx as int / 16) % 16,
        r.1 as int == idx as int / 256,
        spec_in_bounds(r.0 as int, r.1 as int, r.2 as int),
        spec_index(r.0 as int, r.1 as int, r.2 as int) == idx as int,
{
    let i = idx as i32;
    let y = i / (16 * 16);
    let remainder = i % (16 * 16);
    let z = remainder / 16;
    let x = remainder % 16;
    (x, y, z)
}

/// Encodes a local coordinate as a linear voxel index.
pub fn xyz_to_idx(x: i32, y: i32, z: i32) -> (r: usize)
    requires
        spec_in_bounds(x as int, y as int, z as int),
    ensures
        r == spec_index(x as int, y as int, z as int),
        r < 4096,
{
    ((y * 16 * 16) + (z * 16) + x) as usize
}

/// True when a local coordinate lies inside the chunk.
pub fn is_in_bounds(x: i32, y: i32, z: i32) -> (r: bool)
    ensures
        r == spec_in_bounds(x as int, y as int, z as int),
{
    x >= 0 && x < 16 && y >= 0 && y < 16 && z >= 0 && z < 16
}

/// The in-chunk neighbors of a cell, in the fixed order -X, +X, -Z, +Z,
/// -Y, +Y, with out-of-chunk neighbors left out.
pub open spec fn spec_valid_neighbors(idx: usize) -> Seq<usize> {
    let x = idx as int % 16;
    let z = (idx as int / 16) % 16;
    let y = idx as int / 256;
    let s0 = Seq::<usize>::empty();
    let s1 = if x > 0 {
        s0.push((idx - 1) as usize)
    } else {
        s0
    };
    let s2 = if x < 15 {
        s1.push((idx + 1) as usize)
    } else {
        s1
    };
    let s3 = if z > 0 {
        s2.push((idx - 16) as usize)
    } else {
        s2
    };
    let s4 = if z < 15 {
        s3.push((idx + 16) as usize)
    } else {
        s3
    };
    let s5 = if y > 0 {
        s4.push((idx - 256) as usize)
    } else {
        s4
    };
    if y < 15 {
        s5.push((idx + 256) as usize)
    } else {
        s5
    }
}

/// Every valid neighbor index is itself a chunk index.
pub proof fn lemma_valid_neighbors_in_range(idx: usize)
    requires
        idx < 4096,
    ensures
        forall|k: int|
            0 <= k < spec_valid_neighbors(idx).len() ==> #[trigger] spec_valid_neighbors(idx)[k]
                < 4096,
        spec_valid_neighbors(idx).len() <= 6,
{
}

/// The in-chunk neighbors of a cell, in the fixed order -X, +X, -Z, +Z,
/// -Y, +Y; neighbors across the chunk boundary are left out.
pub fn get_valid_neighbor_indices(idx: usize) -> (r: Vec<usize>)
    requires
        idx < 4096,
    ensures
        r@ == spec_valid_neighbors(idx),
{
    let (x, y, z) = idx_to_xyz(idx);
    let mut neighbors: Vec<usize> = Vec::new();
    if x > 0 {
        neighbors.push(xyz_to_idx(x - 1, y, z));
    }
    if x < 15 {
        neighbors.push(xyz_to_idx(x + 1, y, z));
    }
    if z > 0 {
        neighbors.push(xyz_to_idx(x, y, z - 1));
    }
    if z < 15 {
        neighbors.push(xyz_to_idx(x, y, z + 1));
    }
    if y > 0 {
        neighbors.push(xyz_to_idx(x, y - 1, z));
    }
    if y < 15 {
        neighbors.push(xyz_to_idx(x, y + 1, z));
    }
    proof {
        assert(neighbors@ =~= spec_valid_neighbors(idx));
    }
    neighbors
}

// ===========================================================================
// The thermal API
// ===========================================================================

/// The default temperature of the voxel kind at `idx`, in milli-degrees.
pub open spec fn spec_default_temp(c: &ChunkData, idx: usize) -> i64 {
    spec_def(c.voxels[idx as int]).props.temperature
}

/// The override temperature at `idx`, when one is present.
pub open spec fn spec_override(c: &ChunkData, idx: usize) -> Option<i64> {
    match c.thermal_state {
        Some(ts) => if ts.temp_overrides@.contains_key(idx) {
            Some(ts.temp_overrides@[idx])
        } else {
            None
        },
        None => None,
    }
}

/// The effective temperature at `idx`: the override when present, else the
/// kind's default.
pub open spec fn spec_get_temp(c: &ChunkData, idx: usize) -> i64 {
    match spec_override(c, idx) {
        Some(t) => t,
        None => spec_default_temp(c, idx),
    }
}

/// Absolute difference of two values, as a mathematical integer.
pub open spec fn abs_diff(a: int, b: int) -> int {
    if a >= b {
        a - b
    } else {
        b - a
    }
}

/// The hot/cold flag word that results from applying a temperature to an
/// existing flag word.
pub open spec fn spec_temp_flag_bits(bits: u16, temp: i64) -> u16 {
    let after_hot: u16 = if temp > TEMP_HOT_THRESHOLD {
        bits | 8
    } else {
        bits & !8
    };
    if temp < TEMP_COLD_THRESHOLD {
        after_hot | 16
    } else {
        after_hot & !16
    }
}

/// The change-log entries recorded when applying a temperature to an
/// existing flag word: one entry per flag that actually toggles, hot first.
pub open spec fn spec_temp_flag_changes(bits: u16, temp: i64, idx: usize) -> Seq<BlockChange> {
    let hot_part: Seq<BlockChange> = if temp > TEMP_HOT_THRESHOLD && !spec_contains(bits, 8) {
        seq![BlockChange::SetFlag { idx, flag: VoxelFlags { bits: 8 }, set: true }]
    } else if !(temp > TEMP_HOT_THRESHOLD) && spec_contains(bits, 8) {
        seq![BlockChange::SetFlag { idx, flag: VoxelFlags { bits: 8 }, set: false }]
    } else {
        Seq::empty()
    };
    let bits1: u16 = if temp > TEMP_HOT_THRESHOLD {
        bits | 8
    } else {
        bits & !8
    };
    let cold_part: Seq<BlockChange> = if temp < TEMP_COLD_THRESHOLD && !spec_contains(bits1, 16) {
        seq![BlockChange::SetFlag { idx, flag: VoxelFlags { bits: 16 }, set: true }]
    } else if !(temp < TEMP_COLD_THRESHOLD) && spec_contains(bits1, 16) {
        seq![BlockChange::SetFlag { idx, flag: VoxelFlags { bits: 16 }, set: false }]
    } else {
        Seq::empty()
    };
    hot_part + cold_part
}

/// Whether a cell must stay in the thermal active set: its temperature
/// deviates noticeably from the default, it burns, a neighbor burns, or a
/// neighbor's temperature differs by more than the gradient threshold.
pub open spec fn spec_should_stay_active(c: &ChunkData, idx: usize) -> bool {
    ||| abs_diff(spec_get_temp(c, idx) as int, spec_default_temp(c, idx) as int) > 1000
    ||| spec_contains(c.flags[idx as int].bits, 1)
    ||| (exists|k: int|
        0 <= k < spec_valid_neighbors(idx).len() && {
            let n = #[trigger] spec_valid_neighbors(idx)[k];
            ||| spec_contains(c.flags[n as int].bits, 1)
            ||| abs_diff(spec_get_temp(c, n) as int, spec_get_temp(c, idx) as int)
                > GRADIENT_THRESHOLD as int
        })
}

/// Read and write access to the temperature field of a chunk.
pub struct ThermalApi;

impl ThermalApi {
    /// The effective temperature of a cell: its override when present, else
    /// the default temperature of its voxel kind.
    pub fn get_temp(chunk: &ChunkData, idx: usize) -> (r: i64)
        requires
            chunk.spec_wf(),
            idx < 4096,
        ensures
            r == spec_get_temp(chunk, idx),
    {
        match &chunk.thermal_state {
            Some(thermal) => {
                match thermal.temp_overrides.get(&idx) {
                    Some(t) => *t,
                    None => chunk.voxels[idx].def().props.temperature,
                }
            },
            None => chunk.voxels[idx].def().props.temperature,
        }
    }

    /// Sets a cell's temperature. An override within `TEMP_EPSILON` of the
    /// kind's default is removed rather than stored, so the effective
    /// temperature snaps back to the default; otherwise the override is
    /// stored and the cell joins the thermal active set. The hot and cold
    /// flags follow the written temperature, and every mutation is recorded
    /// in the change log.
    pub fn set_temp(chunk: &mut ChunkData, idx: usize, temp: i64)
        requires
            old(chunk).spec_wf(),
            idx < 4096,
        ensures
            final(chunk).spec_wf(),
            final(chunk).thermal_state is Some,
            // the resulting override and effective temperature
            abs_diff(temp as int, spec_default_temp(old(chunk), idx) as int) < TEMP_EPSILON as int
                ==> {
                &&& spec_override(final(chunk), idx) is None
                &&& spec_get_temp(final(chunk), idx) == spec_default_temp(old(chunk), idx)
            },
            abs_diff(temp as int, spec_default_temp(old(chunk), idx) as int) >= TEMP_EPSILON as int
                ==> {
                &&& spec_override(final(chunk), idx) == Some(temp)
                &&& spec_get_temp(final(chunk), idx) == temp
            },
            // other cells' overrides are untouched
            forall|k: usize|
                k != idx ==> spec_override(final(chunk), k) == spec_override(old(chunk), k),
            // active set: the cell is added exactly when an override is stored
            forall|i: int|
                final(chunk).active_thermal.spec_contains(i) == (old(
                    chunk,
                ).active_thermal.spec_contains(i) || (i == idx as int && abs_diff(
                    temp as int,
                    spec_default_temp(old(chunk), idx) as int,
                ) >= TEMP_EPSILON as int)),
            // hot/cold flags follow the written temperature
            final(chunk).flags@ == old(chunk).flags@.update(
                idx as int,
                VoxelFlags { bits: spec_temp_flag_bits(old(chunk).flags[idx as int].bits, temp) },
            ),
            // change log: flag toggles, then the temperature change
            final(chunk).changes@ == old(chunk).changes@ + spec_temp_flag_changes(
                old(chunk).flags[idx as int].bits,
                temp,
                idx,
            ) + seq![BlockChange::SetTemp { idx, temp }],
            final(chunk).dirty_blocks@ == old(chunk).dirty_blocks@.push(idx),
            // the diffusion buffer is untouched
            final(chunk).thermal_state->0.heat_buffer@ == (match old(chunk).thermal_state {
                Some(ts) => ts.heat_buffer@,
                None => Seq::<(usize, i64)>::empty(),
            }),
            // everything else is untouched
            final(chunk).voxels == old(chunk).voxels,
            final(chunk).variant == old(chunk).variant,
            final(chunk).is_dirty == old(chunk).is_dirty,
            final(chunk).needs_remesh == old(chunk).needs_remesh,
            final(chunk).active_burning == old(chunk).active_burning,
            final(chunk).active_freezing == old(chunk).active_freezing,
            final(chunk).active_melting == old(chunk).active_melting,
    {
        let default_temp = chunk.voxels[idx].def().props.temperature;

        if chunk.thermal_state.is_none() {
            chunk.thermal_state = Some(ThermalState::new());
        }

        let near_default = {
            let diff = temp as i128 - default_temp as i128;
            -(TEMP_EPSILON as i128) < diff && diff < TEMP_EPSILON as i128
        };

        match &mut chunk.thermal_state {
            Some(thermal) => {
                if near_default {
                    thermal.temp_overrides.remove(&idx);
                } else {
                    thermal.temp_overrides.insert(idx, temp);
                }
            },
            None => {},
        }
        if !near_default {
            chunk.active_thermal.insert(idx);
        }

        Self::update_temp_flags(chunk, idx, temp);

        chunk.changes.push(BlockChange::SetTemp { idx, temp });
        chunk.dirty_blocks.push(idx);
    }

    /// Adds heat to a cell, converted to a temperature delta through the
    /// kind's heat capacity (flooring division); the sum saturates at the
    /// ends of the fixed-point range. A non-positive heat capacity makes
    /// the call a no-op, so no division by zero can occur.
    #[verifier::rlimit(100)]
    pub fn add_heat(chunk: &mut ChunkData, idx: usize, heat: i64)
        requires
            old(chunk).spec_wf(),
            idx < 4096,
        ensures
            final(chunk).spec_wf(),
            spec_def(old(chunk).voxels[idx as int]).props.heat_capacity <= 0 ==> *final(chunk)
                == *old(chunk),
            spec_def(old(chunk).voxels[idx as int]).props.heat_capacity > 0 ==> {
                let cap = spec_def(old(chunk).voxels[idx as int]).props.heat_capacity;
                let new_temp = clamp_i64(
                    spec_get_temp(old(chunk), idx) as int + heat as int / cap as int,
                );
                &&& (abs_diff(new_temp, spec_default_temp(old(chunk), idx) as int)
                    >= TEMP_EPSILON as int ==> spec_get_temp(final(chunk), idx) == new_temp)
                &&& (abs_diff(new_temp, spec_default_temp(old(chunk), idx) as int)
                    < TEMP_EPSILON as int ==> spec_get_temp(final(chunk), idx) == spec_default_temp(
                    old(chunk),
                    idx,
                ))
                &&& (abs_diff(new_temp, spec_default_temp(old(chunk), idx) as int)
                    >= TEMP_EPSILON as int ==> spec_override(final(chunk), idx) == Some(
                    new_temp as i64,
                ))
                &&& (abs_diff(new_temp, spec_default_temp(old(chunk), idx) as int)
                    < TEMP_EPSILON as int ==> spec_override(final(chunk), idx) is None)
                &&& forall|i: int|
                    final(chunk).active_thermal.spec_contains(i) == (old(
                        chunk,
                    ).active_thermal.spec_contains(i) || (i == idx as int && abs_diff(
                        new_temp,
                        spec_default_temp(old(chunk), idx) as int,
                    ) >= TEMP_EPSILON as int))
                &&& final(chunk).flags@ == old(chunk).flags@.update(
                    idx as int,
                    VoxelFlags {
                        bits: spec_temp_flag_bits(
                            old(chunk).flags[idx as int].bits,
                            new_temp as i64,
                        ),
                    },
                )
                &&& final(chunk).changes@ == old(chunk).changes@ + spec_temp_flag_changes(
                    old(chunk).flags[idx as int].bits,
                    new_temp as i64,
                    idx,
                ) + seq![BlockChange::SetTemp { idx, temp: new_temp as i64 }]
                &&& final(chunk).dirty_blocks@ == old(chunk).dirty_blocks@.push(idx)
                &&& forall|k: usize|
                    k != idx ==> spec_override(final(chunk), k) == spec_override(old(chunk), k)
                &&& final(chunk).voxels == old(chunk).voxels
                &&& final(chunk).variant == old(chunk).variant
                &&& final(chunk).is_dirty == old(chunk).is_dirty
                &&& final(chunk).needs_remesh == old(chunk).needs_remesh
                &&& final(chunk).active_burning == old(chunk).active_burning
                &&& final(chunk).active_freezing == old(chunk).active_freezing
                &&& final(chunk).active_melting == old(chunk).active_melting
                &&& forall|i: int|
                    old(chunk).active_thermal.spec_contains(i) ==> final(chunk).active_thermal.spec_contains(i)
                &&& forall|i: int|
                    final(chunk).active_thermal.spec_contains(i)
                        ==> (old(chunk).active_thermal.spec_contains(i) || i == idx as int)
                &&& old(chunk).changes@.is_prefix_of(final(chunk).changes@)
                &&& old(chunk).dirty_blocks@.is_prefix_of(final(chunk).dirty_blocks@)
                &&& final(chunk).thermal_state is Some
                &&& final(chunk).thermal_state->0.heat_buffer@ == (match old(chunk).thermal_state {
                    Some(ts) => ts.heat_buffer@,
                    None => Seq::<(usize, i64)>::empty(),
                })
            },
    {
        let current_temp = Self::get_temp(chunk, idx);
        let heat_capacity = chunk.voxels[idx].def().props.heat_capacity;

        if heat_capacity <= 0 {
            return;
        }

        proof {
            lemma_div_in_i64_range(heat as int, heat_capacity as int);
        }
        let delta_temp = match heat.checked_div_euclid(heat_capacity) {
            Some(d) => d,
            None => 0,
        };
        let new_temp = match current_temp.checked_add(delta_temp) {
            Some(v) => v,
            None => if delta_temp > 0 {
                i64::MAX
            } else {
                i64::MIN
            },
        };
        Self::set_temp(chunk, idx, new_temp);
        proof {
            let cap = spec_def(old(chunk).voxels[idx as int]).props.heat_capacity;
            let nts = clamp_i64(spec_get_temp(old(chunk), idx) as int + heat as int / cap as int);
            assert(current_temp == spec_get_temp(old(chunk), idx));
            assert(chunk.changes@ =~= old(chunk).changes@ + spec_temp_flag_changes(
                old(chunk).flags[idx as int].bits,
                new_temp,
                idx,
            ) + seq![BlockChange::SetTemp { idx, temp: new_temp }]);
        }
    }

    /// Applies the hot and cold flags implied by a temperature, recording a
    /// change-log entry for each flag that toggles.
    fn update_temp_flags(chunk: &mut ChunkData, idx: usize, temp: i64)
        requires
            old(chunk).spec_wf(),
            idx < 4096,
        ensures
            final(chunk).spec_wf(),
            final(chunk).flags@ == old(chunk).flags@.update(
                idx as int,
                VoxelFlags { bits: spec_temp_flag_bits(old(chunk).flags[idx as int].bits, temp) },
            ),
            final(chunk).changes@ == old(chunk).changes@ + spec_temp_flag_changes(
                old(chunk).flags[idx as int].bits,
                temp,
                idx,
            ),
            final(chunk).voxels == old(chunk).voxels,
            final(chunk).variant == old(chunk).variant,
            final(chunk).is_dirty == old(chunk).is_dirty,
            final(chunk).needs_remesh == old(chunk).needs_remesh,
            final(chunk).thermal_state == old(chunk).thermal_state,
            final(chunk).active_thermal == old(chunk).active_thermal,
            final(chunk).active_burning == old(chunk).active_burning,
            final(chunk).active_freezing == old(chunk).active_freezing,
            final(chunk).active_melting == old(chunk).active_melting,
            final(chunk).dirty_blocks == old(chunk).dirty_blocks,
    {
        let ghost bits0 = chunk.flags[idx as int].bits;
        let mut f = chunk.flags[idx];

        if temp > TEMP_HOT_THRESHOLD {
            if !f.contains(VoxelFlags::hot()) {
                f.insert(VoxelFlags::hot());
                chunk.changes.push(
                    BlockChange::SetFlag { idx, flag: VoxelFlags { bits: 8 }, set: true },
                );
            } else {
                f.insert(VoxelFlags::hot());
            }
        } else {
            if f.contains(VoxelFlags::hot()) {
                f.remove(VoxelFlags::hot());
                chunk.changes.push(
                    BlockChange::SetFlag { idx, flag: VoxelFlags { bits: 8 }, set: false },
                );
            } else {
                f.remove(VoxelFlags::hot());
            }
        }
        proof {
            assert(f.bits == if temp > TEMP_HOT_THRESHOLD {
                bits0 | 8
            } else {
                bits0 & !8
            });
        }

        if temp < TEMP_COLD_THRESHOLD {
            if !f.contains(VoxelFlags::cold()) {
                f.insert(VoxelFlags::cold());
                chunk.changes.push(
                    BlockChange::SetFlag { idx, flag: VoxelFlags { bits: 16 }, set: true },
                );
            } else {
                f.insert(VoxelFlags::cold());
            }
        } else {
            if f.contains(VoxelFlags::cold()) {
                f.remove(VoxelFlags::cold());
                chunk.changes.push(
                    BlockChange::SetFlag { idx, flag: VoxelFlags { bits: 16 }, set: false },
                );
            } else {
                f.remove(VoxelFlags::cold());
            }
        }

        chunk.flags[idx] = f;
    }

    /// True when the cell must remain in the thermal active set: it deviates
    /// from its default temperature, burns, or has a burning or strongly
    /// hotter or colder in-chunk neighbor.
    pub fn should_stay_active(chunk: &ChunkData, idx: usize) -> (r: bool)
        requires
            chunk.spec_wf(),
            idx < 4096,
        ensures
            r == spec_should_stay_active(chunk, idx),
    {
        let temp = Self::get_temp(chunk, idx);
        let default_temp = chunk.voxels[idx].def().props.temperature;

        let dev = temp as i128 - default_temp as i128;
        if dev > 1000 || dev < -1000 {
            return true;
        }

        if chunk.flags[idx].contains(VoxelFlags::burning()) {
            return true;
        }

        let neighbors = get_valid_neighbor_indices(idx);
        proof {
            lemma_valid_neighbors_in_range(idx);
        }
        let mut k: usize = 0;
        while k < neighbors.len()
            invariant
                chunk.spec_wf(),
                idx < 4096,
                neighbors@ == spec_valid_neighbors(idx),
                forall|j: int|
                    0 <= j < neighbors@.len() ==> #[trigger] spec_valid_neighbors(idx)[j] < 4096,
                k <= neighbors@.len(),
                abs_diff(spec_get_temp(chunk, idx) as int, spec_default_temp(chunk, idx) as int)
                    <= 1000,
                !spec_contains(chunk.flags[idx as int].bits, 1),
                temp == spec_get_temp(chunk, idx),
                forall|j: int|
                    0 <= j < k ==> {
                        let n = #[trigger] spec_valid_neighbors(idx)[j];
                        !spec_contains(chunk.flags[n as int].bits, 1) && abs_diff(
                            spec_get_temp(chunk, n) as int,
                            spec_get_temp(chunk, idx) as int,
                        ) <= GRADIENT_THRESHOLD as int
                    },
            decreases neighbors@.len() - k,
        {
            let neighbor_idx = neighbors[k];

            if chunk.flags[neighbor_idx].contains(VoxelFlags::burning()) {
                return true;
            }

            let neighbor_temp = Self::get_temp(chunk, neighbor_idx);
            let grad = neighbor_temp as i128 - temp as i128;
            if grad > GRADIENT_THRESHOLD as i128 || grad < -(GRADIENT_THRESHOLD as i128) {
                return true;
            }
            k = k + 1;
        }
        false
    }

    /// Adds a cell and its in-chunk neighbors to the thermal active set, so
    /// diffusion starts evaluating them.
    pub fn activate(chunk: &mut ChunkData, idx: usize)
        requires
            old(chunk).spec_wf(),
            idx < 4096,
        ensures
            final(chunk).spec_wf(),
            forall|i: int|
                final(chunk).active_thermal.spec_contains(i) == (old(
                    chunk,
                ).active_thermal.spec_contains(i) || i == idx as int || (0 <= i < 4096
                    && spec_valid_neighbors(idx).contains(i as usize))),
            final(chunk).voxels == old(chunk).voxels,
            final(chunk).flags == old(chunk).flags,
            final(chunk).variant == old(chunk).variant,
            final(chunk).thermal_state == old(chunk).thermal_state,
            final(chunk).changes == old(chunk).changes,
            final(chunk).dirty_blocks == old(chunk).dirty_blocks,
            final(chunk).is_dirty == old(chunk).is_dirty,
            final(chunk).needs_remesh == old(chunk).needs_remesh,
            final(chunk).active_burning == old(chunk).active_burning,
            final(chunk).active_freezing == old(chunk).active_freezing,
            final(chunk).active_melting == old(chunk).active_melting,
    {
        chunk.active_thermal.insert(idx);

        let neighbors = get_valid_neighbor_indices(idx);
        proof {
            lemma_valid_neighbors_in_range(idx);
        }
        let mut k: usize = 0;
        while k < neighbors.len()
            invariant
                chunk.spec_wf(),
                idx < 4096,
                neighbors@ == spec_valid_neighbors(idx),
                forall|j: int|
                    0 <= j < neighbors@.len() ==> #[trigger] spec_valid_neighbors(idx)[j] < 4096,
                k <= neighbors@.len(),
                forall|i: int|
                    chunk.active_thermal.spec_contains(i) == (old(
                        chunk,
                    ).active_thermal.spec_contains(i) || i == idx as int || (0 <= i < 4096 && (
                    exists|j: int|
                        0 <= j < k && #[trigger] spec_valid_neighbors(idx)[j] == i as usize))),
                chunk.voxels == old(chunk).voxels,
                chunk.flags == old(chunk).flags,
                chunk.variant == old(chunk).variant,
                chunk.thermal_state == old(chunk).thermal_state,
                chunk.changes == old(chunk).changes,
                chunk.dirty_blocks == old(chunk).dirty_blocks,
                chunk.is_dirty == old(chunk).is_dirty,
                chunk.needs_remesh == old(chunk).needs_remesh,
                chunk.active_burning == old(chunk).active_burning,
                chunk.active_freezing == old(chunk).active_freezing,
                chunk.active_melting == old(chunk).active_melting,
            decreases neighbors@.len() - k,
        {
            let n = neighbors[k];
            chunk.active_thermal.insert(n);
            proof {
                let nbs = spec_valid_neighbors(idx);
                assert(nbs[k as int] == n);
                assert forall|i: int|
                    chunk.active_thermal.spec_contains(i) == (old(
                        chunk,
                    ).active_thermal.spec_contains(i) || i == idx as int || (0 <= i < 4096 && (
                    exists|j: int| 0 <= j < k + 1 && #[trigger] nbs[j] == i as usize))) by {
                    if i == n as int {
                        assert(0 <= k < k + 1 && nbs[k as int] == i as usize);
                    }
                }
            }
            k = k + 1;
        }
        proof {
            let nbs = spec_valid_neighbors(idx);
            assert forall|i: int|
                #![trigger chunk.active_thermal.spec_contains(i)]
                (0 <= i < 4096 && (exists|j: int|
                    0 <= j < nbs.len() && #[trigger] nbs[j] == i as usize)) == (0 <= i < 4096
                    && nbs.contains(i as usize)) by {}
        }
    }

    /// Removes a cell from the thermal active set when nothing requires it
    /// to stay active.
    pub fn try_deactivate(chunk: &mut ChunkData, idx: usize)
        requires
            old(chunk).spec_wf(),
            idx < 4096,
        ensures
            final(chunk).spec_wf(),
            spec_should_stay_active(old(chunk), idx) ==> *final(chunk) == *old(chunk),
            !spec_should_stay_active(old(chunk), idx) ==> {
                &&& forall|i: int|
                    final(chunk).active_thermal.spec_contains(i) == (old(
                        chunk,
                    ).active_thermal.spec_contains(i) && i != idx as int)
                &&& final(chunk).voxels == old(chunk).voxels
                &&& final(chunk).flags == old(chunk).flags
                &&& final(chunk).variant == old(chunk).variant
                &&& final(chunk).thermal_state == old(chunk).thermal_state
                &&& final(chunk).changes == old(chunk).changes
                &&& final(chunk).dirty_blocks == old(chunk).dirty_blocks
                &&& final(chunk).needs_remesh == old(chunk).needs_remesh
                &&& final(chunk).is_dirty == old(chunk).is_dirty
                &&& final(chunk).active_burning == old(chunk).active_burning
                &&& final(chunk).active_freezing == old(chunk).active_freezing
                &&& final(chunk).active_melting == old(chunk).active_melting
            },
    {
        if !Self::should_stay_active(chunk, idx) {
            chunk.active_thermal.remove(idx);
        }
    }
}

/// Flooring division of an `i64` by a positive divisor stays in range.
proof fn lemma_div_in_i64_range(heat: int, cap: int)
    requires
        i64::MIN as int <= heat <= i64::MAX as int,
        1 <= cap,
    ensures
        i64::MIN as int <= heat / cap <= i64::MAX as int,
        heat >= 0 ==> 0 <= heat / cap <= heat,
        heat < 0 ==> heat <= heat / cap <= 0,
{
    if heat >= 0 {
        vstd::arithmetic::div_mod::lemma_div_basics_4(heat, cap);
        vstd::arithmetic::div_mod::lemma_div_basics_5(heat, cap);
    } else {
        assert(cap * heat <= heat) by (nonlinear_arith)
            requires
                heat < 0,
                1 <= cap,
        ;
        vstd::arithmetic::div_mod::lemma_div_multiples_vanish(heat, cap);
        vstd::arithmetic::div_mod::lemma_div_is_ordered(cap * heat, heat, cap);
        vstd::arithmetic::div_mod::lemma_div_multiples_vanish(0, cap);
        assert(cap * 0 == 0);
        vstd::arithmetic::div_mod::lemma_div_is_ordered(heat, 0, cap);
    }
}

/// Clamps a mathematical integer into the `i64` range.
pub open spec fn clamp_i64(v: int) -> int {
    if v > i64::MAX as int {
        i64::MAX as int
    } else if v < i64::MIN as int {
        i64::MIN as int
    } else {
        v
    }
}


// ===========================================================================
// Heat diffusion
// ===========================================================================

/// Thermal conductivity of the kind at a cell, in thousandths.
pub open spec fn spec_conductivity(c: &ChunkData, idx: usize) -> i64 {
    spec_def(c.voxels[idx as int]).props.thermal_conductivity
}

/// Environment-exchange coefficient of the kind at a cell, in thousandths.
pub open spec fn spec_env_coef(c: &ChunkData, idx: usize) -> i64 {
    spec_def(c.voxels[idx as int]).props.env_exchange_coef
}

/// Twice the conduction flow into a cell from its first `n` in-chunk
/// neighbors: the sum of `(k_cell + k_neighbor) * (t_neighbor - t_cell)`.
pub open spec fn spec_flow_sum(c: &ChunkData, idx: usize, n: int) -> int
    decreases n,
{
    if n <= 0 {
        0
    } else {
        let nb = spec_valid_neighbors(idx)[n - 1];
        spec_flow_sum(c, idx, n - 1) + (spec_conductivity(c, idx) + spec_conductivity(c, nb)) * (
        spec_get_temp(c, nb) - spec_get_temp(c, idx))
    }
}

/// The net scaled heat flow into a cell over one step: conduction from all
/// in-chunk neighbors plus exchange with the ambient environment, times the
/// elapsed milliseconds. The value is two million times the flow in
/// millijoules, because conductivities and coefficients are in thousandths
/// and the conductivity average halves the sum.
pub open spec fn spec_flow_scaled(c: &ChunkData, idx: usize, dt_ms: i64) -> int {
    spec_flow_sum(c, idx, spec_valid_neighbors(idx).len() as int) * dt_ms + 2 * spec_env_coef(
        c,
        idx,
    ) * (ENV_TEMPERATURE - spec_get_temp(c, idx)) * dt_ms
}

/// The net heat a cell gains over one diffusion step, in millijoules,
/// clamped into the fixed-point range.
pub open spec fn spec_flow_heat(c: &ChunkData, idx: usize, dt_ms: i64) -> i64 {
    clamp_i64(spec_flow_scaled(c, idx, dt_ms) / 2000000) as i64
}

/// The temperature of a cell after one diffusion step over a chunk: an
/// active cell with a nonzero flow takes the flow as heat through its heat
/// capacity (snapping to the default within epsilon, as every temperature
/// write does); every other cell is untouched.
pub open spec fn spec_diffused_temp(c: &ChunkData, k: usize, dt_ms: i64) -> i64 {
    if c.active_thermal.spec_contains(k as int) && spec_flow_heat(c, k, dt_ms) != 0 {
        let cap = spec_def(c.voxels[k as int]).props.heat_capacity;
        if cap <= 0 {
            spec_get_temp(c, k)
        } else {
            let nt = clamp_i64(
                spec_get_temp(c, k) as int + spec_flow_heat(c, k, dt_ms) as int / cap as int,
            ) as i64;
            if abs_diff(nt as int, spec_default_temp(c, k) as int) < TEMP_EPSILON as int {
                spec_default_temp(c, k)
            } else {
                nt
            }
        }
    } else {
        spec_get_temp(c, k)
    }
}

/// The product of two bounded values is bounded by the product of the bounds.
proof fn lemma_mul_bound(a: int, b: int, aa: int, bb: int)
    requires
        0 <= aa,
        0 <= bb,
        -aa <= a <= aa,
        -bb <= b <= bb,
    ensures
        -(aa * bb) <= a * b <= aa * bb,
{
    assert(-(aa * bb) <= a * b <= aa * bb) by (nonlinear_arith)
        requires
            0 <= aa,
            0 <= bb,
            -aa <= a <= aa,
            -bb <= b <= bb,
    ;
}

/// Catalog-wide bounds on the physical properties, used for overflow-freedom.
proof fn lemma_catalog_bounds(k: VoxelKind)
    ensures
        -35000 <= spec_def(k).props.temperature <= 35000,
        0 <= spec_def(k).props.heat_capacity <= 4186,
        0 <= spec_def(k).props.thermal_conductivity <= 2200000,
        0 <= spec_def(k).props.env_exchange_coef <= 1000,
        0 <= spec_def(k).props.heat_release <= 300,
        spec_def(k).props.is_flammable ==> spec_def(k).props.heat_release >= 0,
{
}

/// The net heat flow into one cell over `dt_ms` milliseconds, in
/// millijoules: conduction against each in-chunk neighbor with the averaged
/// conductivity, plus ambient exchange for kinds with a nonzero coefficient.
fn compute_flow(chunk: &ChunkData, idx: usize, dt_ms: i64) -> (r: i64)
    requires
        chunk.spec_wf(),
        idx < 4096,
        0 <= dt_ms <= 3600000,
    ensures
        r == spec_flow_heat(chunk, idx, dt_ms),
{
    let neighbors = get_valid_neighbor_indices(idx);
    proof {
        lemma_valid_neighbors_in_range(idx);
    }
    let t_idx = ThermalApi::get_temp(chunk, idx);
    let k_idx = chunk.voxels[idx].def().props.thermal_conductivity;
    proof {
        lemma_catalog_bounds(chunk.voxels[idx as int]);
    }

    let mut sum: i128 = 0;
    let mut j: usize = 0;
    while j < neighbors.len()
        invariant
            chunk.spec_wf(),
            idx < 4096,
            neighbors@ == spec_valid_neighbors(idx),
            forall|q: int|
                0 <= q < neighbors@.len() ==> #[trigger] spec_valid_neighbors(idx)[q] < 4096,
            j <= neighbors@.len(),
            neighbors@.len() <= 6,
            t_idx == spec_get_temp(chunk, idx),
            k_idx == spec_conductivity(chunk, idx),
            sum == spec_flow_sum(chunk, idx, j as int),
            -(j as int) * 0x1000000000000000000000000 <= sum <= (j as int)
                * 0x1000000000000000000000000,
        decreases neighbors@.len() - j,
    {
        let nb = neighbors[j];
        let t_n = ThermalApi::get_temp(chunk, nb);
        let k_n = chunk.voxels[nb].def().props.thermal_conductivity;
        proof {
            lemma_catalog_bounds(chunk.voxels[nb as int]);
            lemma_mul_bound(
                k_idx as int + k_n as int,
                t_n as int - t_idx as int,
                4400000,
                0x20000000000000000,
            );
            assert(4400000 * 0x20000000000000000 < 0x1000000000000000000000000) by (nonlinear_arith);
        }
        let term: i128 = ((k_idx as i128) + (k_n as i128)) * ((t_n as i128) - (t_idx as i128));
        sum = sum + term;
        j = j + 1;
    }

    let coef = chunk.voxels[idx].def().props.env_exchange_coef;
    proof {
        lemma_mul_bound(
            sum as int,
            dt_ms as int,
            (6 * 0x1000000000000000000000000) as int,
            3600000,
        );
        lemma_mul_bound(
            2 * coef as int,
            ENV_TEMPERATURE as int - t_idx as int,
            2000,
            0x20000000000000000,
        );
        lemma_mul_bound(
            2 * coef as int * (ENV_TEMPERATURE as int - t_idx as int),
            dt_ms as int,
            (2000 * 0x20000000000000000) as int,
            3600000,
        );
    }
    let conduction: i128 = sum * (dt_ms as i128);
    let env: i128 = 2 * (coef as i128) * ((ENV_TEMPERATURE as i128) - (t_idx as i128)) * (
    dt_ms as i128);
    let scaled: i128 = conduction + env;
    let mj: i128 = match scaled.checked_div_euclid(2000000) {
        Some(v) => v,
        None => 0,
    };
    if mj > i64::MAX as i128 {
        i64::MAX
    } else if mj < i64::MIN as i128 {
        i64::MIN
    } else {
        mj as i64
    }
}

/// One diffusion step over a chunk. For every cell in the thermal active
/// set the net heat flow from its neighbors and the environment is computed
/// against the state at entry, buffered, and then applied in a second pass,
/// so the result does not depend on evaluation order within the tick.
/// Afterwards, cells that have settled (no deviation, no burning neighbor,
/// no steep gradient) leave the active set.
/// Collects the net heat flow of every active cell against the current
/// state, keeping only nonzero flows, in ascending cell order.
fn diffusion_collect(chunk: &ChunkData, dt_ms: i64) -> (buffer: Vec<(usize, i64)>)
    requires
        chunk.spec_wf(),
        0 <= dt_ms <= 3600000,
    ensures
        forall|j: int|
            0 <= j < buffer@.len() ==> {
                let (bk, bh) = #[trigger] buffer@[j];
                &&& bk < 4096
                &&& chunk.active_thermal.spec_contains(bk as int)
                &&& bh == spec_flow_heat(chunk, bk, dt_ms)
                &&& bh != 0
            },
        forall|j1: int, j2: int|
            0 <= j1 < j2 < buffer@.len() ==> (#[trigger] buffer@[j1]).0 < (
            #[trigger] buffer@[j2]).0,
        forall|k: usize|
            k < 4096 && chunk.active_thermal.spec_contains(k as int) && spec_flow_heat(
                chunk,
                k,
                dt_ms,
            ) != 0 ==> (exists|j: int|
                0 <= j < buffer@.len() && (#[trigger] buffer@[j]).0 == k),
{
    let mut buffer: Vec<(usize, i64)> = Vec::new();
    let mut p: usize = 0;
    while p < 4096
        invariant
            chunk.spec_wf(),
            0 <= dt_ms <= 3600000,
            p <= 4096,
            forall|j: int|
                0 <= j < buffer@.len() ==> {
                    let (bk, bh) = #[trigger] buffer@[j];
                    &&& bk < p
                    &&& chunk.active_thermal.spec_contains(bk as int)
                    &&& bh == spec_flow_heat(chunk, bk, dt_ms)
                    &&& bh != 0
                },
            forall|j1: int, j2: int|
                0 <= j1 < j2 < buffer@.len() ==> (#[trigger] buffer@[j1]).0 < (
                #[trigger] buffer@[j2]).0,
            forall|k: usize|
                k < p && chunk.active_thermal.spec_contains(k as int) && spec_flow_heat(
                    chunk,
                    k,
                    dt_ms,
                ) != 0 ==> (exists|j: int|
                    0 <= j < buffer@.len() && (#[trigger] buffer@[j]).0 == k),
        decreases 4096 - p,
    {
        if chunk.active_thermal.contains(p) {
            let flow = compute_flow(chunk, p, dt_ms);
            if flow != 0 {
                let ghost buffer_before = buffer@;
                buffer.push((p, flow));
                proof {
                    assert(buffer@[buffer@.len() - 1] == (p, flow));
                    assert forall|k: usize|
                        k < p + 1 && chunk.active_thermal.spec_contains(k as int)
                            && spec_flow_heat(chunk, k, dt_ms) != 0 implies (exists|j: int|
                        0 <= j < buffer@.len() && (#[trigger] buffer@[j]).0 == k) by {
                        if k < p {
                            let j = choose|j: int|
                                0 <= j < buffer_before.len() && (#[trigger] buffer_before[j]).0
                                    == k;
                            assert(buffer@[j].0 == k);
                        } else {
                            assert(buffer@[buffer@.len() - 1].0 == k);
                        }
                    }
                }
            }
        }
        p = p + 1;
    }
    buffer
}

/// Applies a buffer of heat flows, each to its own cell, in order. The
/// buffer lists distinct cells in ascending order, so the cells' resulting
/// temperatures are independent of that order.
fn diffusion_apply(chunk: &mut ChunkData, buffer: &Vec<(usize, i64)>, dt_ms: i64)
    requires
        old(chunk).spec_wf(),
        0 <= dt_ms <= 3600000,
        forall|j: int|
            0 <= j < buffer@.len() ==> {
                let (bk, bh) = #[trigger] buffer@[j];
                &&& bk < 4096
                &&& old(chunk).active_thermal.spec_contains(bk as int)
                &&& bh == spec_flow_heat(old(chunk), bk, dt_ms)
                &&& bh != 0
            },
        forall|j1: int, j2: int|
            0 <= j1 < j2 < buffer@.len() ==> (#[trigger] buffer@[j1]).0 < (
            #[trigger] buffer@[j2]).0,
    ensures
        final(chunk).spec_wf(),
        final(chunk).voxels == old(chunk).voxels,
        final(chunk).variant == old(chunk).variant,
        final(chunk).is_dirty == old(chunk).is_dirty,
        final(chunk).needs_remesh == old(chunk).needs_remesh,
        final(chunk).active_burning == old(chunk).active_burning,
        final(chunk).active_freezing == old(chunk).active_freezing,
        final(chunk).active_melting == old(chunk).active_melting,
        old(chunk).changes@.is_prefix_of(final(chunk).changes@),
        old(chunk).dirty_blocks@.is_prefix_of(final(chunk).dirty_blocks@),
        forall|i2: int|
            final(chunk).active_thermal.spec_contains(i2) == old(
                chunk,
            ).active_thermal.spec_contains(i2),
        forall|k: usize|
            k < 4096 ==> spec_get_temp(final(chunk), k) == (if (exists|j: int|
                0 <= j < buffer@.len() && (#[trigger] buffer@[j]).0 == k) {
                spec_diffused_temp(old(chunk), k, dt_ms)
            } else {
                spec_get_temp(old(chunk), k)
            }),
{
    let ghost entry = *old(chunk);
    let mut i: usize = 0;
    while i < buffer.len()
        invariant
            chunk.spec_wf(),
            0 <= dt_ms <= 3600000,
            entry.spec_wf(),
            entry == *old(chunk),
            chunk.voxels == entry.voxels,
            chunk.variant == entry.variant,
            chunk.is_dirty == entry.is_dirty,
            chunk.needs_remesh == entry.needs_remesh,
            chunk.active_burning == entry.active_burning,
            chunk.active_freezing == entry.active_freezing,
            chunk.active_melting == entry.active_melting,
            entry.changes@.is_prefix_of(chunk.changes@),
            entry.dirty_blocks@.is_prefix_of(chunk.dirty_blocks@),
            i <= buffer@.len(),
            forall|j: int|
                0 <= j < buffer@.len() ==> {
                    let (bk, bh) = #[trigger] buffer@[j];
                    &&& bk < 4096
                    &&& entry.active_thermal.spec_contains(bk as int)
                    &&& bh == spec_flow_heat(&entry, bk, dt_ms)
                    &&& bh != 0
                },
            forall|j1: int, j2: int|
                0 <= j1 < j2 < buffer@.len() ==> (#[trigger] buffer@[j1]).0 < (
                #[trigger] buffer@[j2]).0,
            forall|i2: int|
                chunk.active_thermal.spec_contains(i2) == entry.active_thermal.spec_contains(i2),
            forall|k: usize|
                k < 4096 ==> spec_get_temp(chunk, k) == (if (exists|j: int|
                    0 <= j < i && (#[trigger] buffer@[j]).0 == k) {
                    spec_diffused_temp(&entry, k, dt_ms)
                } else {
                    spec_get_temp(&entry, k)
                }),
        decreases buffer@.len() - i,
    {
        let (bk, bh) = buffer[i];
        let ghost pre = *chunk;
        proof {
            assert forall|j: int| 0 <= j < i implies (#[trigger] buffer@[j]).0 != bk by {
                assert(buffer@[j].0 < buffer@[i as int].0);
            }
            assert(spec_get_temp(&pre, bk) == spec_get_temp(&entry, bk));
        }
        ThermalApi::add_heat(chunk, bk, bh);
        proof {
            let cap = spec_def(entry.voxels[bk as int]).props.heat_capacity;
            assert(spec_default_temp(&pre, bk) == spec_default_temp(&entry, bk));
            if cap <= 0 {
                assert(*chunk == pre);
                assert(spec_diffused_temp(&entry, bk, dt_ms) == spec_get_temp(&entry, bk));
            }
            assert(spec_get_temp(chunk, bk) == spec_diffused_temp(&entry, bk, dt_ms));
            assert forall|i2: int|
                chunk.active_thermal.spec_contains(i2) == entry.active_thermal.spec_contains(
                    i2,
                ) by {
                if i2 == bk as int {
                    assert(entry.active_thermal.spec_contains(bk as int));
                }
            }
            assert forall|k: usize| k < 4096 implies spec_get_temp(chunk, k) == (if (exists|j: int|
                0 <= j < i + 1 && (#[trigger] buffer@[j]).0 == k) {
                spec_diffused_temp(&entry, k, dt_ms)
            } else {
                spec_get_temp(&entry, k)
            }) by {
                if k == bk {
                    assert(buffer@[i as int].0 == k);
                    assert(exists|j: int| 0 <= j < i + 1 && (#[trigger] buffer@[j]).0 == k);
                } else {
                    assert(spec_override(chunk, k) == spec_override(&pre, k));
                    assert(spec_get_temp(chunk, k) == spec_get_temp(&pre, k));
                    if exists|j: int| 0 <= j < i + 1 && (#[trigger] buffer@[j]).0 == k {
                        let j = choose|j: int| 0 <= j < i + 1 && (#[trigger] buffer@[j]).0 == k;
                        assert(j != i);
                        assert(exists|j2: int| 0 <= j2 < i && (#[trigger] buffer@[j2]).0 == k);
                    } else {
                        assert(!(exists|j: int| 0 <= j < i && (#[trigger] buffer@[j]).0 == k));
                    }
                }
            }
        }
        i = i + 1;
    }
}

/// The heat flow into a cell depends only on the voxel kinds and the
/// thermal overrides, not on the active sets or buffered flows.
proof fn lemma_flow_congruence(a: &ChunkData, b: &ChunkData, idx: usize, dt_ms: i64)
    requires
        a.voxels == b.voxels,
        forall|k: usize| spec_override(a, k) == spec_override(b, k),
    ensures
        spec_flow_heat(a, idx, dt_ms) == spec_flow_heat(b, idx, dt_ms),
{
    assert forall|k: usize| spec_get_temp(a, k) == spec_get_temp(b, k) by {}
    assert forall|n: int| 0 <= n implies spec_flow_sum(a, idx, n) == spec_flow_sum(
        b,
        idx,
        n,
    ) by {
        lemma_flow_sum_congruence(a, b, idx, n);
    }
}

/// Helper induction for [`lemma_flow_congruence`].
proof fn lemma_flow_sum_congruence(a: &ChunkData, b: &ChunkData, idx: usize, n: int)
    requires
        a.voxels == b.voxels,
        forall|k: usize| spec_override(a, k) == spec_override(b, k),
    ensures
        spec_flow_sum(a, idx, n) == spec_flow_sum(b, idx, n),
    decreases n,
{
    if n > 0 {
        lemma_flow_sum_congruence(a, b, idx, n - 1);
        assert(spec_get_temp(a, spec_valid_neighbors(idx)[n - 1]) == spec_get_temp(
            b,
            spec_valid_neighbors(idx)[n - 1],
        ));
        assert(spec_get_temp(a, idx) == spec_get_temp(b, idx));
    }
}

/// The diffused temperature depends only on the voxel kinds, the overrides
/// and the active-set membership of the cell itself.
proof fn lemma_diffused_congruence(a: &ChunkData, b: &ChunkData, k: usize, dt_ms: i64)
    requires
        a.voxels == b.voxels,
        forall|k2: usize| spec_override(a, k2) == spec_override(b, k2),
        forall|i: int| a.active_thermal.spec_contains(i) == b.active_thermal.spec_contains(i),
    ensures
        spec_diffused_temp(a, k, dt_ms) == spec_diffused_temp(b, k, dt_ms),
{
    lemma_flow_congruence(a, b, k, dt_ms);
    assert(spec_get_temp(a, k) == spec_get_temp(b, k));
}

/// Removes from the thermal active set every cell that no longer needs
/// evaluation.
fn diffusion_prune(chunk: &mut ChunkData)
    requires
        old(chunk).spec_wf(),
    ensures
        final(chunk).spec_wf(),
        final(chunk).voxels == old(chunk).voxels,
        final(chunk).flags == old(chunk).flags,
        final(chunk).variant == old(chunk).variant,
        final(chunk).is_dirty == old(chunk).is_dirty,
        final(chunk).needs_remesh == old(chunk).needs_remesh,
        final(chunk).thermal_state == old(chunk).thermal_state,
        final(chunk).changes == old(chunk).changes,
        final(chunk).dirty_blocks == old(chunk).dirty_blocks,
        final(chunk).active_burning == old(chunk).active_burning,
        final(chunk).active_freezing == old(chunk).active_freezing,
        final(chunk).active_melting == old(chunk).active_melting,
        forall|i2: int|
            final(chunk).active_thermal.spec_contains(i2) == (old(
                chunk,
            ).active_thermal.spec_contains(i2) && spec_should_stay_active(old(chunk), i2 as usize)),
{
    let ghost mid = *old(chunk);
    let mut r: usize = 0;
    while r < 4096
        invariant
            chunk.spec_wf(),
            mid == *old(chunk),
            mid.spec_wf(),
            r <= 4096,
            chunk.voxels == mid.voxels,
            chunk.flags == mid.flags,
            chunk.variant == mid.variant,
            chunk.is_dirty == mid.is_dirty,
            chunk.needs_remesh == mid.needs_remesh,
            chunk.thermal_state == mid.thermal_state,
            chunk.changes == mid.changes,
            chunk.dirty_blocks == mid.dirty_blocks,
            chunk.active_burning == mid.active_burning,
            chunk.active_freezing == mid.active_freezing,
            chunk.active_melting == mid.active_melting,
            forall|i2: int|
                #![trigger chunk.active_thermal.spec_contains(i2)]
                #![trigger mid.active_thermal.spec_contains(i2)]
                chunk.active_thermal.spec_contains(i2) == (mid.active_thermal.spec_contains(i2) && (
                i2 < r ==> spec_should_stay_active(&mid, i2 as usize))),
        decreases 4096 - r,
    {
        if chunk.active_thermal.contains(r) {
            proof {
                lemma_stay_active_congruence(&mid, chunk, r);
            }
            if !ThermalApi::should_stay_active(chunk, r) {
                chunk.active_thermal.remove(r);
                proof {
                    assert forall|i2: int|
                        #![trigger chunk.active_thermal.spec_contains(i2)]
                        #![trigger mid.active_thermal.spec_contains(i2)]
                        chunk.active_thermal.spec_contains(i2) == (
                        mid.active_thermal.spec_contains(i2) && (i2 < r + 1
                            ==> spec_should_stay_active(&mid, i2 as usize))) by {
                        if i2 == r as int {
                            assert(!spec_should_stay_active(&mid, r));
                        }
                    }
                }
            } else {
                proof {
                    assert forall|i2: int|
                        #![trigger chunk.active_thermal.spec_contains(i2)]
                        #![trigger mid.active_thermal.spec_contains(i2)]
                        chunk.active_thermal.spec_contains(i2) == (
                        mid.active_thermal.spec_contains(i2) && (i2 < r + 1
                            ==> spec_should_stay_active(&mid, i2 as usize))) by {
                        if i2 == r as int {
                            assert(spec_should_stay_active(&mid, r));
                        }
                    }
                }
            }
        } else {
            proof {
                assert forall|i2: int|
                    #![trigger chunk.active_thermal.spec_contains(i2)]
                    #![trigger mid.active_thermal.spec_contains(i2)]
                    chunk.active_thermal.spec_contains(i2) == (mid.active_thermal.spec_contains(
                        i2,
                    ) && (i2 < r + 1 ==> spec_should_stay_active(&mid, i2 as usize))) by {
                    if i2 == r as int {
                        assert(!chunk.active_thermal.spec_contains(r as int));
                        assert(!mid.active_thermal.spec_contains(r as int));
                    }
                }
            }
        }
        r = r + 1;
    }
}

/// One diffusion step over a chunk. For every cell in the thermal active
/// set the net heat flow from its neighbors and the environment is computed
/// against the state at entry, buffered, and then applied in a second pass,
/// so the result does not depend on evaluation order within the tick.
/// Afterwards, cells that have settled (no deviation, no burning neighbor,
/// no steep gradient) leave the active set.
pub fn thermal_diffusion_chunk(chunk: &mut ChunkData, dt_ms: i64)
    requires
        old(chunk).spec_wf(),
        0 <= dt_ms <= 3600000,
    ensures
        final(chunk).spec_wf(),
        final(chunk).voxels == old(chunk).voxels,
        final(chunk).variant == old(chunk).variant,
        final(chunk).is_dirty == old(chunk).is_dirty,
        final(chunk).needs_remesh == old(chunk).needs_remesh,
        final(chunk).active_burning == old(chunk).active_burning,
        final(chunk).active_freezing == old(chunk).active_freezing,
        final(chunk).active_melting == old(chunk).active_melting,
        forall|k: usize|
            k < 4096 ==> spec_get_temp(final(chunk), k) == spec_diffused_temp(
                old(chunk),
                k,
                dt_ms,
            ),
        forall|i: int|
            final(chunk).active_thermal.spec_contains(i) == (old(
                chunk,
            ).active_thermal.spec_contains(i) && spec_should_stay_active(final(chunk), i as usize)),
        old(chunk).changes@.is_prefix_of(final(chunk).changes@),
        old(chunk).dirty_blocks@.is_prefix_of(final(chunk).dirty_blocks@),
{
    if chunk.active_thermal.is_empty() {
        proof {
            assert forall|k: usize| k < 4096 implies spec_get_temp(chunk, k) == spec_diffused_temp(
                chunk,
                k,
                dt_ms,
            ) by {}
        }
        return;
    }

    // First pass: compute every active cell's net flow against the state at
    // entry, keeping only nonzero flows. The buffer is kept visible in the
    // thermal state as the intermediate product of the tick.
    let buffer = diffusion_collect(chunk, dt_ms);
    if chunk.thermal_state.is_none() {
        chunk.thermal_state = Some(ThermalState::new());
    }
    match &mut chunk.thermal_state {
        Some(ts) => {
            ts.heat_buffer = crate::chunk::clone_plain_vec(&buffer);
        },
        None => {},
    }

    let ghost entry = *old(chunk);
    proof {
        assert forall|k: usize| k < 4096 implies spec_get_temp(chunk, k) == spec_get_temp(
            &entry,
            k,
        ) by {}
        assert forall|k: usize| k < 4096 implies spec_flow_heat(chunk, k, dt_ms) == spec_flow_heat(
            &entry,
            k,
            dt_ms,
        ) by {
            lemma_flow_congruence(chunk, &entry, k, dt_ms);
        }
    }
    let ghost staged = *chunk;

    // Second pass: apply the buffered flows as heat.
    diffusion_apply(chunk, &buffer, dt_ms);
    proof {
        assert forall|k: usize| k < 4096 implies spec_get_temp(chunk, k) == (if (exists|j: int|
            0 <= j < buffer@.len() && (#[trigger] buffer@[j]).0 == k) {
            spec_diffused_temp(&staged, k, dt_ms)
        } else {
            spec_get_temp(&entry, k)
        }) by {}
        assert forall|k: usize| k < 4096 implies spec_diffused_temp(&staged, k, dt_ms)
            == spec_diffused_temp(&entry, k, dt_ms) by {
            lemma_diffused_congruence(&staged, &entry, k, dt_ms);
        }
        assert forall|k: usize| k < 4096 implies spec_get_temp(chunk, k) == spec_diffused_temp(
            &entry,
            k,
            dt_ms,
        ) by {
            if entry.active_thermal.spec_contains(k as int) && spec_flow_heat(&entry, k, dt_ms)
                != 0 {
                assert(staged.active_thermal.spec_contains(k as int));
                assert(spec_flow_heat(&staged, k, dt_ms) != 0);
                assert(exists|j: int| 0 <= j < buffer@.len() && (#[trigger] buffer@[j]).0 == k);
            } else {
                assert(spec_diffused_temp(&entry, k, dt_ms) == spec_get_temp(&entry, k));
                if exists|j: int| 0 <= j < buffer@.len() && (#[trigger] buffer@[j]).0 == k {
                    let j = choose|j: int|
                        0 <= j < buffer@.len() && (#[trigger] buffer@[j]).0 == k;
                    assert(staged.active_thermal.spec_contains(k as int));
                    assert(spec_flow_heat(&staged, k, dt_ms) != 0);
                    assert(false);
                }
            }
        }
    }

    // The buffered flows are consumed.
    match &mut chunk.thermal_state {
        Some(ts) => {
            ts.heat_buffer.clear();
        },
        None => {},
    }
    let ghost mid = *chunk;
    proof {
        assert forall|k: usize| k < 4096 implies spec_get_temp(chunk, k) == spec_get_temp(
            &mid,
            k,
        ) by {}
    }

    // Third pass: drop settled cells from the active set.
    diffusion_prune(chunk);

    proof {
        assert forall|i2: int| chunk.active_thermal.spec_contains(i2) == (old(
            chunk,
        ).active_thermal.spec_contains(i2) && spec_should_stay_active(chunk, i2 as usize)) by {
            if 0 <= i2 < 4096 {
                lemma_stay_active_congruence(&mid, chunk, i2 as usize);
            } else {
                assert(!chunk.active_thermal.spec_contains(i2));
                assert(!old(chunk).active_thermal.spec_contains(i2));
            }
        }
    }
}


/// The members listed by `spec_indices_below` are exactly the members of the
/// set, each below the cutoff, listed in ascending order.
pub proof fn lemma_indices_below_members(s: &ActiveSet, n: int)
    requires
        s.wf(),
        0 <= n <= 4096,
    ensures
        forall|q: int|
            0 <= q < s.spec_indices_below(n).len() ==> #[trigger] s.spec_indices_below(n)[q]
                < n,
        forall|q: int|
            0 <= q < s.spec_indices_below(n).len() ==> s.spec_contains(
                #[trigger] s.spec_indices_below(n)[q] as int,
            ),
        forall|k: usize|
            k < n && s.spec_contains(k as int) ==> s.spec_indices_below(n).contains(k),
        forall|q1: int, q2: int|
            0 <= q1 < q2 < s.spec_indices_below(n).len() ==> s.spec_indices_below(n)[q1]
                < s.spec_indices_below(n)[q2],
    decreases n,
{
    if n > 0 {
        lemma_indices_below_members(s, n - 1);
        let prev = s.spec_indices_below(n - 1);
        let cur = s.spec_indices_below(n);
        if s.spec_contains(n - 1) {
            assert(cur == prev.push((n - 1) as usize));
            assert forall|k: usize| k < n && s.spec_contains(k as int) implies cur.contains(
                k,
            ) by {
                if k < n - 1 {
                    assert(prev.contains(k));
                    let q = choose|q: int| 0 <= q < prev.len() && prev[q] == k;
                    assert(cur[q] == k);
                } else {
                    assert(cur[cur.len() - 1] == k);
                }
            }
        } else {
            assert forall|k: usize| k < n && s.spec_contains(k as int) implies cur.contains(
                k,
            ) by {
                assert(k != n - 1);
                assert(prev.contains(k));
            }
        }
    }
}

/// Whether a cell must stay active depends only on the voxel kinds, the
/// flags and the thermal overrides, not on the active sets.
proof fn lemma_stay_active_congruence(a: &ChunkData, b: &ChunkData, idx: usize)
    requires
        a.flags == b.flags,
        a.voxels == b.voxels,
        a.thermal_state == b.thermal_state,
    ensures
        spec_should_stay_active(a, idx) == spec_should_stay_active(b, idx),
{
    assert forall|k: usize| spec_get_temp(a, k) == spec_get_temp(b, k) by {}
    if spec_should_stay_active(a, idx) {
        if !(abs_diff(spec_get_temp(a, idx) as int, spec_default_temp(a, idx) as int) > 1000)
            && !spec_contains(a.flags[idx as int].bits, 1) {
            let k = choose|k: int|
                0 <= k < spec_valid_neighbors(idx).len() && {
                    let n = #[trigger] spec_valid_neighbors(idx)[k];
                    ||| spec_contains(a.flags[n as int].bits, 1)
                    ||| abs_diff(spec_get_temp(a, n) as int, spec_get_temp(a, idx) as int)
                        > GRADIENT_THRESHOLD as int
                };
            assert(0 <= k < spec_valid_neighbors(idx).len() && {
                let n = spec_valid_neighbors(idx)[k];
                ||| spec_contains(b.flags[n as int].bits, 1)
                ||| abs_diff(spec_get_temp(b, n) as int, spec_get_temp(b, idx) as int)
                    > GRADIENT_THRESHOLD as int
            });
        }
    }
    if spec_should_stay_active(b, idx) {
        if !(abs_diff(spec_get_temp(b, idx) as int, spec_default_temp(b, idx) as int) > 1000)
            && !spec_contains(b.flags[idx as int].bits, 1) {
            let k = choose|k: int|
                0 <= k < spec_valid_neighbors(idx).len() && {
                    let n = #[trigger] spec_valid_neighbors(idx)[k];
                    ||| spec_contains(b.flags[n as int].bits, 1)
                    ||| abs_diff(spec_get_temp(b, n) as int, spec_get_temp(b, idx) as int)
                        > GRADIENT_THRESHOLD as int
                };
            assert(0 <= k < spec_valid_neighbors(idx).len() && {
                let n = spec_valid_neighbors(idx)[k];
                ||| spec_contains(a.flags[n as int].bits, 1)
                ||| abs_diff(spec_get_temp(a, n) as int, spec_get_temp(a, idx) as int)
                    > GRADIENT_THRESHOLD as int
            });
        }
    }
}


// ===========================================================================
// Heat sources, color mapping, and a test pattern
// ===========================================================================

/// The heat a burning cell emits over one step, in millijoules: its
/// kind's heat release times the elapsed milliseconds when the cell burns
/// and its kind is flammable with a positive release, else nothing.
pub open spec fn spec_emitted_heat(c: &ChunkData, n: usize, dt_ms: i64) -> int {
    let p = spec_def(c.voxels[n as int]).props;
    if c.active_burning.spec_contains(n as int) && p.is_flammable && p.heat_release > 0 {
        p.heat_release * dt_ms
    } else {
        0
    }
}

/// The heat a cell receives from its first `m` in-chunk neighbors: each
/// burning neighbor sends half its emitted heat split evenly over its own
/// in-chunk neighbors.
pub open spec fn spec_neighbor_heat_sum(c: &ChunkData, k: usize, dt_ms: i64, m: int) -> int
    decreases m,
{
    if m <= 0 {
        0
    } else {
        let n = spec_valid_neighbors(k)[m - 1];
        spec_neighbor_heat_sum(c, k, dt_ms, m - 1) + (spec_emitted_heat(c, n, dt_ms) / 2)
            / spec_valid_neighbors(n).len() as int
    }
}

/// The total heat a cell receives in one heat-source step: half its own
/// emission plus its share of each burning neighbor's emission.
pub open spec fn spec_incoming_heat(c: &ChunkData, k: usize, dt_ms: i64) -> int {
    spec_emitted_heat(c, k, dt_ms) / 2 + spec_neighbor_heat_sum(
        c,
        k,
        dt_ms,
        spec_valid_neighbors(k).len() as int,
    )
}

/// The temperature of a cell after taking a given heat through its heat
/// capacity, with the epsilon snap to the default, exactly as a
/// temperature write behaves.
pub open spec fn spec_heated_temp(c: &ChunkData, k: usize, heat: i64) -> i64 {
    let cap = spec_def(c.voxels[k as int]).props.heat_capacity;
    if cap <= 0 {
        spec_get_temp(c, k)
    } else {
        let nt = clamp_i64(spec_get_temp(c, k) as int + heat as int / cap as int) as i64;
        if abs_diff(nt as int, spec_default_temp(c, k) as int) < TEMP_EPSILON as int {
            spec_default_temp(c, k)
        } else {
            nt
        }
    }
}

/// The temperature of a cell after one heat-source step over a chunk: a
/// cell with nonzero incoming heat takes it through its heat capacity;
/// every other cell is untouched.
pub open spec fn spec_heat_sourced(c: &ChunkData, k: usize, dt_ms: i64) -> i64 {
    if spec_incoming_heat(c, k, dt_ms) != 0 {
        spec_heated_temp(c, k, spec_incoming_heat(c, k, dt_ms) as i64)
    } else {
        spec_get_temp(c, k)
    }
}

/// With no burning cell, no heat is emitted or received.
proof fn lemma_no_burning_no_incoming(c: &ChunkData, k: usize, dt_ms: i64)
    requires
        forall|i: int| !c.active_burning.spec_contains(i),
    ensures
        spec_incoming_heat(c, k, dt_ms) == 0,
{
    lemma_no_burning_sum(c, k, dt_ms, spec_valid_neighbors(k).len() as int);
}

/// Helper induction for [`lemma_no_burning_no_incoming`].
proof fn lemma_no_burning_sum(c: &ChunkData, k: usize, dt_ms: i64, m: int)
    requires
        forall|i: int| !c.active_burning.spec_contains(i),
    ensures
        spec_neighbor_heat_sum(c, k, dt_ms, m) == 0,
    decreases m,
{
    if m > 0 {
        lemma_no_burning_sum(c, k, dt_ms, m - 1);
    }
}

/// Bounds on one heat-source step's sums, used for overflow freedom.
proof fn lemma_incoming_bounds(c: &ChunkData, k: usize, dt_ms: i64, m: int)
    requires
        c.spec_wf(),
        k < 4096,
        0 <= dt_ms <= 3600000,
        0 <= m <= spec_valid_neighbors(k).len(),
    ensures
        0 <= spec_neighbor_heat_sum(c, k, dt_ms, m) <= m * 540000000,
        0 <= spec_emitted_heat(c, k, dt_ms) <= 1080000000,
    decreases m,
{
    lemma_catalog_bounds(c.voxels[k as int]);
    lemma_mul_bound(
        spec_def(c.voxels[k as int]).props.heat_release as int,
        dt_ms as int,
        300,
        3600000,
    );
    if m > 0 {
        lemma_incoming_bounds(c, k, dt_ms, m - 1);
        let n = spec_valid_neighbors(k)[m - 1];
        lemma_valid_neighbors_in_range(k);
        lemma_catalog_bounds(c.voxels[n as int]);
        lemma_mul_bound(
            spec_def(c.voxels[n as int]).props.heat_release as int,
            dt_ms as int,
            300,
            3600000,
        );
        lemma_valid_neighbors_in_range(n);
        lemma_div_in_i64_range(spec_emitted_heat(c, n, dt_ms), 2);
        lemma_div_in_i64_range(
            spec_emitted_heat(c, n, dt_ms) / 2,
            spec_valid_neighbors(n).len() as int,
        );
    }
}

/// The total heat one cell receives in a heat-source step, in millijoules.
fn compute_incoming(chunk: &ChunkData, k: usize, dt_ms: i64) -> (r: i64)
    requires
        chunk.spec_wf(),
        k < 4096,
        0 <= dt_ms <= 3600000,
    ensures
        r as int == spec_incoming_heat(chunk, k, dt_ms),
        0 <= r <= 5000000000,
{
    let neighbors = get_valid_neighbor_indices(k);
    proof {
        lemma_valid_neighbors_in_range(k);
        lemma_incoming_bounds(chunk, k, dt_ms, spec_valid_neighbors(k).len() as int);
    }

    let own_props = chunk.voxels[k].def().props;
    let own_emitted: i64 = if chunk.active_burning.contains(k) && own_props.is_flammable
        && own_props.heat_release > 0 {
        proof {
            lemma_catalog_bounds(chunk.voxels[k as int]);
            lemma_mul_bound(own_props.heat_release as int, dt_ms as int, 300, 3600000);
        }
        own_props.heat_release * dt_ms
    } else {
        0
    };
    let mut total: i64 = match own_emitted.checked_div_euclid(2) {
        Some(v) => v,
        None => 0,
    };

    let mut j: usize = 0;
    while j < neighbors.len()
        invariant
            chunk.spec_wf(),
            k < 4096,
            0 <= dt_ms <= 3600000,
            neighbors@ == spec_valid_neighbors(k),
            forall|q: int|
                0 <= q < neighbors@.len() ==> #[trigger] spec_valid_neighbors(k)[q] < 4096,
            j <= neighbors@.len(),
            neighbors@.len() <= 6,
            total as int == spec_emitted_heat(chunk, k, dt_ms) / 2 + spec_neighbor_heat_sum(
                chunk,
                k,
                dt_ms,
                j as int,
            ),
            0 <= total <= 540000000 + j * 540000000,
        decreases neighbors@.len() - j,
    {
        let n = neighbors[j];
        let n_props = chunk.voxels[n].def().props;
        proof {
            lemma_incoming_bounds(chunk, k, dt_ms, j as int + 1);
            lemma_catalog_bounds(chunk.voxels[n as int]);
            lemma_mul_bound(n_props.heat_release as int, dt_ms as int, 300, 3600000);
            lemma_valid_neighbors_in_range(n);
            lemma_div_in_i64_range(spec_emitted_heat(chunk, n, dt_ms), 2);
            lemma_div_in_i64_range(
                spec_emitted_heat(chunk, n, dt_ms) / 2,
                spec_valid_neighbors(n).len() as int,
            );
        }
        let n_emitted: i64 = if chunk.active_burning.contains(n) && n_props.is_flammable
            && n_props.heat_release > 0 {
            n_props.heat_release * dt_ms
        } else {
            0
        };
        let half: i64 = match n_emitted.checked_div_euclid(2) {
            Some(v) => v,
            None => 0,
        };
        let n_neighbors = get_valid_neighbor_indices(n);
        let share: i64 = match half.checked_div_euclid(n_neighbors.len() as i64) {
            Some(v) => v,
            None => 0,
        };
        total = total + share;
        j = j + 1;
    }
    total
}

/// The heat already stored for a cell in a distinct-key heat buffer, or
/// zero when the buffer holds none.
pub open spec fn spec_buffer_heat(buffer: Seq<(usize, i64)>, k: usize) -> i64 {
    if exists|j: int| 0 <= j < buffer.len() && (#[trigger] buffer[j]).0 == k {
        buffer[choose|j: int| 0 <= j < buffer.len() && (#[trigger] buffer[j]).0 == k].1
    } else {
        0
    }
}

/// Applies a buffer of heats, each to its own cell, in order; the cells
/// are distinct and ascending, so each cell's resulting temperature
/// depends only on its own entry.
fn apply_heat_buffer(chunk: &mut ChunkData, buffer: &Vec<(usize, i64)>)
    requires
        old(chunk).spec_wf(),
        forall|j: int|
            0 <= j < buffer@.len() ==> (#[trigger] buffer@[j]).0 < 4096 && buffer@[j].1 != 0,
        forall|j1: int, j2: int|
            0 <= j1 < j2 < buffer@.len() ==> (#[trigger] buffer@[j1]).0 < (
            #[trigger] buffer@[j2]).0,
    ensures
        final(chunk).spec_wf(),
        final(chunk).voxels == old(chunk).voxels,
        final(chunk).variant == old(chunk).variant,
        final(chunk).is_dirty == old(chunk).is_dirty,
        final(chunk).needs_remesh == old(chunk).needs_remesh,
        final(chunk).active_burning == old(chunk).active_burning,
        final(chunk).active_freezing == old(chunk).active_freezing,
        final(chunk).active_melting == old(chunk).active_melting,
        old(chunk).changes@.is_prefix_of(final(chunk).changes@),
        old(chunk).dirty_blocks@.is_prefix_of(final(chunk).dirty_blocks@),
        forall|i: int|
            old(chunk).active_thermal.spec_contains(i)
                ==> final(chunk).active_thermal.spec_contains(i),
        forall|k: usize|
            k < 4096 ==> spec_get_temp(final(chunk), k) == (if (exists|j: int|
                0 <= j < buffer@.len() && (#[trigger] buffer@[j]).0 == k) {
                spec_heated_temp(old(chunk), k, spec_buffer_heat(buffer@, k))
            } else {
                spec_get_temp(old(chunk), k)
            }),
{
    let ghost entry = *old(chunk);
    let mut i: usize = 0;
    while i < buffer.len()
        invariant
            chunk.spec_wf(),
            entry.spec_wf(),
            entry == *old(chunk),
            chunk.voxels == entry.voxels,
            chunk.variant == entry.variant,
            chunk.is_dirty == entry.is_dirty,
            chunk.needs_remesh == entry.needs_remesh,
            chunk.active_burning == entry.active_burning,
            chunk.active_freezing == entry.active_freezing,
            chunk.active_melting == entry.active_melting,
            entry.changes@.is_prefix_of(chunk.changes@),
            entry.dirty_blocks@.is_prefix_of(chunk.dirty_blocks@),
            i <= buffer@.len(),
            forall|j: int|
                0 <= j < buffer@.len() ==> (#[trigger] buffer@[j]).0 < 4096 && buffer@[j].1 != 0,
            forall|j1: int, j2: int|
                0 <= j1 < j2 < buffer@.len() ==> (#[trigger] buffer@[j1]).0 < (
                #[trigger] buffer@[j2]).0,
            forall|i2: int|
                entry.active_thermal.spec_contains(i2) ==> chunk.active_thermal.spec_contains(i2),
            forall|k: usize|
                k < 4096 ==> spec_get_temp(chunk, k) == (if (exists|j: int|
                    0 <= j < i && (#[trigger] buffer@[j]).0 == k) {
                    spec_heated_temp(&entry, k, spec_buffer_heat(buffer@, k))
                } else {
                    spec_get_temp(&entry, k)
                }),
        decreases buffer@.len() - i,
    {
        let (bk, bh) = buffer[i];
        let ghost pre = *chunk;
        proof {
            assert forall|j: int| 0 <= j < i implies (#[trigger] buffer@[j]).0 != bk by {
                assert(buffer@[j].0 < buffer@[i as int].0);
            }
            assert(spec_get_temp(&pre, bk) == spec_get_temp(&entry, bk));
        }
        ThermalApi::add_heat(chunk, bk, bh);
        proof {
            let cap = spec_def(entry.voxels[bk as int]).props.heat_capacity;
            assert(spec_default_temp(&pre, bk) == spec_default_temp(&entry, bk));
            if cap <= 0 {
                assert(*chunk == pre);
            }
            assert(buffer@[i as int].0 == bk);
            assert(spec_buffer_heat(buffer@, bk) == bh) by {
                let w = choose|j: int| 0 <= j < buffer@.len() && (#[trigger] buffer@[j]).0 == bk;
                assert(buffer@[w].0 == buffer@[i as int].0);
                if w != i {
                    assert(buffer@[w].0 != buffer@[i as int].0);
                }
            }
            assert(spec_get_temp(chunk, bk) == spec_heated_temp(&entry, bk, bh));
            assert forall|k: usize| k < 4096 implies spec_get_temp(chunk, k) == (if (exists|j: int|
                0 <= j < i + 1 && (#[trigger] buffer@[j]).0 == k) {
                spec_heated_temp(&entry, k, spec_buffer_heat(buffer@, k))
            } else {
                spec_get_temp(&entry, k)
            }) by {
                if k == bk {
                    assert(buffer@[i as int].0 == k);
                    assert(exists|j: int| 0 <= j < i + 1 && (#[trigger] buffer@[j]).0 == k);
                } else {
                    assert(spec_override(chunk, k) == spec_override(&pre, k));
                    assert(spec_get_temp(chunk, k) == spec_get_temp(&pre, k));
                    if exists|j: int| 0 <= j < i + 1 && (#[trigger] buffer@[j]).0 == k {
                        let j = choose|j: int| 0 <= j < i + 1 && (#[trigger] buffer@[j]).0 == k;
                        assert(j != i);
                        assert(exists|j2: int| 0 <= j2 < i && (#[trigger] buffer@[j2]).0 == k);
                    } else {
                        assert(!(exists|j: int| 0 <= j < i && (#[trigger] buffer@[j]).0 == k));
                    }
                }
            }
        }
        i = i + 1;
    }
}

/// One heat-source step over a chunk: every burning cell whose kind is
/// flammable with a positive heat release emits `heat_release * dt`
/// millijoules, half into itself and half split evenly among its in-chunk
/// neighbors; each cell's total incoming heat is gathered first and then
/// applied, so the result does not depend on evaluation order. A chunk
/// with no burning cells is left untouched.
pub fn heat_source_chunk(chunk: &mut ChunkData, dt_ms: i64)
    requires
        old(chunk).spec_wf(),
        0 <= dt_ms <= 3600000,
    ensures
        final(chunk).spec_wf(),
        final(chunk).voxels == old(chunk).voxels,
        final(chunk).variant == old(chunk).variant,
        final(chunk).is_dirty == old(chunk).is_dirty,
        final(chunk).needs_remesh == old(chunk).needs_remesh,
        final(chunk).active_burning == old(chunk).active_burning,
        final(chunk).active_freezing == old(chunk).active_freezing,
        final(chunk).active_melting == old(chunk).active_melting,
        forall|i: int|
            old(chunk).active_thermal.spec_contains(i)
                ==> final(chunk).active_thermal.spec_contains(i),
        old(chunk).changes@.is_prefix_of(final(chunk).changes@),
        old(chunk).dirty_blocks@.is_prefix_of(final(chunk).dirty_blocks@),
        forall|k: usize|
            k < 4096 ==> spec_get_temp(final(chunk), k) == spec_heat_sourced(
                old(chunk),
                k,
                dt_ms,
            ),
        (forall|i: int| !old(chunk).active_burning.spec_contains(i))
            ==> *final(chunk) == *old(chunk),
{
    if chunk.active_burning.is_empty() {
        proof {
            assert forall|k: usize| k < 4096 implies spec_get_temp(chunk, k) == spec_heat_sourced(
                chunk,
                k,
                dt_ms,
            ) by {
                lemma_no_burning_no_incoming(chunk, k, dt_ms);
            }
        }
        return;
    }

    // first pass: gather every cell's incoming heat against the entry state
    let mut buffer: Vec<(usize, i64)> = Vec::new();
    let mut p: usize = 0;
    while p < 4096
        invariant
            chunk.spec_wf(),
            0 <= dt_ms <= 3600000,
            *chunk == *old(chunk),
            p <= 4096,
            forall|j: int|
                0 <= j < buffer@.len() ==> {
                    let (bk, bh) = #[trigger] buffer@[j];
                    &&& bk < p
                    &&& bh as int == spec_incoming_heat(chunk, bk, dt_ms)
                    &&& bh != 0
                },
            forall|j1: int, j2: int|
                0 <= j1 < j2 < buffer@.len() ==> (#[trigger] buffer@[j1]).0 < (
                #[trigger] buffer@[j2]).0,
            forall|k: usize|
                k < p && spec_incoming_heat(chunk, k, dt_ms) != 0 ==> (exists|j: int|
                    0 <= j < buffer@.len() && (#[trigger] buffer@[j]).0 == k),
        decreases 4096 - p,
    {
        let incoming = compute_incoming(chunk, p, dt_ms);
        if incoming != 0 {
            let ghost buffer_before = buffer@;
            buffer.push((p, incoming));
            proof {
                assert(buffer@[buffer@.len() - 1] == (p, incoming));
                assert forall|k: usize|
                    k < p + 1 && spec_incoming_heat(chunk, k, dt_ms) != 0 implies (exists|j: int|
                    0 <= j < buffer@.len() && (#[trigger] buffer@[j]).0 == k) by {
                    if k < p {
                        let j = choose|j: int|
                            0 <= j < buffer_before.len() && (#[trigger] buffer_before[j]).0 == k;
                        assert(buffer@[j].0 == k);
                    } else {
                        assert(buffer@[buffer@.len() - 1].0 == k);
                    }
                }
            }
        }
        p = p + 1;
    }

    // second pass: apply the gathered heats
    let ghost entry = *old(chunk);
    apply_heat_buffer(chunk, &buffer);
    proof {
        assert forall|k: usize| k < 4096 implies spec_get_temp(chunk, k) == spec_heat_sourced(
            &entry,
            k,
            dt_ms,
        ) by {
            if exists|j: int| 0 <= j < buffer@.len() && (#[trigger] buffer@[j]).0 == k {
                let j = choose|j: int| 0 <= j < buffer@.len() && (#[trigger] buffer@[j]).0 == k;
                assert(spec_buffer_heat(buffer@, k) == buffer@[j].1) by {
                    let w = choose|w: int|
                        0 <= w < buffer@.len() && (#[trigger] buffer@[w]).0 == k;
                    if w != j {
                        assert(buffer@[w].0 != buffer@[j].0);
                    }
                }
                assert(buffer@[j].1 as int == spec_incoming_heat(&entry, k, dt_ms));
            } else {
                assert(spec_incoming_heat(&entry, k, dt_ms) == 0);
            }
        }
    }
}

/// The temperature-to-color mapping: cold maps to blue, the ambient range
/// to green, heat to red. Channels are in thousandths.
pub open spec fn spec_temp_to_color(temp: i64) -> (u16, u16, u16) {
    let raw = (temp + 50000) / 550;
    let n: int = if raw < 0 {
        0
    } else if raw > 1000 {
        1000
    } else {
        raw
    };
    if n < 500 {
        (0u16, (2 * n) as u16, (1000 - 2 * n) as u16)
    } else {
        ((2 * (n - 500)) as u16, (1000 - 2 * (n - 500)) as u16, 0u16)
    }
}

/// Maps a temperature in milli-degrees to a display color with channels in
/// thousandths: blue below the range, green in the middle, red above.
pub fn temp_to_color(temp: i64) -> (r: (u16, u16, u16))
    ensures
        r == spec_temp_to_color(temp),
{
    let shifted: i128 = temp as i128 + 50000;
    let raw: i128 = match shifted.checked_div_euclid(550) {
        Some(v) => v,
        None => 0,
    };
    let n: u16 = if raw < 0 {
        0
    } else if raw > 1000 {
        1000
    } else {
        raw as u16
    };
    if n < 500 {
        (0, 2 * n, 1000 - 2 * n)
    } else {
        (2 * (n - 500), 1000 - 2 * (n - 500), 0)
    }
}

/// Stamps three heat sources into a chunk for diffusion experiments: a hot
/// center, a warm corner and a cold corner, each activated together with
/// its neighbors.
pub fn create_test_heat_pattern(chunk: &mut ChunkData)
    requires
        old(chunk).spec_wf(),
    ensures
        final(chunk).spec_wf(),
        spec_get_temp(final(chunk), spec_index(8, 8, 8) as usize) == 500000,
        spec_get_temp(final(chunk), spec_index(2, 8, 2) as usize) == 200000,
        spec_get_temp(final(chunk), spec_index(14, 8, 14) as usize) == -30000i64,
        final(chunk).voxels == old(chunk).voxels,
{
    let center_idx = ChunkData::index(8, 8, 8);
    proof {
        lemma_catalog_bounds(chunk.voxels[center_idx as int]);
    }
    ThermalApi::set_temp(chunk, center_idx, 500000);
    ThermalApi::activate(chunk, center_idx);
    proof {
        assert(spec_override(chunk, center_idx) == Some(500000i64));
    }

    let corner_idx = ChunkData::index(2, 8, 2);
    proof {
        lemma_catalog_bounds(chunk.voxels[corner_idx as int]);
    }
    ThermalApi::set_temp(chunk, corner_idx, 200000);
    ThermalApi::activate(chunk, corner_idx);
    proof {
        assert(center_idx != corner_idx);
        assert(spec_override(chunk, center_idx) == Some(500000i64));
        assert(spec_override(chunk, corner_idx) == Some(200000i64));
    }

    let cold_idx = ChunkData::index(14, 8, 14);
    proof {
        lemma_catalog_bounds(chunk.voxels[cold_idx as int]);
    }
    ThermalApi::set_temp(chunk, cold_idx, -30000);
    ThermalApi::activate(chunk, cold_idx);
    proof {
        assert(cold_idx != center_idx && cold_idx != corner_idx);
        assert(spec_override(chunk, center_idx) == Some(500000i64));
        assert(spec_override(chunk, corner_idx) == Some(200000i64));
        assert(spec_override(chunk, cold_idx) == Some(-30000i64));
    }
}


// ===========================================================================
// Stated laws of the thermal interface
// ===========================================================================

/// Writing a temperature within epsilon of the kind's default eliminates
/// any stored override, and the cell's deviation can no longer keep it in
/// the active set: the deviation condition of
/// [`spec_should_stay_active`] is false afterwards.
pub proof fn lemma_override_elimination(pre: ChunkData, post: ChunkData, idx: usize, temp: i64)
    requires
        pre.spec_wf(),
        idx < 4096,
        abs_diff(temp as int, spec_default_temp(&pre, idx) as int) < TEMP_EPSILON as int,
        // the relation `set_temp` establishes
        spec_override(&post, idx) is None,
        spec_get_temp(&post, idx) == spec_default_temp(&pre, idx),
        post.voxels == pre.voxels,
    ensures
        spec_get_temp(&post, idx) == spec_default_temp(&post, idx),
        abs_diff(spec_get_temp(&post, idx) as int, spec_default_temp(&post, idx) as int) == 0,
{
}

/// Heat direction: with a positive heat capacity, adding heat never
/// lowers the resulting target temperature, and it strictly raises it as
/// soon as the heat reaches one capacity unit (a smaller positive heat
/// rounds to a zero step in the fixed-point model) while the temperature
/// is not at the top of the range. A non-positive heat capacity makes
/// `add_heat` a no-op.
pub proof fn lemma_add_heat_direction(current: i64, heat: i64, cap: i64)
    requires
        cap > 0,
        heat >= 0,
    ensures
        clamp_i64(current as int + heat as int / cap as int) >= current as int,
        heat >= cap && current < i64::MAX ==> clamp_i64(
            current as int + heat as int / cap as int,
        ) > current as int,
{
    let d = heat as int / cap as int;
    assert(d >= 0) by (nonlinear_arith)
        requires
            heat >= 0,
            cap > 0,
            d == heat as int / cap as int,
    ;
    if heat >= cap {
        assert(d >= 1) by (nonlinear_arith)
            requires
                heat >= cap > 0,
                d == heat as int / cap as int,
        ;
    }
}

} // verus!
