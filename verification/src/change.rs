//! The per-chunk change log: one entry for every mutation a chunk's state
//! takes during a tick, consumed by external readers (rendering, future
//! synchronization) and cleared at the end of the tick.

use vstd::prelude::*;

use crate::flags::VoxelFlags;
use crate::kind::VoxelKind;

verus! {

/// One recorded mutation of a single voxel. Temperatures and moistures are
/// fixed-point values in thousandths, as everywhere in this crate.
#[derive(Clone, Copy, PartialEq, Eq, Structural, Debug)]
pub enum BlockChange {
    /// The voxel kind changed.
    SetVoxel { idx: usize, prev: VoxelKind, next: VoxelKind },
    /// One flag was set or cleared.
    SetFlag { idx: usize, flag: VoxelFlags, set: bool },
    /// The variant byte changed.
    SetVariant { idx: usize, prev: u8, next: u8 },
    /// The temperature changed, in milli-degrees Celsius.
    SetTemp { idx: usize, temp: i64 },
    /// The moisture changed, in thousandths.
    SetMoisture { idx: usize, moisture: i64 },
}

/// The voxel index a change applies to.
pub open spec fn spec_change_idx(c: BlockChange) -> usize {
    match c {
        BlockChange::SetVoxel { idx, .. } => idx,
        BlockChange::SetFlag { idx, .. } => idx,
        BlockChange::SetVariant { idx, .. } => idx,
        BlockChange::SetTemp { idx, .. } => idx,
        BlockChange::SetMoisture { idx, .. } => idx,
    }
}

/// Whether a change alters visible geometry and so requires a remesh:
/// exactly the kind and variant changes.
pub open spec fn spec_change_needs_remesh(c: BlockChange) -> bool {
    match c {
        BlockChange::SetVoxel { .. } => true,
        BlockChange::SetVariant { .. } => true,
        _ => false,
    }
}

impl BlockChange {
    /// The voxel index this change applies to.
    pub fn idx(&self) -> (r: usize)
        ensures
            r == spec_change_idx(*self),
    {
        match self {
            BlockChange::SetVoxel { idx, .. } => *idx,
            BlockChange::SetFlag { idx, .. } => *idx,
            BlockChange::SetVariant { idx, .. } => *idx,
            BlockChange::SetTemp { idx, .. } => *idx,
            BlockChange::SetMoisture { idx, .. } => *idx,
        }
    }

    /// True exactly when this change alters visible geometry (a kind or
    /// variant change), so the chunk must be remeshed.
    pub fn needs_remesh(&self) -> (r: bool)
        ensures
            r == spec_change_needs_remesh(*self),
    {
        matches!(self, BlockChange::SetVoxel { .. } | BlockChange::SetVariant { .. })
    }
}

} // verus!
