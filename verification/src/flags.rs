//! Per-voxel status flags: a packed set of independently toggleable boolean
//! attributes, stored as one 16-bit word per voxel.
//!
//! The flags are orthogonal to the voxel kind; simulation systems set and
//! clear them through commands.

use vstd::prelude::*;

verus! {

/// A set of per-voxel status flags packed into a 16-bit word. Each named
/// flag occupies one bit; a value may hold any combination.
#[derive(Clone, Copy, PartialEq, Eq, Structural, Debug, Hash)]
pub struct VoxelFlags {
    pub bits: u16,
}

/// True when every flag of `f` is present in `bits`.
pub open spec fn spec_contains(bits: u16, f: u16) -> bool {
    bits & f == f
}

impl VoxelFlags {
    /// The empty flag set.
    pub fn none() -> (r: Self)
        ensures
            r.bits == 0,
    {
        VoxelFlags { bits: 0 }
    }

    /// On fire with open flame.
    pub fn burning() -> (r: Self)
        ensures
            r.bits == 1,
    {
        VoxelFlags { bits: 1 }
    }

    /// Burnt out.
    pub fn charred() -> (r: Self)
        ensures
            r.bits == 2,
    {
        VoxelFlags { bits: 2 }
    }

    /// Burning without open flame.
    pub fn smoldering() -> (r: Self)
        ensures
            r.bits == 4,
    {
        VoxelFlags { bits: 4 }
    }

    /// Hotter than the hot threshold.
    pub fn hot() -> (r: Self)
        ensures
            r.bits == 8,
    {
        VoxelFlags { bits: 8 }
    }

    /// Colder than the cold threshold.
    pub fn cold() -> (r: Self)
        ensures
            r.bits == 16,
    {
        VoxelFlags { bits: 16 }
    }

    /// Noticeably damp.
    pub fn wet() -> (r: Self)
        ensures
            r.bits == 32,
    {
        VoxelFlags { bits: 32 }
    }

    /// Saturated with moisture.
    pub fn soaked() -> (r: Self)
        ensures
            r.bits == 64,
    {
        VoxelFlags { bits: 64 }
    }

    /// Frozen solid.
    pub fn frozen() -> (r: Self)
        ensures
            r.bits == 128,
    {
        VoxelFlags { bits: 128 }
    }

    /// In the middle of melting.
    pub fn melting() -> (r: Self)
        ensures
            r.bits == 256,
    {
        VoxelFlags { bits: 256 }
    }

    /// In the middle of evaporating.
    pub fn evaporating() -> (r: Self)
        ensures
            r.bits == 512,
    {
        VoxelFlags { bits: 512 }
    }

    /// In the middle of condensing.
    pub fn condensing() -> (r: Self)
        ensures
            r.bits == 1024,
    {
        VoxelFlags { bits: 1024 }
    }

    /// Structurally damaged.
    pub fn damaged() -> (r: Self)
        ensures
            r.bits == 2048,
    {
        VoxelFlags { bits: 2048 }
    }

    /// About to collapse.
    pub fn unstable() -> (r: Self)
        ensures
            r.bits == 4096,
    {
        VoxelFlags { bits: 4096 }
    }

    /// Corroded.
    pub fn corroded() -> (r: Self)
        ensures
            r.bits == 8192,
    {
        VoxelFlags { bits: 8192 }
    }

    /// Growing.
    pub fn growing() -> (r: Self)
        ensures
            r.bits == 16384,
    {
        VoxelFlags { bits: 16384 }
    }

    /// Withering.
    pub fn withering() -> (r: Self)
        ensures
            r.bits == 32768,
    {
        VoxelFlags { bits: 32768 }
    }

    /// True when every flag of `f` is present in this set.
    pub fn contains(&self, f: VoxelFlags) -> (r: bool)
        ensures
            r == spec_contains(self.bits, f.bits),
    {
        self.bits & f.bits == f.bits
    }

    /// Adds every flag of `f` to this set.
    pub fn insert(&mut self, f: VoxelFlags)
        ensures
            final(self).bits == old(self).bits | f.bits,
    {
        self.bits = self.bits | f.bits;
    }

    /// Removes every flag of `f` from this set.
    pub fn remove(&mut self, f: VoxelFlags)
        ensures
            final(self).bits == old(self).bits & !f.bits,
    {
        self.bits = self.bits & !f.bits;
    }

    /// The union of this set with `f`.
    pub fn union(self, f: VoxelFlags) -> (r: VoxelFlags)
        ensures
            r.bits == self.bits | f.bits,
    {
        VoxelFlags { bits: self.bits | f.bits }
    }
}

impl Default for VoxelFlags {
    /// The default flag set is empty.
    fn default() -> (r: Self)
        ensures
            r.bits == 0,
    {
        VoxelFlags { bits: 0 }
    }
}

} // verus!
