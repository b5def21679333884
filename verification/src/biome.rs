//! Biomes: climate regions that pick the surface and subsurface voxel kinds
//! of a terrain column.

use vstd::prelude::*;

use crate::kind::VoxelKind;

verus! {

/// A biome, derived from the temperature and humidity noise fields plus the
/// column height.
#[derive(Clone, Copy, PartialEq, Eq, Structural, Debug)]
pub enum Biome {
    Plains,
    Forest,
    BirchForest,
    Desert,
    Snowy,
    Taiga,
    Ocean,
    Beach,
    FloatingIslands,
}

/// Topmost voxel kind of a column's surface for each biome.
pub open spec fn spec_surface_block(b: Biome) -> VoxelKind {
    match b {
        Biome::Plains => VoxelKind::Grass,
        Biome::Forest => VoxelKind::Grass,
        Biome::BirchForest => VoxelKind::Grass,
        Biome::Desert => VoxelKind::Sand,
        Biome::Snowy => VoxelKind::Snow,
        Biome::Taiga => VoxelKind::Grass,
        Biome::Ocean => VoxelKind::Gravel,
        Biome::Beach => VoxelKind::Sand,
        Biome::FloatingIslands => VoxelKind::Grass,
    }
}

/// Voxel kind of the shallow band just below a column's surface for each biome.
pub open spec fn spec_subsurface_block(b: Biome) -> VoxelKind {
    match b {
        Biome::Plains => VoxelKind::Dirt,
        Biome::Forest => VoxelKind::Dirt,
        Biome::BirchForest => VoxelKind::Dirt,
        Biome::Desert => VoxelKind::Sand,
        Biome::Snowy => VoxelKind::Dirt,
        Biome::Taiga => VoxelKind::Dirt,
        Biome::Ocean => VoxelKind::Clay,
        Biome::Beach => VoxelKind::Sand,
        Biome::FloatingIslands => VoxelKind::Dirt,
    }
}

impl Biome {
    /// The voxel kind placed at the top of a column's surface.
    pub fn surface_block(self) -> (r: VoxelKind)
        ensures
            r == spec_surface_block(self),
    {
        match self {
            Biome::Plains | Biome::Forest | Biome::BirchForest => VoxelKind::Grass,
            Biome::Desert => VoxelKind::Sand,
            Biome::Snowy => VoxelKind::Snow,
            Biome::Taiga => VoxelKind::Grass,
            Biome::Ocean => VoxelKind::Gravel,
            Biome::Beach => VoxelKind::Sand,
            Biome::FloatingIslands => VoxelKind::Grass,
        }
    }

    /// The voxel kind placed in the shallow band below the surface.
    pub fn subsurface_block(self) -> (r: VoxelKind)
        ensures
            r == spec_subsurface_block(self),
    {
        match self {
            Biome::Plains | Biome::Forest | Biome::BirchForest | Biome::Taiga => VoxelKind::Dirt,
            Biome::Desert | Biome::Beach => VoxelKind::Sand,
            Biome::Snowy => VoxelKind::Dirt,
            Biome::Ocean => VoxelKind::Clay,
            Biome::FloatingIslands => VoxelKind::Dirt,
        }
    }
}

} // verus!
