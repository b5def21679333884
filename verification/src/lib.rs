//! Core of a voxel world simulation: procedural terrain, chunked storage,
//! face-culled meshing, streaming around an observer, and a command-driven
//! per-voxel simulation pipeline.

pub mod biome;
pub mod chunk;
pub mod change;
pub mod command;
pub mod flags;
pub mod kind;
pub mod mesh;
pub mod pos;
pub mod streaming;
pub mod terrain;
pub mod thermal;
pub mod world;

pub use biome::Biome;
pub use chunk::{ActiveSet, ChunkData};
pub use change::BlockChange;
pub use command::{CommandQueue, DomainCommand};
pub use flags::VoxelFlags;
pub use kind::{VoxelDef, VoxelKind, VoxelProperties};
pub use mesh::{MeshBuffers, MeshData, MeshVertex, NeighborEdges};
pub use pos::ChunkPos;
pub use terrain::{TerrainGenerator, WorldSeed};
pub use streaming::{
    ChunkLoadQueue, ChunkReplacementBuffer, CompletedChunk, ComputeMeshTask, PlaceholderEntities,
    TaskTracker, ViewState,
};
pub use thermal::{ThermalApi, ThermalState};
pub use world::VoxelWorld;
