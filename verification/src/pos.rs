//! Chunk coordinates and their relation to world-voxel coordinates.
//!
//! A chunk is a cubic region of `CHUNK_SIZE` voxels along each axis. A world
//! (voxel) coordinate maps to the chunk that contains it by flooring division,
//! so negative coordinates resolve correctly.

use vstd::prelude::*;
use vstd::arithmetic::div_mod::{lemma_fundamental_div_mod, lemma_mod_bound};

verus! {

/// Edge length of a chunk, in voxels, along every axis.
pub const CHUNK_SIZE: i32 = 16;

/// Number of voxels in one chunk.
pub const CHUNK_VOLUME: usize = 4096;

/// Chunk coordinate: identifies one fixed-size cubic region of the world.
/// This is a chunk index, not a voxel coordinate.
#[derive(Clone, Copy, PartialEq, Eq, Structural, Debug, Hash)]
pub struct ChunkPos {
    pub x: i32,
    pub y: i32,
    pub z: i32,
}

/// True when a chunk coordinate is small enough that its world origin
/// (coordinate times `CHUNK_SIZE`) fits in an `i32` on every axis.
pub open spec fn origin_in_range(p: ChunkPos) -> bool {
    &&& -134217728 <= p.x <= 134217727
    &&& -134217728 <= p.y <= 134217727
    &&& -134217728 <= p.z <= 134217727
}

impl ChunkPos {
    /// Builds a chunk coordinate from its components.
    pub fn new(x: i32, y: i32, z: i32) -> (r: ChunkPos)
        ensures
            r == (ChunkPos { x, y, z }),
    {
        ChunkPos { x, y, z }
    }

    /// Maps a world-voxel coordinate to the chunk that contains it, by
    /// flooring division of each component by `CHUNK_SIZE`.
    pub fn from_world_pos(world_x: i32, world_y: i32, world_z: i32) -> (r: ChunkPos)
        ensures
            r.x as int == world_x as int / 16,
            r.y as int == world_y as int / 16,
            r.z as int == world_z as int / 16,
            origin_in_range(r),
    {
        ChunkPos {
            x: div_floor_chunk(world_x),
            y: div_floor_chunk(world_y),
            z: div_floor_chunk(world_z),
        }
    }

    /// World-voxel coordinate of this chunk's origin corner (least corner).
    pub fn world_origin(&self) -> (r: (i32, i32, i32))
        requires
            origin_in_range(*self),
        ensures
            r.0 as int == 16 * self.x as int,
            r.1 as int == 16 * self.y as int,
            r.2 as int == 16 * self.z as int,
    {
        (self.x * 16, self.y * 16, self.z * 16)
    }

    /// Manhattan distance to another chunk coordinate.
    pub fn manhattan_distance_to(&self, other: &ChunkPos) -> (r: i32)
        requires
            -250000000 <= self.x - other.x <= 250000000,
            -250000000 <= self.y - other.y <= 250000000,
            -250000000 <= self.z - other.z <= 250000000,
        ensures
            r as int == abs_int(self.x as int - other.x as int)
                + abs_int(self.y as int - other.y as int)
                + abs_int(self.z as int - other.z as int),
    {
        let dx: i32 = self.x - other.x;
        let dy: i32 = self.y - other.y;
        let dz: i32 = self.z - other.z;
        abs_i32(dx) + abs_i32(dy) + abs_i32(dz)
    }

    /// Squared Euclidean distance to another chunk coordinate; used to order
    /// chunks by nearness without a square root.
    pub fn distance_squared_to(&self, other: &ChunkPos) -> (r: i32)
        requires
            -25000 <= self.x - other.x <= 25000,
            -25000 <= self.y - other.y <= 25000,
            -25000 <= self.z - other.z <= 25000,
        ensures
            r as int == dist_sq(*self, *other),
    {
        let dx: i32 = self.x - other.x;
        let dy: i32 = self.y - other.y;
        let dz: i32 = self.z - other.z;
        proof {
            lemma_square_bound(dx as int, 25000);
            lemma_square_bound(dy as int, 25000);
            lemma_square_bound(dz as int, 25000);
        }
        dx * dx + dy * dy + dz * dz
    }
}

/// A square of a bounded value is nonnegative and bounded by the square of
/// the bound.
proof fn lemma_square_bound(v: int, bound: int)
    requires
        0 <= bound,
        -bound <= v <= bound,
    ensures
        0 <= v * v <= bound * bound,
{
    assert(0 <= v * v <= bound * bound) by (nonlinear_arith)
        requires
            0 <= bound,
            -bound <= v <= bound,
    ;
}

/// Squared Euclidean distance between two chunk coordinates.
pub open spec fn dist_sq(a: ChunkPos, b: ChunkPos) -> int {
    let dx = a.x as int - b.x as int;
    let dy = a.y as int - b.y as int;
    let dz = a.z as int - b.z as int;
    dx * dx + dy * dy + dz * dz
}

/// Absolute value of a mathematical integer.
pub open spec fn abs_int(v: int) -> int {
    if v < 0 {
        -v
    } else {
        v
    }
}

/// Absolute value of an `i32` that is not `i32::MIN`.
fn abs_i32(v: i32) -> (r: i32)
    requires
        v != i32::MIN,
    ensures
        r as int == abs_int(v as int),
{
    if v < 0 {
        -v
    } else {
        v
    }
}

/// Flooring division of a world coordinate by `CHUNK_SIZE`.
fn div_floor_chunk(v: i32) -> (r: i32)
    ensures
        r as int == v as int / 16,
{
    match v.checked_div_euclid(16) {
        Some(q) => q,
        None => 0,
    }
}

/// Remainder of a world coordinate within its chunk, always in `[0, CHUNK_SIZE)`.
pub fn rem_floor_chunk(v: i32) -> (r: i32)
    ensures
        r as int == v as int % 16,
        0 <= r < 16,
{
    proof {
        lemma_mod_bound(v as int, 16);
    }
    match v.checked_rem_euclid(16) {
        Some(q) => q,
        None => 0,
    }
}

/// Round trip between world coordinates and chunk coordinates: the owning
/// chunk's world origin never exceeds the world coordinate on any axis, and
/// the offset of the world coordinate from that origin lies in
/// `[0, CHUNK_SIZE)` on every axis.
pub proof fn lemma_world_pos_round_trip(world_x: int, world_y: int, world_z: int)
    ensures
        16 * (world_x / 16) <= world_x,
        16 * (world_y / 16) <= world_y,
        16 * (world_z / 16) <= world_z,
        0 <= world_x - 16 * (world_x / 16) < 16,
        0 <= world_y - 16 * (world_y / 16) < 16,
        0 <= world_z - 16 * (world_z / 16) < 16,
        world_x - 16 * (world_x / 16) == world_x % 16,
        world_y - 16 * (world_y / 16) == world_y % 16,
        world_z - 16 * (world_z / 16) == world_z % 16,
{
    lemma_fundamental_div_mod(world_x, 16);
    lemma_fundamental_div_mod(world_y, 16);
    lemma_fundamental_div_mod(world_z, 16);
    lemma_mod_bound(world_x, 16);
    lemma_mod_bound(world_y, 16);
    lemma_mod_bound(world_z, 16);
}

} // verus!
