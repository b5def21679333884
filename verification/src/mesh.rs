//! Face-culled mesh building with vertex deduplication.
//!
//! For every non-air voxel, each of the six axis-aligned faces is emitted
//! only when the neighboring cell (inside the chunk, across the chunk
//! border through the supplied boundary slices, or outside the world,
//! which counts as air) is transparent — except between two water cells,
//! which share no face. Vertices are keyed by position, face normal and
//! color; identical keys share one vertex.

use vstd::prelude::*;

use crate::chunk::{spec_in_bounds, spec_index, ChunkData};
use crate::kind::{spec_is_transparent, VoxelKind};
use crate::pos::ChunkPos;
use crate::world::VoxelWorld;

verus! {

/// One deduplicated mesh vertex: an integer corner position, one of the
/// six axis face normals (0 = +X, 1 = -X, 2 = +Y, 3 = -Y, 4 = +Z, 5 = -Z),
/// and a packed RGBA color.
#[derive(Clone, Copy, PartialEq, Eq, Structural, Debug)]
pub struct MeshVertex {
    pub x: i32,
    pub y: i32,
    pub z: i32,
    pub normal: u8,
    pub color: u32,
}

/// A finished triangle mesh: deduplicated vertices and triangle indices.
pub struct MeshData {
    pub vertices: Vec<MeshVertex>,
    pub indices: Vec<u32>,
}

/// No two vertices are equal: every distinct (position, normal, color) key
/// owns exactly one vertex.
pub open spec fn spec_dedup(verts: Seq<MeshVertex>) -> bool {
    forall|i: int, j: int| 0 <= i < j < verts.len() ==> verts[i] != verts[j]
}

/// Every index points at a vertex.
pub open spec fn spec_indices_ok(verts: Seq<MeshVertex>, indices: Seq<u32>) -> bool {
    forall|k: int| 0 <= k < indices.len() ==> (#[trigger] indices[k]) < verts.len()
}

impl MeshData {
    /// Well-formedness: deduplicated vertices, in-range indices, whole
    /// triangles.
    pub open spec fn spec_wf(&self) -> bool {
        &&& spec_dedup(self.vertices@)
        &&& spec_indices_ok(self.vertices@, self.indices@)
        &&& self.indices@.len() % 3 == 0
    }

    /// True when the mesh holds no geometry; callers skip creating a
    /// render entity for such a mesh.
    pub fn is_empty(&self) -> (r: bool)
        ensures
            r == (self.indices@.len() == 0),
    {
        self.indices.len() == 0
    }
}

/// A reusable build arena: one per worker, cleared before each build, never
/// shared between concurrent builds.
pub struct MeshBuffers {
    pub vertices: Vec<MeshVertex>,
    pub indices: Vec<u32>,
}

/// The result of pushing one vertex into a deduplicated vertex list: the
/// list (unchanged when the vertex is already present) and the vertex's
/// index.
pub open spec fn spec_push_vertex(verts: Seq<MeshVertex>, v: MeshVertex) -> (Seq<MeshVertex>, int) {
    if exists|i: int| 0 <= i < verts.len() && verts[i] == v {
        (verts, choose|i: int| 0 <= i < verts.len() && verts[i] == v)
    } else {
        (verts.push(v), verts.len() as int)
    }
}

/// The state of a mesh build after adding one quad face with the four
/// given corner vertices: the four corners are deduplicated in order and
/// two triangles are appended over them.
pub open spec fn spec_add_face(
    verts: Seq<MeshVertex>,
    indices: Seq<u32>,
    v0: MeshVertex,
    v1: MeshVertex,
    v2: MeshVertex,
    v3: MeshVertex,
) -> (Seq<MeshVertex>, Seq<u32>) {
    let (verts0, i0) = spec_push_vertex(verts, v0);
    let (verts1, i1) = spec_push_vertex(verts0, v1);
    let (verts2, i2) = spec_push_vertex(verts1, v2);
    let (verts3, i3) = spec_push_vertex(verts2, v3);
    (
        verts3,
        indices + seq![
            i0 as u32,
            i2 as u32,
            i1 as u32,
            i0 as u32,
            i3 as u32,
            i2 as u32,
        ],
    )
}

impl MeshBuffers {
    /// A fresh, empty arena.
    pub fn new() -> (r: MeshBuffers)
        ensures
            r.vertices@ == Seq::<MeshVertex>::empty(),
            r.indices@ == Seq::<u32>::empty(),
    {
        MeshBuffers { vertices: Vec::new(), indices: Vec::new() }
    }

    /// Empties the arena, keeping its capacity for the next build.
    pub fn clear(&mut self)
        ensures
            final(self).vertices@ == Seq::<MeshVertex>::empty(),
            final(self).indices@ == Seq::<u32>::empty(),
    {
        self.vertices.clear();
        self.indices.clear();
    }

    /// Finds a vertex in the deduplicated list, or pushes it; returns its
    /// index.
    fn push_vertex(&mut self, v: MeshVertex) -> (r: u32)
        requires
            spec_dedup(old(self).vertices@),
            old(self).vertices@.len() < 1000000,
        ensures
            spec_dedup(final(self).vertices@),
            (final(self).vertices@, r as int) == spec_push_vertex(old(self).vertices@, v),
            final(self).indices == old(self).indices,
            final(self).vertices@.len() <= old(self).vertices@.len() + 1,
            r < final(self).vertices@.len(),
            final(self).vertices@[r as int] == v,
    {
        let mut i: usize = 0;
        while i < self.vertices.len()
            invariant
                *self == *old(self),
                spec_dedup(self.vertices@),
                self.vertices@.len() < 1000000,
                i <= self.vertices@.len(),
                forall|j: int| 0 <= j < i ==> self.vertices@[j] != v,
            decreases self.vertices@.len() - i,
        {
            let c = self.vertices[i];
            if c.x == v.x && c.y == v.y && c.z == v.z && c.normal == v.normal && c.color
                == v.color {
                proof {
                    assert(self.vertices@[i as int] == v);
                    let w = choose|k: int|
                        0 <= k < self.vertices@.len() && self.vertices@[k] == v;
                    assert(w == i as int);
                }
                return i as u32;
            }
            i = i + 1;
        }
        proof {
            assert(!(exists|k: int| 0 <= k < self.vertices@.len() && self.vertices@[k] == v));
        }
        let r = self.vertices.len() as u32;
        self.vertices.push(v);
        proof {
            assert forall|a: int, b: int|
                0 <= a < b < self.vertices@.len() implies self.vertices@[a]
                != self.vertices@[b] by {
                if b == self.vertices@.len() - 1 {
                    assert(self.vertices@[a] != v);
                }
            }
        }
        r
    }

    /// Adds one quad face: the four corner positions share the face's
    /// normal and color, each corner is deduplicated against the existing
    /// vertices, and two triangles with consistent outward winding are
    /// appended.
    pub fn add_face_deduplicated(
        &mut self,
        corners: [(i32, i32, i32); 4],
        normal: u8,
        color: u32,
    )
        requires
            spec_dedup(old(self).vertices@),
            old(self).vertices@.len() < 999996,
        ensures
            spec_dedup(final(self).vertices@),
            (final(self).vertices@, final(self).indices@) == spec_add_face(
                old(self).vertices@,
                old(self).indices@,
                spec_corner_vertex(corners[0], normal, color),
                spec_corner_vertex(corners[1], normal, color),
                spec_corner_vertex(corners[2], normal, color),
                spec_corner_vertex(corners[3], normal, color),
            ),
            final(self).vertices@.len() <= old(self).vertices@.len() + 4,
            final(self).indices@.len() == old(self).indices@.len() + 6,
            spec_indices_ok(old(self).vertices@, old(self).indices@) ==> spec_indices_ok(
                final(self).vertices@,
                final(self).indices@,
            ),
    {
        let v0 = MeshVertex {
            x: corners[0].0,
            y: corners[0].1,
            z: corners[0].2,
            normal,
            color,
        };
        let v1 = MeshVertex {
            x: corners[1].0,
            y: corners[1].1,
            z: corners[1].2,
            normal,
            color,
        };
        let v2 = MeshVertex {
            x: corners[2].0,
            y: corners[2].1,
            z: corners[2].2,
            normal,
            color,
        };
        let v3 = MeshVertex {
            x: corners[3].0,
            y: corners[3].1,
            z: corners[3].2,
            normal,
            color,
        };
        let i0 = self.push_vertex(v0);
        let i1 = self.push_vertex(v1);
        let i2 = self.push_vertex(v2);
        let i3 = self.push_vertex(v3);
        self.indices.push(i0);
        self.indices.push(i2);
        self.indices.push(i1);
        self.indices.push(i0);
        self.indices.push(i3);
        self.indices.push(i2);
        proof {
            assert(self.indices@ =~= old(self).indices@ + seq![i0, i2, i1, i0, i3, i2]);
        }
    }

    /// Copies the finished mesh out of the arena.
    pub fn build(&self) -> (r: MeshData)
        requires
            spec_dedup(self.vertices@),
            spec_indices_ok(self.vertices@, self.indices@),
            self.indices@.len() % 3 == 0,
        ensures
            r.vertices@ == self.vertices@,
            r.indices@ == self.indices@,
            r.spec_wf(),
    {
        MeshData { vertices: crate::chunk::clone_plain_vec(&self.vertices), indices: crate::chunk::clone_plain_vec(&self.indices) }
    }

    /// An empty mesh, for chunks without visible geometry.
    pub fn build_empty_mesh() -> (r: MeshData)
        ensures
            r.vertices@ == Seq::<MeshVertex>::empty(),
            r.indices@ == Seq::<u32>::empty(),
            r.spec_wf(),
    {
        MeshData { vertices: Vec::new(), indices: Vec::new() }
    }
}

/// The mesh vertex at a corner position with a face normal and color.
pub open spec fn spec_corner_vertex(corner: (i32, i32, i32), normal: u8, color: u32) -> MeshVertex {
    MeshVertex { x: corner.0, y: corner.1, z: corner.2, normal, color }
}

// ===========================================================================
// Face geometry
// ===========================================================================

/// The axis offset of a face direction: 0 = +X, 1 = -X, 2 = +Y, 3 = -Y,
/// 4 = +Z, 5 = -Z.
pub open spec fn spec_dir_offset(d: int) -> (int, int, int) {
    if d == 0 {
        (1int, 0int, 0int)
    } else if d == 1 {
        (-1int, 0int, 0int)
    } else if d == 2 {
        (0int, 1int, 0int)
    } else if d == 3 {
        (0int, -1int, 0int)
    } else if d == 4 {
        (0int, 0int, 1int)
    } else {
        (0int, 0int, -1int)
    }
}

/// The four corner positions of a voxel's face in a direction, wound
/// counter-clockwise seen from outside the voxel.
pub open spec fn spec_face_corners(x: int, y: int, z: int, d: int) -> Seq<(int, int, int)> {
    if d == 0 {
        seq![(x + 1, y, z), (x + 1, y, z + 1), (x + 1, y + 1, z + 1), (x + 1, y + 1, z)]
    } else if d == 1 {
        seq![(x, y, z + 1), (x, y, z), (x, y + 1, z), (x, y + 1, z + 1)]
    } else if d == 2 {
        seq![(x, y + 1, z), (x + 1, y + 1, z), (x + 1, y + 1, z + 1), (x, y + 1, z + 1)]
    } else if d == 3 {
        seq![(x, y, z + 1), (x + 1, y, z + 1), (x + 1, y, z), (x, y, z)]
    } else if d == 4 {
        seq![(x + 1, y, z + 1), (x, y, z + 1), (x, y + 1, z + 1), (x + 1, y + 1, z + 1)]
    } else {
        seq![(x, y, z), (x + 1, y, z), (x + 1, y + 1, z), (x, y + 1, z)]
    }
}

/// The four corner positions of a voxel's face in a direction, wound
/// counter-clockwise seen from outside the voxel.
pub fn get_face_vertices(x: i32, y: i32, z: i32, dir: u8) -> (r: [(i32, i32, i32); 4])
    requires
        0 <= x < 16,
        0 <= y < 16,
        0 <= z < 16,
        dir < 6,
    ensures
        forall|k: int|
            0 <= k < 4 ==> {
                let c = spec_face_corners(x as int, y as int, z as int, dir as int)[k];
                (#[trigger] r[k]).0 == c.0 && r[k].1 == c.1 && r[k].2 == c.2
            },
{
    match dir {
        0 => [(x + 1, y, z), (x + 1, y, z + 1), (x + 1, y + 1, z + 1), (x + 1, y + 1, z)],
        1 => [(x, y, z + 1), (x, y, z), (x, y + 1, z), (x, y + 1, z + 1)],
        2 => [(x, y + 1, z), (x + 1, y + 1, z), (x + 1, y + 1, z + 1), (x, y + 1, z + 1)],
        3 => [(x, y, z + 1), (x + 1, y, z + 1), (x + 1, y, z), (x, y, z)],
        4 => [(x + 1, y, z + 1), (x, y, z + 1), (x, y + 1, z + 1), (x + 1, y + 1, z + 1)],
        _ => [(x, y, z), (x + 1, y, z), (x + 1, y + 1, z), (x, y + 1, z)],
    }
}

// ===========================================================================
// Neighbor boundary data
// ===========================================================================

/// Boundary voxel slices of the four horizontally adjacent chunks, for
/// cross-chunk face culling. Each present slice holds one 16 by 16 face,
/// indexed by `y * 16 +` the in-face coordinate; an absent slice means the
/// neighbor is not resident and counts as air.
pub struct NeighborEdges {
    /// The x = 0 face of the chunk at +X.
    pub pos_x: Option<Vec<VoxelKind>>,
    /// The x = 15 face of the chunk at -X.
    pub neg_x: Option<Vec<VoxelKind>>,
    /// The z = 0 face of the chunk at +Z.
    pub pos_z: Option<Vec<VoxelKind>>,
    /// The z = 15 face of the chunk at -Z.
    pub neg_z: Option<Vec<VoxelKind>>,
}

impl NeighborEdges {
    /// Well-formedness: every present slice holds one full face.
    pub open spec fn spec_wf(&self) -> bool {
        &&& (self.pos_x is Some ==> self.pos_x->0.len() == 256)
        &&& (self.neg_x is Some ==> self.neg_x->0.len() == 256)
        &&& (self.pos_z is Some ==> self.pos_z->0.len() == 256)
        &&& (self.neg_z is Some ==> self.neg_z->0.len() == 256)
    }

    /// Boundary data with no resident neighbors: every slice absent.
    pub fn empty() -> (r: NeighborEdges)
        ensures
            r.spec_wf(),
            r.pos_x is None,
            r.neg_x is None,
            r.pos_z is None,
            r.neg_z is None,
    {
        NeighborEdges { pos_x: None, neg_x: None, pos_z: None, neg_z: None }
    }

    /// Extracts the boundary slices of the four horizontally adjacent
    /// chunks that are resident around a center chunk: a slice is present
    /// exactly when the neighbor chunk is resident, and then holds that
    /// chunk's boundary voxels.
    pub fn from_world(world: &VoxelWorld, center: ChunkPos) -> (r: NeighborEdges)
        requires
            world.spec_wf(),
            -1000000 <= center.x <= 1000000,
            -1000000 <= center.y <= 1000000,
            -1000000 <= center.z <= 1000000,
        ensures
            r.spec_wf(),
            ({
                let px = ChunkPos { x: (center.x + 1) as i32, y: center.y, z: center.z };
                &&& (r.pos_x is Some) == world.chunks.spec_contains_pos(px)
                &&& (r.pos_x is Some ==> forall|y: int, z: int|
                    0 <= y < 16 && 0 <= z < 16 ==> r.pos_x->0[y * 16 + z]
                        == world.chunks.spec_get(px)->0.spec_get(0, y, z))
            }),
            ({
                let nx = ChunkPos { x: (center.x - 1) as i32, y: center.y, z: center.z };
                &&& (r.neg_x is Some) == world.chunks.spec_contains_pos(nx)
                &&& (r.neg_x is Some ==> forall|y: int, z: int|
                    0 <= y < 16 && 0 <= z < 16 ==> r.neg_x->0[y * 16 + z]
                        == world.chunks.spec_get(nx)->0.spec_get(15, y, z))
            }),
            ({
                let pz = ChunkPos { x: center.x, y: center.y, z: (center.z + 1) as i32 };
                &&& (r.pos_z is Some) == world.chunks.spec_contains_pos(pz)
                &&& (r.pos_z is Some ==> forall|y: int, x: int|
                    0 <= y < 16 && 0 <= x < 16 ==> r.pos_z->0[y * 16 + x]
                        == world.chunks.spec_get(pz)->0.spec_get(x, y, 0))
            }),
            ({
                let nz = ChunkPos { x: center.x, y: center.y, z: (center.z - 1) as i32 };
                &&& (r.neg_z is Some) == world.chunks.spec_contains_pos(nz)
                &&& (r.neg_z is Some ==> forall|y: int, x: int|
                    0 <= y < 16 && 0 <= x < 16 ==> r.neg_z->0[y * 16 + x]
                        == world.chunks.spec_get(nz)->0.spec_get(x, y, 15))
            }),
    {
        let px = ChunkPos { x: center.x + 1, y: center.y, z: center.z };
        let nx = ChunkPos { x: center.x - 1, y: center.y, z: center.z };
        let pz = ChunkPos { x: center.x, y: center.y, z: center.z + 1 };
        let nz = ChunkPos { x: center.x, y: center.y, z: center.z - 1 };
        NeighborEdges {
            pos_x: match world.chunks.get(px) {
                Some(c) => {
                    proof {
                        lemma_world_chunk_wf(world, px);
                    }
                    Some(extract_x_face(c, 0))
                },
                None => None,
            },
            neg_x: match world.chunks.get(nx) {
                Some(c) => {
                    proof {
                        lemma_world_chunk_wf(world, nx);
                    }
                    Some(extract_x_face(c, 15))
                },
                None => None,
            },
            pos_z: match world.chunks.get(pz) {
                Some(c) => {
                    proof {
                        lemma_world_chunk_wf(world, pz);
                    }
                    Some(extract_z_face(c, 0))
                },
                None => None,
            },
            neg_z: match world.chunks.get(nz) {
                Some(c) => {
                    proof {
                        lemma_world_chunk_wf(world, nz);
                    }
                    Some(extract_z_face(c, 15))
                },
                None => None,
            },
        }
    }

    /// The voxel kind across the chunk border in a direction, when the
    /// probe leaves the chunk horizontally and the neighbor slice is
    /// present.
    pub fn get_neighbor(&self, x: i32, y: i32, z: i32, dir: u8) -> (r: Option<VoxelKind>)
        requires
            self.spec_wf(),
            0 <= x < 16,
            0 <= y < 16,
            0 <= z < 16,
            dir < 6,
        ensures
            r == spec_edge_neighbor(self, x as int, y as int, z as int, dir as int),
    {
        match dir {
            0 => {
                if x == 15 {
                    match &self.pos_x {
                        Some(f) => Some(f[(y * 16 + z) as usize]),
                        None => None,
                    }
                } else {
                    None
                }
            },
            1 => {
                if x == 0 {
                    match &self.neg_x {
                        Some(f) => Some(f[(y * 16 + z) as usize]),
                        None => None,
                    }
                } else {
                    None
                }
            },
            4 => {
                if z == 15 {
                    match &self.pos_z {
                        Some(f) => Some(f[(y * 16 + x) as usize]),
                        None => None,
                    }
                } else {
                    None
                }
            },
            5 => {
                if z == 0 {
                    match &self.neg_z {
                        Some(f) => Some(f[(y * 16 + x) as usize]),
                        None => None,
                    }
                } else {
                    None
                }
            },
            _ => None,
        }
    }
}

/// The boundary-slice lookup for a probe that may leave the chunk
/// horizontally: the stored kind when the slice is present, absent
/// otherwise or when the probe stays inside the chunk.
pub open spec fn spec_edge_neighbor(
    e: &NeighborEdges,
    x: int,
    y: int,
    z: int,
    d: int,
) -> Option<VoxelKind> {
    if d == 0 && x == 15 {
        match e.pos_x {
            Some(f) => Some(f[y * 16 + z]),
            None => None,
        }
    } else if d == 1 && x == 0 {
        match e.neg_x {
            Some(f) => Some(f[y * 16 + z]),
            None => None,
        }
    } else if d == 4 && z == 15 {
        match e.pos_z {
            Some(f) => Some(f[y * 16 + x]),
            None => None,
        }
    } else if d == 5 && z == 0 {
        match e.neg_z {
            Some(f) => Some(f[y * 16 + x]),
            None => None,
        }
    } else {
        None
    }
}

/// A resident chunk of a well-formed world is itself well-formed.
proof fn lemma_world_chunk_wf(world: &VoxelWorld, pos: ChunkPos)
    requires
        world.spec_wf(),
        world.chunks.spec_contains_pos(pos),
    ensures
        world.chunks.spec_get(pos) is Some,
        world.chunks.spec_get(pos)->0.spec_wf(),
{
    let w = choose|i: int|
        0 <= i < world.chunks.entries.len() && (#[trigger] world.chunks.entries[i]).0 == pos;
    assert(world.chunks.entries[w].1.spec_wf());
}

/// One vertical face of a chunk at a fixed local x, indexed `y * 16 + z`.
fn extract_x_face(chunk: &ChunkData, x: i32) -> (r: Vec<VoxelKind>)
    requires
        chunk.spec_wf(),
        0 <= x < 16,
    ensures
        r@.len() == 256,
        forall|y: int, z: int|
            0 <= y < 16 && 0 <= z < 16 ==> r@[y * 16 + z] == chunk.spec_get(x as int, y, z),
{
    let mut face: Vec<VoxelKind> = Vec::new();
    let mut y: i32 = 0;
    while y < 16
        invariant
            chunk.spec_wf(),
            0 <= x < 16,
            0 <= y <= 16,
            face@.len() == y * 16,
            forall|yy: int, zz: int|
                0 <= yy < y && 0 <= zz < 16 ==> face@[yy * 16 + zz] == chunk.spec_get(
                    x as int,
                    yy,
                    zz,
                ),
        decreases 16 - y,
    {
        let mut z: i32 = 0;
        while z < 16
            invariant
                chunk.spec_wf(),
                0 <= x < 16,
                0 <= y < 16,
                0 <= z <= 16,
                face@.len() == y * 16 + z,
                forall|yy: int, zz: int|
                    0 <= yy < y && 0 <= zz < 16 ==> face@[yy * 16 + zz] == chunk.spec_get(
                        x as int,
                        yy,
                        zz,
                    ),
                forall|zz: int|
                    0 <= zz < z ==> face@[y * 16 + zz] == chunk.spec_get(x as int, y as int, zz),
            decreases 16 - z,
        {
            face.push(chunk.get(x, y, z));
            z = z + 1;
        }
        y = y + 1;
    }
    face
}

/// One vertical face of a chunk at a fixed local z, indexed `y * 16 + x`.
fn extract_z_face(chunk: &ChunkData, z: i32) -> (r: Vec<VoxelKind>)
    requires
        chunk.spec_wf(),
        0 <= z < 16,
    ensures
        r@.len() == 256,
        forall|y: int, x: int|
            0 <= y < 16 && 0 <= x < 16 ==> r@[y * 16 + x] == chunk.spec_get(x, y, z as int),
{
    let mut face: Vec<VoxelKind> = Vec::new();
    let mut y: i32 = 0;
    while y < 16
        invariant
            chunk.spec_wf(),
            0 <= z < 16,
            0 <= y <= 16,
            face@.len() == y * 16,
            forall|yy: int, xx: int|
                0 <= yy < y && 0 <= xx < 16 ==> face@[yy * 16 + xx] == chunk.spec_get(
                    xx,
                    yy,
                    z as int,
                ),
        decreases 16 - y,
    {
        let mut x: i32 = 0;
        while x < 16
            invariant
                chunk.spec_wf(),
                0 <= z < 16,
                0 <= y < 16,
                0 <= x <= 16,
                face@.len() == y * 16 + x,
                forall|yy: int, xx: int|
                    0 <= yy < y && 0 <= xx < 16 ==> face@[yy * 16 + xx] == chunk.spec_get(
                        xx,
                        yy,
                        z as int,
                    ),
                forall|xx: int|
                    0 <= xx < x ==> face@[y * 16 + xx] == chunk.spec_get(xx, y as int, z as int),
            decreases 16 - x,
        {
            face.push(chunk.get(x, y, z));
            x = x + 1;
        }
        y = y + 1;
    }
    face
}


// ===========================================================================
// Chunk meshing
// ===========================================================================

/// Packs an 8-bit RGBA color into one word, red in the highest byte.
pub open spec fn spec_pack_color(c: crate::kind::ColorRgba) -> u32 {
    (c.r as u32 * 16777216 + c.g as u32 * 65536 + c.b as u32 * 256 + c.a as u32) as u32
}

/// The kind of the cell a face looks at: the in-chunk neighbor, the
/// neighbor chunk's boundary voxel, or air above, below and beyond
/// non-resident neighbors.
pub open spec fn spec_face_neighbor(
    voxels: Seq<VoxelKind>,
    e: &NeighborEdges,
    x: int,
    y: int,
    z: int,
    d: int,
) -> VoxelKind {
    let off = spec_dir_offset(d);
    let nx = x + off.0;
    let ny = y + off.1;
    let nz = z + off.2;
    if spec_in_bounds(nx, ny, nz) {
        voxels[spec_index(nx, ny, nz)]
    } else if ny < 0 || ny > 15 {
        VoxelKind::Air
    } else {
        match spec_edge_neighbor(e, x, y, z, d) {
            Some(k) => k,
            None => VoxelKind::Air,
        }
    }
}

/// Whether a cell's face in a direction is emitted: the cell is not air,
/// the neighbor is transparent, and the face is not between two water
/// cells.
pub open spec fn spec_emits_face(
    voxels: Seq<VoxelKind>,
    e: &NeighborEdges,
    x: int,
    y: int,
    z: int,
    d: int,
) -> bool {
    let kind = voxels[spec_index(x, y, z)];
    let neighbor = spec_face_neighbor(voxels, e, x, y, z, d);
    &&& kind != VoxelKind::Air
    &&& spec_is_transparent(neighbor)
    &&& !(kind == VoxelKind::Water && neighbor == VoxelKind::Water)
}

/// The mesh-build state after considering the first `n` of the chunk's
/// `4096 * 6` cell faces, in cell-index order with the six directions
/// innermost: each emitted face is added through [`spec_add_face`].
pub open spec fn spec_build_state(
    voxels: Seq<VoxelKind>,
    e: &NeighborEdges,
    n: int,
) -> (Seq<MeshVertex>, Seq<u32>)
    decreases n,
{
    if n <= 0 {
        (Seq::empty(), Seq::empty())
    } else {
        let s = spec_build_state(voxels, e, n - 1);
        let m = n - 1;
        let cell = m / 6;
        let d = m % 6;
        let x = cell % 16;
        let z = (cell / 16) % 16;
        let y = cell / 256;
        if spec_emits_face(voxels, e, x, y, z, d) {
            let color = spec_pack_color(crate::kind::spec_def(voxels[cell]).color);
            let cs = spec_face_corners(x, y, z, d);
            spec_add_face(
                s.0,
                s.1,
                MeshVertex {
                    x: cs[0].0 as i32,
                    y: cs[0].1 as i32,
                    z: cs[0].2 as i32,
                    normal: d as u8,
                    color,
                },
                MeshVertex {
                    x: cs[1].0 as i32,
                    y: cs[1].1 as i32,
                    z: cs[1].2 as i32,
                    normal: d as u8,
                    color,
                },
                MeshVertex {
                    x: cs[2].0 as i32,
                    y: cs[2].1 as i32,
                    z: cs[2].2 as i32,
                    normal: d as u8,
                    color,
                },
                MeshVertex {
                    x: cs[3].0 as i32,
                    y: cs[3].1 as i32,
                    z: cs[3].2 as i32,
                    normal: d as u8,
                    color,
                },
            )
        } else {
            s
        }
    }
}

/// Whether a cell's face in a direction is emitted.
fn face_visible(
    voxels: &Vec<VoxelKind>,
    edges: &NeighborEdges,
    x: i32,
    y: i32,
    z: i32,
    d: u8,
) -> (r: bool)
    requires
        voxels@.len() == 4096,
        edges.spec_wf(),
        0 <= x < 16,
        0 <= y < 16,
        0 <= z < 16,
        d < 6,
    ensures
        r == spec_emits_face(voxels@, edges, x as int, y as int, z as int, d as int),
{
    let idx = ChunkData::index(x, y, z);
    let kind = voxels[idx];
    if matches!(kind, VoxelKind::Air) {
        return false;
    }

    let (dx, dy, dz) = match d {
        0 => (1, 0, 0),
        1 => (-1, 0, 0),
        2 => (0, 1, 0),
        3 => (0, -1, 0),
        4 => (0, 0, 1),
        _ => (0, 0, -1),
    };
    let nx = x + dx;
    let ny = y + dy;
    let nz = z + dz;

    let neighbor = if nx >= 0 && nx < 16 && ny >= 0 && ny < 16 && nz >= 0 && nz < 16 {
        voxels[ChunkData::index(nx, ny, nz)]
    } else if ny < 0 || ny > 15 {
        VoxelKind::Air
    } else {
        match edges.get_neighbor(x, y, z, d) {
            Some(k) => k,
            None => VoxelKind::Air,
        }
    };

    if !neighbor.is_transparent() {
        return false;
    }
    if matches!(kind, VoxelKind::Water) && matches!(neighbor, VoxelKind::Water) {
        return false;
    }
    true
}

/// Builds one chunk's face-culled, vertex-deduplicated triangle mesh into
/// a cleared arena and copies the finished mesh out.
#[verifier::rlimit(100)]
pub fn build_chunk_mesh(
    voxels: &Vec<VoxelKind>,
    edges: &NeighborEdges,
    buffers: &mut MeshBuffers,
) -> (r: MeshData)
    requires
        voxels@.len() == 4096,
        edges.spec_wf(),
    ensures
        r.spec_wf(),
        (r.vertices@, r.indices@) == spec_build_state(voxels@, edges, 24576),
{
    buffers.clear();

    let mut m: usize = 0;
    while m < 24576
        invariant
            voxels@.len() == 4096,
            edges.spec_wf(),
            m <= 24576,
            (buffers.vertices@, buffers.indices@) == spec_build_state(voxels@, edges, m as int),
            spec_dedup(buffers.vertices@),
            spec_indices_ok(buffers.vertices@, buffers.indices@),
            buffers.vertices@.len() <= 4 * m,
            buffers.indices@.len() % 3 == 0,
        decreases 24576 - m,
    {
        let cell = m / 6;
        let d = (m % 6) as u8;
        let x = (cell % 16) as i32;
        let z = ((cell / 16) % 16) as i32;
        let y = (cell / 256) as i32;

        if face_visible(voxels, edges, x, y, z, d) {
            let def = voxels[cell].def();
            let color: u32 = (def.color.r as u32) * 16777216 + (def.color.g as u32) * 65536 + (
            def.color.b as u32) * 256 + (def.color.a as u32);
            let corners = get_face_vertices(x, y, z, d);
            buffers.add_face_deduplicated(corners, d, color);
        }
        m = m + 1;
    }
    buffers.build()
}

/// The mesh-build input for one background task: the chunk's voxels and
/// whatever neighbor boundary slices were resident when the task started.
pub struct MeshBuildInput {
    pub chunk_pos: ChunkPos,
    pub voxels: Vec<VoxelKind>,
    pub neighbor_edges: NeighborEdges,
}

/// Builds a chunk mesh in a worker context, with a task-owned arena, so
/// concurrent builds never share a buffer.
pub fn build_chunk_mesh_async(input: &MeshBuildInput) -> (r: MeshData)
    requires
        input.voxels@.len() == 4096,
        input.neighbor_edges.spec_wf(),
    ensures
        r.spec_wf(),
        (r.vertices@, r.indices@) == spec_build_state(input.voxels@, &input.neighbor_edges, 24576),
{
    let mut buffers = MeshBuffers::new();
    build_chunk_mesh(&input.voxels, &input.neighbor_edges, &mut buffers)
}

/// Two vertically adjacent water cells produce no face between them: the
/// upward face of the lower cell and the downward face of the upper cell
/// are both suppressed, whatever the rest of the chunk and the neighbor
/// boundaries hold.
pub proof fn lemma_water_face_suppression(
    voxels: Seq<VoxelKind>,
    e: &NeighborEdges,
    x: int,
    y: int,
    z: int,
)
    requires
        voxels.len() == 4096,
        spec_in_bounds(x, y, z),
        spec_in_bounds(x, y + 1, z),
        voxels[spec_index(x, y, z)] == VoxelKind::Water,
        voxels[spec_index(x, y + 1, z)] == VoxelKind::Water,
    ensures
        !spec_emits_face(voxels, e, x, y, z, 2),
        !spec_emits_face(voxels, e, x, y + 1, z, 3),
{
}

// ===========================================================================
// Placeholder mesh
// ===========================================================================

/// The corner positions of the chunk box, for the placeholder outline.
pub open spec fn spec_placeholder_corner(k: int) -> (int, int, int) {
    if k == 0 {
        (0int, 0int, 0int)
    } else if k == 1 {
        (16int, 0int, 0int)
    } else if k == 2 {
        (16int, 0int, 16int)
    } else if k == 3 {
        (0int, 0int, 16int)
    } else if k == 4 {
        (0int, 16int, 0int)
    } else if k == 5 {
        (16int, 16int, 0int)
    } else if k == 6 {
        (16int, 16int, 16int)
    } else {
        (0int, 16int, 16int)
    }
}

/// The corner pairs of the chunk box's twelve edges.
pub open spec fn spec_placeholder_edge(k: int) -> (int, int) {
    if k == 0 {
        (0int, 1int)
    } else if k == 1 {
        (1int, 2int)
    } else if k == 2 {
        (2int, 3int)
    } else if k == 3 {
        (3int, 0int)
    } else if k == 4 {
        (4int, 5int)
    } else if k == 5 {
        (5int, 6int)
    } else if k == 6 {
        (6int, 7int)
    } else if k == 7 {
        (7int, 4int)
    } else if k == 8 {
        (0int, 4int)
    } else if k == 9 {
        (1int, 5int)
    } else if k == 10 {
        (2int, 6int)
    } else {
        (3int, 7int)
    }
}

/// A trivial wireframe stand-in shown while a chunk's real geometry is
/// generating: the twelve edges of the chunk box as a line list, two
/// vertices per edge with consecutive indices, in a translucent blue.
pub fn create_placeholder_mesh() -> (r: MeshData)
    ensures
        r.vertices@.len() == 24,
        r.indices@.len() == 24,
        forall|k: int| 0 <= k < 24 ==> (#[trigger] r.indices@[k]) == k,
        forall|k: int|
            0 <= k < 12 ==> {
                let e = spec_placeholder_edge(k);
                let a = spec_placeholder_corner(e.0);
                let b = spec_placeholder_corner(e.1);
                let va = #[trigger] r.vertices@[2 * k];
                let vb = r.vertices@[2 * k + 1];
                &&& va.x == a.0 && va.y == a.1 && va.z == a.2
                &&& vb.x == b.0 && vb.y == b.1 && vb.z == b.2
                &&& va.normal == 2 && vb.normal == 2
                &&& va.color == 1285160780u32 && vb.color == 1285160780u32
            },
{
    let corners: [(i32, i32, i32); 8] = [
        (0, 0, 0),
        (16, 0, 0),
        (16, 0, 16),
        (0, 0, 16),
        (0, 16, 0),
        (16, 16, 0),
        (16, 16, 16),
        (0, 16, 16),
    ];
    let edges: [(usize, usize); 12] = [
        (0, 1),
        (1, 2),
        (2, 3),
        (3, 0),
        (4, 5),
        (5, 6),
        (6, 7),
        (7, 4),
        (0, 4),
        (1, 5),
        (2, 6),
        (3, 7),
    ];

    let mut vertices: Vec<MeshVertex> = Vec::new();
    let mut indices: Vec<u32> = Vec::new();
    let mut k: usize = 0;
    while k < 12
        invariant
            k <= 12,
            vertices@.len() == 2 * k,
            indices@.len() == 2 * k,
            forall|q: int| 0 <= q < 2 * k ==> (#[trigger] indices@[q]) == q,
            forall|q: int|
                0 <= q < k ==> {
                    let e = spec_placeholder_edge(q);
                    let a = spec_placeholder_corner(e.0);
                    let b = spec_placeholder_corner(e.1);
                    let va = #[trigger] vertices@[2 * q];
                    let vb = vertices@[2 * q + 1];
                    &&& va.x == a.0 && va.y == a.1 && va.z == a.2
                    &&& vb.x == b.0 && vb.y == b.1 && vb.z == b.2
                    &&& va.normal == 2 && vb.normal == 2
                    &&& va.color == 1285160780u32 && vb.color == 1285160780u32
                },
            forall|q: int| 0 <= q < 12 ==> 0 <= (#[trigger] edges@[q]).0 < 8 && edges@[q].1 < 8,
            edges@ =~= seq![
                (0usize, 1usize),
                (1usize, 2usize),
                (2usize, 3usize),
                (3usize, 0usize),
                (4usize, 5usize),
                (5usize, 6usize),
                (6usize, 7usize),
                (7usize, 4usize),
                (0usize, 4usize),
                (1usize, 5usize),
                (2usize, 6usize),
                (3usize, 7usize),
            ],
            forall|q: int|
                0 <= q < 8 ==> {
                    let c = spec_placeholder_corner(q);
                    (#[trigger] corners@[q]).0 == c.0 && corners@[q].1 == c.1 && corners@[q].2
                        == c.2
                },
        decreases 12 - k,
    {
        let (a, b) = edges[k];
        proof {
            let e = spec_placeholder_edge(k as int);
            assert(a as int == e.0 && b as int == e.1);
        }
        let ca = corners[a];
        let cb = corners[b];
        let idx = vertices.len() as u32;
        vertices.push(MeshVertex { x: ca.0, y: ca.1, z: ca.2, normal: 2, color: 1285160780 });
        vertices.push(MeshVertex { x: cb.0, y: cb.1, z: cb.2, normal: 2, color: 1285160780 });
        indices.push(idx);
        indices.push(idx + 1);
        proof {
            assert forall|q: int|
                0 <= q < k + 1 implies {
                let e = spec_placeholder_edge(q);
                let ea = spec_placeholder_corner(e.0);
                let eb = spec_placeholder_corner(e.1);
                let va = #[trigger] vertices@[2 * q];
                let vb = vertices@[2 * q + 1];
                &&& va.x == ea.0 && va.y == ea.1 && va.z == ea.2
                &&& vb.x == eb.0 && vb.y == eb.1 && vb.z == eb.2
                &&& va.normal == 2 && vb.normal == 2
                &&& va.color == 1285160780u32 && vb.color == 1285160780u32
            } by {
                if q == k as int {
                    assert(vertices@[2 * q] == MeshVertex {
                        x: ca.0,
                        y: ca.1,
                        z: ca.2,
                        normal: 2u8,
                        color: 1285160780u32,
                    });
                    assert(vertices@[2 * q + 1] == MeshVertex {
                        x: cb.0,
                        y: cb.1,
                        z: cb.2,
                        normal: 2u8,
                        color: 1285160780u32,
                    });
                }
            }
        }
        k = k + 1;
    }
    MeshData { vertices, indices }
}

} // verus!
