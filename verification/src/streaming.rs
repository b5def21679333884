//! The streaming scheduler: decides which chunks to load and unload around
//! a moving observer, bounds concurrent background generation, batches the
//! hand-off of completed chunks into the world, and cancels in-flight work
//! for chunks that leave the render range.
//!
//! The scheduler only decides; the surrounding host performs the outside
//! work (spawning tasks, creating and destroying render entities) and
//! reports the outcomes back. Render entities appear here as opaque 64-bit
//! handles.

use vstd::prelude::*;

use crate::chunk::ChunkData;
use crate::kind::VoxelKind;
use crate::mesh::MeshData;
use crate::pos::ChunkPos;
use crate::world::{PosMap, VoxelWorld};

verus! {

/// Horizontal render distance, in chunks.
pub const RENDER_DISTANCE: i32 = 8;

/// Vertical render distance, in chunks.
pub const VERTICAL_RENDER_DISTANCE: i32 = 4;

/// The load and unload queues and the background-task budget.
pub struct ChunkLoadQueue {
    /// Chunks waiting to be generated, nearest first.
    pub to_load: Vec<ChunkPos>,
    /// Chunks waiting to be removed.
    pub to_unload: Vec<ChunkPos>,
    /// Number of background generation tasks in flight.
    pub active_tasks: usize,
    /// Bound on concurrent background generation tasks.
    pub max_concurrent_tasks: usize,
    /// Newly discovered chunks that still need a placeholder entity.
    pub pending_placeholders: Vec<ChunkPos>,
}

impl ChunkLoadQueue {
    /// Structural invariant: no chunk is queued twice.
    pub open spec fn spec_wf(&self) -> bool {
        &&& forall|i: int, j: int|
            0 <= i < j < self.to_load@.len() ==> self.to_load@[i] != self.to_load@[j]
        &&& forall|i: int, j: int|
            0 <= i < j < self.to_unload@.len() ==> self.to_unload@[i] != self.to_unload@[j]
    }

    /// An empty queue with the default task budget.
    pub fn new() -> (r: ChunkLoadQueue)
        ensures
            r.spec_wf(),
            r.to_load@.len() == 0,
            r.to_unload@.len() == 0,
            r.pending_placeholders@.len() == 0,
            r.active_tasks == 0,
            r.max_concurrent_tasks == 16,
    {
        ChunkLoadQueue {
            to_load: Vec::new(),
            to_unload: Vec::new(),
            active_tasks: 0,
            max_concurrent_tasks: 16,
            pending_placeholders: Vec::new(),
        }
    }
}

impl Default for ChunkLoadQueue {
    /// The default queue is empty with a budget of sixteen tasks.
    fn default() -> (r: Self)
        ensures
            r.spec_wf(),
            r.to_load@.len() == 0,
            r.to_unload@.len() == 0,
            r.pending_placeholders@.len() == 0,
            r.active_tasks == 0,
            r.max_concurrent_tasks == 16,
    {
        ChunkLoadQueue {
            to_load: Vec::new(),
            to_unload: Vec::new(),
            active_tasks: 0,
            max_concurrent_tasks: 16,
            pending_placeholders: Vec::new(),
        }
    }
}

/// The placeholder entity shown for each chunk whose geometry is still
/// generating.
pub struct PlaceholderEntities {
    pub map: PosMap<u64>,
}

impl PlaceholderEntities {
    /// An empty map.
    pub fn new() -> (r: PlaceholderEntities)
        ensures
            r.map.wf(),
            r.map.entries@.len() == 0,
            forall|p: ChunkPos| r.map.spec_get(p) is None,
    {
        PlaceholderEntities { map: PosMap::new() }
    }
}

/// One in-flight background generation task.
#[derive(Clone, Copy, PartialEq, Eq, Structural)]
pub struct ComputeMeshTask {
    /// The chunk being generated.
    pub chunk_pos: ChunkPos,
    /// The placeholder entity to replace when the result arrives.
    pub placeholder_entity: u64,
}

/// The set of in-flight background generation tasks.
pub struct TaskTracker {
    pub tasks: Vec<ComputeMeshTask>,
}

impl TaskTracker {
    /// An empty tracker.
    pub fn new() -> (r: TaskTracker)
        ensures
            r.tasks@.len() == 0,
    {
        TaskTracker { tasks: Vec::new() }
    }

    /// Whether some in-flight task targets the chunk.
    pub open spec fn spec_has_pos(&self, p: ChunkPos) -> bool {
        exists|i: int| 0 <= i < self.tasks@.len() && (#[trigger] self.tasks@[i]).chunk_pos == p
    }

    /// Whether some in-flight task targets the chunk.
    pub fn has_pos(&self, p: ChunkPos) -> (r: bool)
        ensures
            r == self.spec_has_pos(p),
    {
        let mut i: usize = 0;
        while i < self.tasks.len()
            invariant
                i <= self.tasks@.len(),
                forall|j: int| 0 <= j < i ==> (#[trigger] self.tasks@[j]).chunk_pos != p,
            decreases self.tasks@.len() - i,
        {
            if self.tasks[i].chunk_pos == p {
                proof {
                    assert(self.tasks@[i as int].chunk_pos == p);
                }
                return true;
            }
            i = i + 1;
        }
        false
    }
}

/// A background result waiting for the next batch apply.
pub struct CompletedChunk {
    pub chunk_pos: ChunkPos,
    pub voxels: Vec<VoxelKind>,
    pub mesh: MeshData,
    pub placeholder_entity: u64,
}

/// The buffer that batches completed background results, so many
/// placeholders are replaced in few visible events instead of one-by-one
/// flicker.
pub struct ChunkReplacementBuffer {
    /// Completed results awaiting application.
    pub completed: Vec<CompletedChunk>,
    /// Milliseconds since the last batch apply.
    pub timer_ms: u64,
    /// Apply at least this often, in milliseconds.
    pub interval_ms: u64,
    /// Apply as soon as this many results are buffered.
    pub min_batch_size: usize,
}

impl ChunkReplacementBuffer {
    /// Structural invariant: every buffered result holds one chunk volume
    /// of voxels.
    pub open spec fn spec_wf(&self) -> bool {
        forall|i: int|
            0 <= i < self.completed@.len() ==> (#[trigger] self.completed@[i]).voxels@.len()
                == 4096
    }

    /// An empty buffer with the default batching policy.
    pub fn new() -> (r: ChunkReplacementBuffer)
        ensures
            r.spec_wf(),
            r.completed@.len() == 0,
            r.timer_ms == 0,
            r.interval_ms == 300,
            r.min_batch_size == 3,
    {
        ChunkReplacementBuffer {
            completed: Vec::new(),
            timer_ms: 0,
            interval_ms: 300,
            min_batch_size: 3,
        }
    }
}

impl Default for ChunkReplacementBuffer {
    /// The default buffer applies every 300 milliseconds or three results,
    /// whichever comes first.
    fn default() -> (r: Self)
        ensures
            r.spec_wf(),
            r.completed@.len() == 0,
            r.timer_ms == 0,
            r.interval_ms == 300,
            r.min_batch_size == 3,
    {
        ChunkReplacementBuffer {
            completed: Vec::new(),
            timer_ms: 0,
            interval_ms: 300,
            min_batch_size: 3,
        }
    }
}

// ===========================================================================
// View test
// ===========================================================================

/// The observer's position and forward direction for the view-angle test:
/// the position in doubled world-voxel coordinates (so a half voxel stays
/// an integer) and the forward vector in thousandths.
#[derive(Clone, Copy, PartialEq, Eq, Structural)]
pub struct ViewState {
    pub cam_x2: i64,
    pub cam_y2: i64,
    pub cam_z2: i64,
    pub fx: i64,
    pub fy: i64,
    pub fz: i64,
}

impl ViewState {
    /// Bounds under which the view test cannot overflow.
    pub open spec fn spec_wf(&self) -> bool {
        &&& -134217728 <= self.cam_x2 <= 134217728
        &&& -134217728 <= self.cam_y2 <= 134217728
        &&& -134217728 <= self.cam_z2 <= 134217728
        &&& -10000 <= self.fx <= 10000
        &&& -10000 <= self.fy <= 10000
        &&& -10000 <= self.fz <= 10000
    }
}

/// Whether a chunk passes the view-direction test: chunks within two chunk
/// lengths of the observer always pass (never cull what surrounds the
/// observer); a farther chunk passes when the angle between the forward
/// vector and the direction to the chunk's center is inside the view cone,
/// with cosine threshold 7/20.
pub open spec fn spec_in_frustum(p: ChunkPos, v: ViewState) -> bool {
    let tx = 32 * p.x + 16 - v.cam_x2;
    let ty = 32 * p.y + 16 - v.cam_y2;
    let tz = 32 * p.z + 16 - v.cam_z2;
    let dist4 = tx * tx + ty * ty + tz * tz;
    let dot = v.fx * tx + v.fy * ty + v.fz * tz;
    let f2 = v.fx * v.fx + v.fy * v.fy + v.fz * v.fz;
    ||| dist4 < 4096
    ||| (dot > 0 && 400 * dot * dot > 49 * f2 * dist4)
}

/// Whether a chunk passes the view-direction test.
pub fn is_chunk_in_frustum(p: ChunkPos, v: &ViewState) -> (r: bool)
    requires
        v.spec_wf(),
        -1100000 <= p.x <= 1100000,
        -1100000 <= p.y <= 1100000,
        -1100000 <= p.z <= 1100000,
    ensures
        r == spec_in_frustum(p, *v),
{
    let tx: i64 = 32 * (p.x as i64) + 16 - v.cam_x2;
    let ty: i64 = 32 * (p.y as i64) + 16 - v.cam_y2;
    let tz: i64 = 32 * (p.z as i64) + 16 - v.cam_z2;
    proof {
        lemma_i128_products(tx as int, ty as int, tz as int, v.fx as int, v.fy as int, v.fz as int);
    }
    let dist4: i128 = (tx as i128) * (tx as i128) + (ty as i128) * (ty as i128) + (tz as i128) * (
    tz as i128);
    let dot: i128 = (v.fx as i128) * (tx as i128) + (v.fy as i128) * (ty as i128) + (v.fz as i128)
        * (tz as i128);
    let f2: i128 = (v.fx as i128) * (v.fx as i128) + (v.fy as i128) * (v.fy as i128) + (
    v.fz as i128) * (v.fz as i128);
    if dist4 < 4096 {
        true
    } else {
        dot > 0 && 400 * dot * dot > 49 * f2 * dist4
    }
}

/// Bounds for the products in the view test.
proof fn lemma_i128_products(tx: int, ty: int, tz: int, fx: int, fy: int, fz: int)
    requires
        -1000000000 <= tx <= 1000000000,
        -1000000000 <= ty <= 1000000000,
        -1000000000 <= tz <= 1000000000,
        -10000 <= fx <= 10000,
        -10000 <= fy <= 10000,
        -10000 <= fz <= 10000,
    ensures
        0 <= tx * tx <= 1000000000000000000,
        0 <= ty * ty <= 1000000000000000000,
        0 <= tz * tz <= 1000000000000000000,
        -100000000000000 <= fx * tx <= 100000000000000,
        -100000000000000 <= fy * ty <= 100000000000000,
        -100000000000000 <= fz * tz <= 100000000000000,
        0 <= fx * fx <= 100000000,
        0 <= fy * fy <= 100000000,
        0 <= fz * fz <= 100000000,
        ({
            let dot = fx * tx + fy * ty + fz * tz;
            let f2 = fx * fx + fy * fy + fz * fz;
            let dist4 = tx * tx + ty * ty + tz * tz;
            &&& -100000000000000000000000000000000 <= 400 * dot * dot
                <= 100000000000000000000000000000000
            &&& -100000000000000000000000000000000 <= 49 * f2 * dist4
                <= 100000000000000000000000000000000
        }),
{
    assert(0 <= tx * tx <= 1000000000000000000 && 0 <= ty * ty <= 1000000000000000000 && 0 <= tz
        * tz <= 1000000000000000000 && -100000000000000 <= fx * tx <= 100000000000000
        && -100000000000000 <= fy * ty <= 100000000000000 && -100000000000000 <= fz * tz
        <= 100000000000000 && 0 <= fx * fx <= 100000000 && 0 <= fy * fy <= 100000000 && 0 <= fz
        * fz <= 100000000) by (nonlinear_arith)
        requires
            -1000000000 <= tx <= 1000000000,
            -1000000000 <= ty <= 1000000000,
            -1000000000 <= tz <= 1000000000,
            -10000 <= fx <= 10000,
            -10000 <= fy <= 10000,
            -10000 <= fz <= 10000,
    ;
    let dot = fx * tx + fy * ty + fz * tz;
    let f2 = fx * fx + fy * fy + fz * fz;
    let dist4 = tx * tx + ty * ty + tz * tz;
    assert(-100000000000000000000000000000000 <= 400 * dot * dot
        <= 100000000000000000000000000000000 && -100000000000000000000000000000000 <= 49 * f2
        * dist4 <= 100000000000000000000000000000000) by (nonlinear_arith)
        requires
            -300000000000000 <= dot <= 300000000000000,
            0 <= f2 <= 300000000,
            0 <= dist4 <= 3000000000000000000,
    ;
}

// ===========================================================================
// Load scheduling
// ===========================================================================

/// The squared distance between two chunk coordinates as a wide integer,
/// usable as a sort key for any coordinates.
pub open spec fn spec_dist_key(a: ChunkPos, b: ChunkPos) -> int {
    let dx = a.x as int - b.x as int;
    let dy = a.y as int - b.y as int;
    let dz = a.z as int - b.z as int;
    dx * dx + dy * dy + dz * dz
}

/// The squared distance between two chunk coordinates.
fn dist_key(a: ChunkPos, b: ChunkPos) -> (r: i128)
    ensures
        r == spec_dist_key(a, b),
{
    let dx: i128 = a.x as i128 - b.x as i128;
    let dy: i128 = a.y as i128 - b.y as i128;
    let dz: i128 = a.z as i128 - b.z as i128;
    proof {
        assert((-8589934592 <= dx <= 8589934592 && -8589934592 <= dy <= 8589934592 && -8589934592
            <= dz <= 8589934592) ==> (dx * dx + dy * dy + dz * dz
            < 0x10000000000000000000000000000) && 0 <= dx * dx && 0 <= dy * dy && 0 <= dz * dz
            && dx * dx < 0x1000000000000000000 && dy * dy < 0x1000000000000000000 && dz * dz
            < 0x1000000000000000000) by (nonlinear_arith);
    }
    dx * dx + dy * dy + dz * dz
}

/// Whether a position is inside the render-distance box around a center.
pub open spec fn spec_in_range(p: ChunkPos, center: ChunkPos) -> bool {
    &&& -8 <= (p.x as int) - (center.x as int) <= 8
    &&& -4 <= (p.y as int) - (center.y as int) <= 4
    &&& -8 <= (p.z as int) - (center.z as int) <= 8
}

/// Whether a position should be discovered by a scheduling pass: inside
/// the render box and, when a view is given, inside the view cone.
pub open spec fn spec_desired(p: ChunkPos, center: ChunkPos, view: Option<ViewState>) -> bool {
    spec_in_range(p, center) && (match view {
        Some(v) => spec_in_frustum(p, v),
        None => true,
    })
}

/// Whether a vector of positions contains a position.
fn vec_contains_pos(v: &Vec<ChunkPos>, p: ChunkPos) -> (r: bool)
    ensures
        r == v@.contains(p),
{
    let mut i: usize = 0;
    while i < v.len()
        invariant
            i <= v@.len(),
            forall|j: int| 0 <= j < i ==> v@[j] != p,
        decreases v@.len() - i,
    {
        if v[i].x == p.x && v[i].y == p.y && v[i].z == p.z {
            proof {
                assert(v@[i as int] == p);
            }
            return true;
        }
        i = i + 1;
    }
    false
}

/// Whether a position's offset from the center comes strictly before the
/// given offsets in the box enumeration order (x major, then y, then z).
pub open spec fn spec_before(p: ChunkPos, center: ChunkPos, dx: int, dy: int, dz: int) -> bool {
    let ox = (p.x as int) - (center.x as int);
    let oy = (p.y as int) - (center.y as int);
    let oz = (p.z as int) - (center.z as int);
    ||| ox < dx
    ||| (ox == dx && oy < dy)
    ||| (ox == dx && oy == dy && oz < dz)
}

/// Enumerates every desired position around a center, in a fixed box
/// order, each position once.
fn desired_coords(center: ChunkPos, view: &Option<ViewState>) -> (r: Vec<ChunkPos>)
    requires
        -1000000 <= center.x <= 1000000,
        -1000000 <= center.y <= 1000000,
        -1000000 <= center.z <= 1000000,
        (match view {
            Some(v) => v.spec_wf(),
            None => true,
        }),
    ensures
        forall|p: ChunkPos| r@.contains(p) == spec_desired(p, center, *view),
        forall|i: int, j: int| 0 <= i < j < r@.len() ==> r@[i] != r@[j],
{
    let mut out: Vec<ChunkPos> = Vec::new();
    let mut dx: i32 = -8;
    while dx <= 8
        invariant
            -1000000 <= center.x <= 1000000,
            -1000000 <= center.y <= 1000000,
            -1000000 <= center.z <= 1000000,
            (match view {
                Some(v) => v.spec_wf(),
                None => true,
            }),
            -8 <= dx <= 9,
            forall|p: ChunkPos|
                out@.contains(p) == (spec_desired(p, center, *view) && spec_before(
                    p,
                    center,
                    dx as int,
                    -4,
                    -8,
                )),
            forall|i: int, j: int| 0 <= i < j < out@.len() ==> out@[i] != out@[j],
        decreases 9 - dx,
    {
        let mut dy: i32 = -4;
        while dy <= 4
            invariant
                -1000000 <= center.x <= 1000000,
                -1000000 <= center.y <= 1000000,
                -1000000 <= center.z <= 1000000,
                (match view {
                    Some(v) => v.spec_wf(),
                    None => true,
                }),
                -8 <= dx <= 8,
                -4 <= dy <= 5,
                forall|p: ChunkPos|
                    out@.contains(p) == (spec_desired(p, center, *view) && spec_before(
                        p,
                        center,
                        dx as int,
                        dy as int,
                        -8,
                    )),
                forall|i: int, j: int| 0 <= i < j < out@.len() ==> out@[i] != out@[j],
            decreases 5 - dy,
        {
            let mut dz: i32 = -8;
            while dz <= 8
                invariant
                    -1000000 <= center.x <= 1000000,
                    -1000000 <= center.y <= 1000000,
                    -1000000 <= center.z <= 1000000,
                    (match view {
                        Some(v) => v.spec_wf(),
                        None => true,
                    }),
                    -8 <= dx <= 8,
                    -4 <= dy <= 4,
                    -8 <= dz <= 9,
                    forall|p: ChunkPos|
                        out@.contains(p) == (spec_desired(p, center, *view) && spec_before(
                            p,
                            center,
                            dx as int,
                            dy as int,
                            dz as int,
                        )),
                    forall|i: int, j: int| 0 <= i < j < out@.len() ==> out@[i] != out@[j],
                decreases 9 - dz,
            {
                let p = ChunkPos { x: center.x + dx, y: center.y + dy, z: center.z + dz };
                let ok = match view {
                    Some(v) => is_chunk_in_frustum(p, v),
                    None => true,
                };
                let ghost out_before = out@;
                if ok {
                    proof {
                        assert(!out_before.contains(p));
                    }
                    out.push(p);
                }
                proof {
                    assert forall|q: ChunkPos|
                        out@.contains(q) == (spec_desired(q, center, *view) && spec_before(
                            q,
                            center,
                            dx as int,
                            dy as int,
                            dz as int + 1,
                        )) by {
                        if q == p {
                            if ok {
                                assert(out@[out@.len() - 1] == p);
                            }
                        } else {
                            if out_before.contains(q) {
                                let w = choose|i: int|
                                    0 <= i < out_before.len() && out_before[i] == q;
                                assert(out@[w] == q);
                            } else {
                                if out@.contains(q) {
                                    let w = choose|i: int| 0 <= i < out@.len() && out@[i] == q;
                                    assert(w < out_before.len() || q == p);
                                }
                            }
                        }
                    }
                }
                dz = dz + 1;
            }
            dy = dy + 1;
        }
        dx = dx + 1;
    }
    out
}

/// Sorts positions by ascending squared distance to a center. The input
/// positions are distinct; the output holds exactly the same positions.
fn sort_by_distance(v: Vec<ChunkPos>, center: ChunkPos) -> (r: Vec<ChunkPos>)
    requires
        forall|i: int, j: int| 0 <= i < j < v@.len() ==> v@[i] != v@[j],
    ensures
        r@.len() == v@.len(),
        forall|p: ChunkPos| r@.contains(p) == v@.contains(p),
        forall|i: int, j: int| 0 <= i < j < r@.len() ==> r@[i] != r@[j],
        forall|i: int, j: int|
            0 <= i < j < r@.len() ==> spec_dist_key(r@[i], center) <= spec_dist_key(r@[j], center),
{
    let mut work = v;
    let mut out: Vec<ChunkPos> = Vec::new();
    while work.len() > 0
        invariant
            forall|i: int, j: int| 0 <= i < j < work@.len() ==> work@[i] != work@[j],
            forall|i: int, j: int| 0 <= i < j < out@.len() ==> out@[i] != out@[j],
            out@.len() + work@.len() == v@.len(),
            forall|p: ChunkPos| #[trigger]
                v@.contains(p) == (out@.contains(p) || work@.contains(p)),
            forall|p: ChunkPos| out@.contains(p) ==> !work@.contains(p),
            forall|p: ChunkPos| work@.contains(p) ==> v@.contains(p),
            forall|p: ChunkPos| out@.contains(p) ==> v@.contains(p),
            forall|i: int, j: int|
                0 <= i < j < out@.len() ==> spec_dist_key(out@[i], center) <= spec_dist_key(
                    out@[j],
                    center,
                ),
            forall|i: int, j: int|
                0 <= i < out@.len() && 0 <= j < work@.len() ==> spec_dist_key(out@[i], center)
                    <= spec_dist_key(work@[j], center),
        decreases work@.len(),
    {
        // find the nearest remaining position
        let mut best: usize = 0;
        let mut best_key = dist_key(work[0], center);
        let mut i: usize = 1;
        while i < work.len()
            invariant
                work@.len() > 0,
                best < i <= work@.len(),
                best_key == spec_dist_key(work@[best as int], center),
                forall|j: int| 0 <= j < i ==> best_key <= spec_dist_key(work@[j], center),
            decreases work@.len() - i,
        {
            let k = dist_key(work[i], center);
            if k < best_key {
                best = i;
                best_key = k;
            }
            i = i + 1;
        }

        let ghost work_before = work@;
        let p = work.swap_remove(best);
        proof {
            assert(work@ =~= work_before.update(best as int, work_before[work_before.len() - 1
            ]).drop_last());
            assert forall|q: ChunkPos| work@.contains(q) implies (work_before.contains(q) && q
                != p) by {
                let w = choose|k: int| 0 <= k < work@.len() && work@[k] == q;
                if w == best as int {
                    assert(work_before[work_before.len() - 1] == q);
                } else {
                    assert(work_before[w] == q);
                }
                if q == p {
                    let w2 = if w == best as int {
                        work_before.len() - 1
                    } else {
                        w
                    };
                    assert(work_before[w2] == q && work_before[best as int] == p);
                    assert(w2 != best as int);
                    assert(false);
                }
            }
            assert forall|q: ChunkPos| work_before.contains(q) && q != p implies work@.contains(
                q,
            ) by {
                let w = choose|k: int| 0 <= k < work_before.len() && work_before[k] == q;
                if w == work_before.len() - 1 {
                    if best as int == w {
                        assert(false);
                    } else {
                        assert(work@[best as int] == q);
                    }
                } else {
                    assert(work@[w] == q);
                }
            }
        }
        let ghost out_before = out@;
        out.push(p);
        proof {
            assert(work_before.contains(p));
            assert forall|q: ChunkPos| out@.contains(q) == (out_before.contains(q) || q == p) by {
                if out_before.contains(q) {
                    let w = choose|k: int| 0 <= k < out_before.len() && out_before[k] == q;
                    assert(out@[w] == q);
                } else if q == p {
                    assert(out@[out@.len() - 1] == q);
                } else {
                    if out@.contains(q) {
                        let w = choose|k: int| 0 <= k < out@.len() && out@[k] == q;
                        assert(w < out_before.len() || q == p);
                    }
                }
            }
            assert(!out_before.contains(p));
            assert forall|q: ChunkPos| out@.contains(q) implies !work@.contains(q) by {
                if q == p {
                } else {
                    assert(out_before.contains(q));
                    assert(!work_before.contains(q));
                }
            }
            assert forall|a: int, b: int|
                0 <= a < b < out@.len() implies out@[a] != out@[b] by {
                if b == out@.len() - 1 {
                    assert(out@[a] == out_before[a]);
                    assert(out_before.contains(out_before[a]));
                }
            }
            assert forall|a: int, b: int|
                0 <= a < out@.len() && 0 <= b < work@.len() implies spec_dist_key(out@[a], center)
                <= spec_dist_key(work@[b], center) by {
                assert(work_before.contains(work@[b]));
                let wb = choose|k: int|
                    0 <= k < work_before.len() && work_before[k] == work@[b];
                assert(best_key <= spec_dist_key(work_before[wb], center));
                if a < out@.len() - 1 {
                    assert(out@[a] == out_before[a]);
                } else {
                    assert(out@[a] == p);
                }
            }
            assert forall|a: int, b: int|
                0 <= a < b < out@.len() implies spec_dist_key(out@[a], center) <= spec_dist_key(
                    out@[b],
                    center,
                ) by {
                if b == out@.len() - 1 {
                    assert(out@[a] == out_before[a]);
                    assert(work_before.contains(p));
                    let wp = choose|k: int| 0 <= k < work_before.len() && work_before[k] == p;
                }
            }
        }
    }
    out
}

/// Whether a position is a fresh discovery: not resident, not visible,
/// not queued, not being generated.
pub open spec fn spec_fresh(
    world: &VoxelWorld,
    to_load: Seq<ChunkPos>,
    tasks: &TaskTracker,
    p: ChunkPos,
) -> bool {
    &&& !world.chunks.spec_contains_pos(p)
    &&& !world.loaded_chunks.spec_contains_pos(p)
    &&& !tasks.spec_has_pos(p)
    &&& !to_load.contains(p)
}

/// Filters the desired positions down to fresh discoveries: not resident,
/// not visible, not already queued, not being generated.
fn discover(
    world: &VoxelWorld,
    to_load: &Vec<ChunkPos>,
    tasks: &TaskTracker,
    desired: &Vec<ChunkPos>,
) -> (r: Vec<ChunkPos>)
    requires
        world.spec_wf(),
        forall|a: int, b: int| 0 <= a < b < desired@.len() ==> desired@[a] != desired@[b],
    ensures
        forall|p: ChunkPos|
            r@.contains(p) == (desired@.contains(p) && spec_fresh(world, to_load@, tasks, p)),
        forall|a: int, b: int| 0 <= a < b < r@.len() ==> r@[a] != r@[b],
{
    let mut added: Vec<ChunkPos> = Vec::new();
    let mut i: usize = 0;
    while i < desired.len()
        invariant
            world.spec_wf(),
            forall|a: int, b: int| 0 <= a < b < desired@.len() ==> desired@[a] != desired@[b],
            i <= desired@.len(),
            forall|w: int|
                0 <= w < added@.len() ==> (desired@.contains(#[trigger] added@[w]) && spec_fresh(
                    world,
                    to_load@,
                    tasks,
                    added@[w],
                )),
            forall|w: int|
                #![trigger added@[w]]
                0 <= w < added@.len() ==> (exists|k: int|
                    0 <= k < i && #[trigger] desired@[k] == added@[w]),
            forall|k: int|
                0 <= k < i ==> (spec_fresh(world, to_load@, tasks, #[trigger] desired@[k])
                    ==> added@.contains(desired@[k])),
            forall|a: int, b: int| 0 <= a < b < added@.len() ==> added@[a] != added@[b],
        decreases desired@.len() - i,
    {
        let p = desired[i];
        let ghost added_before = added@;
        if !world.loaded_chunks.contains_pos(p) && !world.chunks.contains_pos(p)
            && !vec_contains_pos(to_load, p) && !tasks.has_pos(p) {
            proof {
                if added_before.contains(p) {
                    let w = choose|w: int|
                        0 <= w < added_before.len() && added_before[w] == p;
                    let k = choose|k: int|
                        0 <= k < i && #[trigger] desired@[k] == added_before[w];
                    assert(desired@[k] == desired@[i as int]);
                    assert(false);
                }
            }
            added.push(p);
            proof {
                assert(desired@[i as int] == p);
                assert(desired@.contains(p));
                assert forall|w: int|
                    #![trigger added@[w]]
                    0 <= w < added@.len() implies (exists|k: int|
                    0 <= k < i + 1 && #[trigger] desired@[k] == added@[w]) by {
                    if w == added@.len() - 1 {
                        assert(desired@[i as int] == added@[w]);
                    } else {
                        assert(added@[w] == added_before[w]);
                        let k = choose|k: int|
                            0 <= k < i && #[trigger] desired@[k] == added_before[w];
                        assert(0 <= k < i + 1 && desired@[k] == added@[w]);
                    }
                }
            }
        }
        proof {
            assert forall|k: int|
                0 <= k < i + 1 implies (spec_fresh(world, to_load@, tasks, #[trigger] desired@[k])
                ==> added@.contains(desired@[k])) by {
                if k == i {
                    if spec_fresh(world, to_load@, tasks, desired@[k]) {
                        assert(added@[added@.len() - 1] == desired@[k]);
                    }
                } else {
                    if spec_fresh(world, to_load@, tasks, desired@[k]) {
                        let w = choose|w: int|
                            0 <= w < added_before.len() && added_before[w] == desired@[k];
                        assert(added@[w] == desired@[k]);
                    }
                }
            }
        }
        i = i + 1;
    }
    proof {
        assert forall|p: ChunkPos|
            added@.contains(p) == (desired@.contains(p) && spec_fresh(
                world,
                to_load@,
                tasks,
                p,
            )) by {
            if added@.contains(p) {
                let w = choose|w: int| 0 <= w < added@.len() && added@[w] == p;
                assert(desired@.contains(added@[w]));
            }
            if desired@.contains(p) && spec_fresh(world, to_load@, tasks, p) {
                let k = choose|k: int| 0 <= k < desired@.len() && desired@[k] == p;
                assert(added@.contains(desired@[k]));
            }
        }
    }
    added
}

/// Appends disjoint fresh positions to a distinct position list, keeping
/// it distinct.
fn append_disjoint(dst: Vec<ChunkPos>, src: &Vec<ChunkPos>) -> (r: Vec<ChunkPos>)
    requires
        forall|a: int, b: int| 0 <= a < b < dst@.len() ==> dst@[a] != dst@[b],
        forall|a: int, b: int| 0 <= a < b < src@.len() ==> src@[a] != src@[b],
        forall|p: ChunkPos| src@.contains(p) ==> !dst@.contains(p),
    ensures
        r@ == dst@ + src@,
        forall|p: ChunkPos| r@.contains(p) == (dst@.contains(p) || src@.contains(p)),
        forall|a: int, b: int| 0 <= a < b < r@.len() ==> r@[a] != r@[b],
{
    let ghost dst0 = dst@;
    let mut out = dst;
    let mut i: usize = 0;
    while i < src.len()
        invariant
            i <= src@.len(),
            out@ == dst0 + src@.subrange(0, i as int),
        decreases src@.len() - i,
    {
        out.push(src[i]);
        proof {
            assert(dst0 + src@.subrange(0, i as int + 1) =~= (dst0 + src@.subrange(
                0,
                i as int,
            )).push(src@[i as int]));
        }
        i = i + 1;
    }
    proof {
        assert(src@.subrange(0, src@.len() as int) =~= src@);
        let n0 = dst0.len() as int;
        assert forall|p: ChunkPos|
            out@.contains(p) == (dst0.contains(p) || src@.contains(p)) by {
            if dst0.contains(p) {
                let w = choose|k: int| 0 <= k < dst0.len() && dst0[k] == p;
                assert(out@[w] == p);
            } else if src@.contains(p) {
                let w = choose|k: int| 0 <= k < src@.len() && src@[k] == p;
                assert(out@[n0 + w] == p);
            } else {
                if out@.contains(p) {
                    let w = choose|k: int| 0 <= k < out@.len() && out@[k] == p;
                    if w < n0 {
                        assert(dst0[w] == p);
                    } else {
                        assert(src@[w - n0] == p);
                    }
                    assert(false);
                }
            }
        }
        assert forall|a: int, b: int| 0 <= a < b < out@.len() implies out@[a] != out@[b] by {
            if b < n0 {
            } else if a >= n0 {
                assert(out@[a] == src@[a - n0] && out@[b] == src@[b - n0]);
            } else {
                assert(out@[a] == dst0[a] && out@[b] == src@[b - n0]);
                assert(dst0.contains(dst0[a]));
                assert(src@.contains(src@[b - n0]));
            }
        }
    }
    out
}

/// Extends the unload list with every resident chunk outside the render
/// range around the center, without duplicating entries.
fn extend_unloads(world: &VoxelWorld, to_unload: Vec<ChunkPos>, center: ChunkPos) -> (r: Vec<
    ChunkPos,
>)
    requires
        world.spec_wf(),
        -1000000 <= center.x <= 1000000,
        -1000000 <= center.y <= 1000000,
        -1000000 <= center.z <= 1000000,
        forall|a: int, b: int| 0 <= a < b < to_unload@.len() ==> to_unload@[a] != to_unload@[b],
    ensures
        forall|p: ChunkPos| #![trigger r@.contains(p)]
            r@.contains(p) == (to_unload@.contains(p) || (world.chunks.spec_contains_pos(p)
                && spec_out_of_range(p, center))),
        forall|a: int, b: int| 0 <= a < b < r@.len() ==> r@[a] != r@[b],
{
    let ghost t0 = to_unload@;
    let mut out = to_unload;
    let n = world.chunks.entries.len();
    let mut k: usize = 0;
    while k < n
        invariant
            world.spec_wf(),
            -1000000 <= center.x <= 1000000,
            -1000000 <= center.y <= 1000000,
            -1000000 <= center.z <= 1000000,
            n == world.chunks.entries.len(),
            k <= n,
            forall|w: int|
                0 <= w < out@.len() ==> (t0.contains(#[trigger] out@[w]) || (
                world.chunks.spec_contains_pos(out@[w]) && spec_out_of_range(out@[w], center))),
            forall|j: int| 0 <= j < t0.len() ==> out@.contains(#[trigger] t0[j]),
            forall|w: int|
                0 <= w < k ==> (spec_out_of_range((#[trigger] world.chunks.entries[w]).0, center)
                    ==> out@.contains(world.chunks.entries[w].0)),
            forall|a: int, b: int| 0 <= a < b < out@.len() ==> out@[a] != out@[b],
        decreases n - k,
    {
        let p = world.chunks.entries[k].0;
        let ghost out_before = out@;
        let out_of_range = {
            let dxa = abs_i64(p.x as i64 - center.x as i64);
            let dya = abs_i64(p.y as i64 - center.y as i64);
            let dza = abs_i64(p.z as i64 - center.z as i64);
            dxa > 9 || dya > 5 || dza > 9
        };
        proof {
            assert(out_of_range == spec_out_of_range(p, center));
        }
        if out_of_range {
            if !vec_contains_pos(&out, p) {
                out.push(p);
                proof {
                    assert(world.chunks.entries[k as int].0 == p);
                    assert(world.chunks.spec_contains_pos(p));
                    assert forall|j: int|
                        0 <= j < t0.len() implies out@.contains(#[trigger] t0[j]) by {
                        let w = choose|w: int|
                            0 <= w < out_before.len() && out_before[w] == t0[j];
                        assert(out@[w] == t0[j]);
                    }
                    assert forall|w: int|
                        0 <= w < k + 1 implies (spec_out_of_range(
                        (#[trigger] world.chunks.entries[w]).0,
                        center,
                    ) ==> out@.contains(world.chunks.entries[w].0)) by {
                        if w == k {
                            assert(out@[out@.len() - 1] == p);
                        } else {
                            if spec_out_of_range(world.chunks.entries[w].0, center) {
                                let w2 = choose|w2: int|
                                    0 <= w2 < out_before.len() && out_before[w2]
                                        == world.chunks.entries[w].0;
                                assert(out@[w2] == world.chunks.entries[w].0);
                            }
                        }
                    }
                    assert forall|a: int, b: int|
                        0 <= a < b < out@.len() implies out@[a] != out@[b] by {
                        if b >= out_before.len() {
                            assert(out@[b] == p);
                            assert(out@[a] == out_before[a]);
                            assert(out_before.contains(out_before[a]));
                        }
                    }
                }
            } else {
                proof {
                    assert forall|w: int|
                        0 <= w < k + 1 implies (spec_out_of_range(
                        (#[trigger] world.chunks.entries[w]).0,
                        center,
                    ) ==> out@.contains(world.chunks.entries[w].0)) by {
                        if w == k {
                            assert(out@.contains(p));
                        }
                    }
                }
            }
        } else {
            proof {
                assert forall|w: int|
                    0 <= w < k + 1 implies (spec_out_of_range(
                    (#[trigger] world.chunks.entries[w]).0,
                    center,
                ) ==> out@.contains(world.chunks.entries[w].0)) by {
                    if w == k {
                        assert(world.chunks.entries[w].0 == p);
                        assert(!spec_out_of_range(p, center));
                    }
                }
            }
        }
        k = k + 1;
    }
    proof {
        assert forall|p: ChunkPos| #![trigger out@.contains(p)]
            out@.contains(p) == (t0.contains(p) || (world.chunks.spec_contains_pos(p)
                && spec_out_of_range(p, center))) by {
            if out@.contains(p) {
                let w = choose|w: int| 0 <= w < out@.len() && out@[w] == p;
                assert(t0.contains(out@[w]) || (world.chunks.spec_contains_pos(out@[w])
                    && spec_out_of_range(out@[w], center)));
            }
            if t0.contains(p) {
                let j = choose|j: int| 0 <= j < t0.len() && t0[j] == p;
                assert(out@.contains(t0[j]));
            }
            if world.chunks.spec_contains_pos(p) && spec_out_of_range(p, center) {
                let w = choose|w: int|
                    0 <= w < world.chunks.entries.len() && (#[trigger] world.chunks.entries[w]).0
                        == p;
                assert(out@.contains(world.chunks.entries[w].0));
            }
        }
    }
    out
}

/// One scheduling pass: discovers every in-range (and, when a view is
/// given, in-view) chunk that is neither resident, visible, queued nor
/// being generated; queues the discoveries for loading and placeholder
/// creation; keeps the load queue sorted by ascending squared distance to
/// the observer; and queues every resident chunk outside the render range
/// (plus one chunk of hysteresis) for unloading.
pub fn update_chunk_loading(
    world: &VoxelWorld,
    queue: &mut ChunkLoadQueue,
    tasks: &TaskTracker,
    center: ChunkPos,
    view: Option<ViewState>,
)
    requires
        world.spec_wf(),
        old(queue).spec_wf(),
        -1000000 <= center.x <= 1000000,
        -1000000 <= center.y <= 1000000,
        -1000000 <= center.z <= 1000000,
        (match view {
            Some(v) => v.spec_wf(),
            None => true,
        }),
    ensures
        final(queue).spec_wf(),
        final(queue).active_tasks == old(queue).active_tasks,
        final(queue).max_concurrent_tasks == old(queue).max_concurrent_tasks,
        // the load queue gains exactly the fresh discoveries
        forall|p: ChunkPos|
            final(queue).to_load@.contains(p) == (old(queue).to_load@.contains(p) || (
            spec_desired(p, center, view) && !world.chunks.spec_contains_pos(p)
                && !world.loaded_chunks.spec_contains_pos(p) && !tasks.spec_has_pos(p))),
        // nearest chunks first
        forall|i: int, j: int|
            0 <= i < j < final(queue).to_load@.len() ==> spec_dist_key(
                final(queue).to_load@[i],
                center,
            ) <= spec_dist_key(final(queue).to_load@[j], center),
        // the discoveries also await placeholders
        forall|p: ChunkPos|
            final(queue).pending_placeholders@.contains(p) == (old(
                queue,
            ).pending_placeholders@.contains(p) || (spec_desired(p, center, view)
                && !world.chunks.spec_contains_pos(p) && !world.loaded_chunks.spec_contains_pos(p)
                && !tasks.spec_has_pos(p) && !old(queue).to_load@.contains(p))),
        // resident chunks out of range are queued for unloading
        forall|p: ChunkPos|
            final(queue).to_unload@.contains(p) == (old(queue).to_unload@.contains(p) || (
            world.chunks.spec_contains_pos(p) && spec_out_of_range(p, center))),
{
    let desired = desired_coords(center, &view);
    let added = discover(world, &queue.to_load, tasks, &desired);

    let mut pending: Vec<ChunkPos> = Vec::new();
    core::mem::swap(&mut pending, &mut queue.pending_placeholders);
    queue.pending_placeholders = append_pending(pending, &added);

    let mut to_load: Vec<ChunkPos> = Vec::new();
    core::mem::swap(&mut to_load, &mut queue.to_load);
    let extended = append_disjoint(to_load, &added);
    queue.to_load = sort_by_distance(extended, center);

    let mut to_unload: Vec<ChunkPos> = Vec::new();
    core::mem::swap(&mut to_unload, &mut queue.to_unload);
    proof {
        assert(to_unload@ == old(queue).to_unload@);
    }
    let new_unload = extend_unloads(world, to_unload, center);
    proof {
        assert(forall|p: ChunkPos|
            new_unload@.contains(p) == (old(queue).to_unload@.contains(p) || (
            world.chunks.spec_contains_pos(p) && spec_out_of_range(p, center))));
    }
    queue.to_unload = new_unload;

    proof {
        assert forall|p: ChunkPos|
            queue.to_load@.contains(p) == (old(queue).to_load@.contains(p) || (spec_desired(
                p,
                center,
                view,
            ) && !world.chunks.spec_contains_pos(p) && !world.loaded_chunks.spec_contains_pos(p)
                && !tasks.spec_has_pos(p))) by {
            assert(added@.contains(p) == (desired@.contains(p) && spec_fresh(
                world,
                old(queue).to_load@,
                tasks,
                p,
            )));
            assert(desired@.contains(p) == spec_desired(p, center, view));
        }
        assert forall|p: ChunkPos|
            queue.pending_placeholders@.contains(p) == (old(
                queue,
            ).pending_placeholders@.contains(p) || (spec_desired(p, center, view)
                && !world.chunks.spec_contains_pos(p) && !world.loaded_chunks.spec_contains_pos(p)
                && !tasks.spec_has_pos(p) && !old(queue).to_load@.contains(p))) by {
            assert(added@.contains(p) == (desired@.contains(p) && spec_fresh(
                world,
                old(queue).to_load@,
                tasks,
                p,
            )));
            assert(desired@.contains(p) == spec_desired(p, center, view));
        }
        assert forall|p: ChunkPos|
            queue.to_unload@.contains(p) == (old(queue).to_unload@.contains(p) || (
            world.chunks.spec_contains_pos(p) && spec_out_of_range(p, center))) by {}
    }
}

/// Appends positions to the pending-placeholder list.
fn append_pending(dst: Vec<ChunkPos>, src: &Vec<ChunkPos>) -> (r: Vec<ChunkPos>)
    ensures
        r@ == dst@ + src@,
        forall|p: ChunkPos| #![trigger r@.contains(p)]
            r@.contains(p) == (dst@.contains(p) || src@.contains(p)),
{
    let ghost dst0 = dst@;
    let mut out = dst;
    let mut i: usize = 0;
    while i < src.len()
        invariant
            i <= src@.len(),
            out@ == dst0 + src@.subrange(0, i as int),
        decreases src@.len() - i,
    {
        out.push(src[i]);
        proof {
            assert(dst0 + src@.subrange(0, i as int + 1) =~= (dst0 + src@.subrange(
                0,
                i as int,
            )).push(src@[i as int]));
        }
        i = i + 1;
    }
    proof {
        assert(src@.subrange(0, src@.len() as int) =~= src@);
        let n0 = dst0.len() as int;
        assert forall|p: ChunkPos| #![trigger out@.contains(p)]
            out@.contains(p) == (dst0.contains(p) || src@.contains(p)) by {
            if dst0.contains(p) {
                let w = choose|k: int| 0 <= k < dst0.len() && dst0[k] == p;
                assert(out@[w] == p);
            } else if src@.contains(p) {
                let w = choose|k: int| 0 <= k < src@.len() && src@[k] == p;
                assert(out@[n0 + w] == p);
            } else {
                if out@.contains(p) {
                    let w = choose|k: int| 0 <= k < out@.len() && out@[k] == p;
                    if w < n0 {
                        assert(dst0[w] == p);
                    } else {
                        assert(src@[w - n0] == p);
                    }
                    assert(false);
                }
            }
        }
    }
    out
}


/// Whether a chunk coordinate lies outside the render range around a
/// center, with one chunk of hysteresis on every axis.
pub open spec fn spec_out_of_range(p: ChunkPos, center: ChunkPos) -> bool {
    ||| (p.x as int) - (center.x as int) > 9
    ||| (p.x as int) - (center.x as int) < -9
    ||| (p.y as int) - (center.y as int) > 5
    ||| (p.y as int) - (center.y as int) < -5
    ||| (p.z as int) - (center.z as int) > 9
    ||| (p.z as int) - (center.z as int) < -9
}

/// Absolute value of an `i64` away from the minimum.
fn abs_i64(v: i64) -> (r: i64)
    requires
        v != i64::MIN,
    ensures
        r as int == if v as int >= 0 {
            v as int
        } else {
            -(v as int)
        },
{
    if v < 0 {
        -v
    } else {
        v
    }
}

/// Appends all positions of one vector to another.
fn append_positions(dst: &mut Vec<ChunkPos>, src: &Vec<ChunkPos>)
    ensures
        final(dst)@ == old(dst)@ + src@,
{
    let mut i: usize = 0;
    while i < src.len()
        invariant
            i <= src@.len(),
            dst@ == old(dst)@ + src@.subrange(0, i as int),
        decreases src@.len() - i,
    {
        dst.push(src[i]);
        proof {
            assert(old(dst)@ + src@.subrange(0, i as int + 1) =~= (old(dst)@ + src@.subrange(
                0,
                i as int,
            )).push(src@[i as int]));
        }
        i = i + 1;
    }
    proof {
        assert(src@.subrange(0, src@.len() as int) =~= src@);
    }
}


// ===========================================================================
// Placeholders and task dispatch
// ===========================================================================

/// Drains the pending-placeholder list and returns the chunks that still
/// deserve a placeholder: in range of the center and, when a view is given,
/// inside the view cone. The host creates one placeholder entity per
/// returned chunk and registers it with [`register_placeholder`].
pub fn spawn_batch_placeholders(
    queue: &mut ChunkLoadQueue,
    center: ChunkPos,
    view: Option<ViewState>,
) -> (r: Vec<ChunkPos>)
    requires
        old(queue).spec_wf(),
        -1000000 <= center.x <= 1000000,
        -1000000 <= center.y <= 1000000,
        -1000000 <= center.z <= 1000000,
        (match view {
            Some(v) => v.spec_wf(),
            None => true,
        }),
    ensures
        final(queue).spec_wf(),
        final(queue).pending_placeholders@.len() == 0,
        final(queue).to_load == old(queue).to_load,
        final(queue).to_unload == old(queue).to_unload,
        final(queue).active_tasks == old(queue).active_tasks,
        final(queue).max_concurrent_tasks == old(queue).max_concurrent_tasks,
        forall|p: ChunkPos| #![trigger r@.contains(p)]
            r@.contains(p) == (old(queue).pending_placeholders@.contains(p) && spec_in_range(
                p,
                center,
            ) && (match view {
                Some(v) => spec_in_frustum(p, v),
                None => true,
            })),
{
    let mut pending: Vec<ChunkPos> = Vec::new();
    core::mem::swap(&mut pending, &mut queue.pending_placeholders);
    let ghost p0 = pending@;

    let mut out: Vec<ChunkPos> = Vec::new();
    let mut i: usize = 0;
    while i < pending.len()
        invariant
            -1000000 <= center.x <= 1000000,
            -1000000 <= center.y <= 1000000,
            -1000000 <= center.z <= 1000000,
            (match view {
                Some(v) => v.spec_wf(),
                None => true,
            }),
            pending@ == p0,
            i <= p0.len(),
            forall|w: int|
                0 <= w < out@.len() ==> (p0.contains(#[trigger] out@[w]) && spec_in_range(
                    out@[w],
                    center,
                ) && (match view {
                    Some(v) => spec_in_frustum(out@[w], v),
                    None => true,
                })),
            forall|k: int|
                0 <= k < i ==> ((spec_in_range(#[trigger] p0[k], center) && (match view {
                    Some(v) => spec_in_frustum(p0[k], v),
                    None => true,
                })) ==> out@.contains(p0[k])),
        decreases p0.len() - i,
    {
        let p = pending[i];
        let in_range = {
            let dxa = abs_i64(p.x as i64 - center.x as i64);
            let dya = abs_i64(p.y as i64 - center.y as i64);
            let dza = abs_i64(p.z as i64 - center.z as i64);
            dxa <= 8 && dya <= 4 && dza <= 8
        };
        proof {
            assert(in_range == spec_in_range(p, center));
            assert(p0.contains(p));
        }
        let keep = in_range && (match &view {
            Some(v) => is_chunk_in_frustum(p, v),
            None => true,
        });
        let ghost out_before = out@;
        if keep {
            out.push(p);
        }
        proof {
            assert forall|k: int|
                0 <= k < i + 1 implies ((spec_in_range(#[trigger] p0[k], center) && (match view {
                Some(v) => spec_in_frustum(p0[k], v),
                None => true,
            })) ==> out@.contains(p0[k])) by {
                if k == i {
                    if keep {
                        assert(out@[out@.len() - 1] == p0[k]);
                    }
                } else {
                    if spec_in_range(p0[k], center) && (match view {
                        Some(v) => spec_in_frustum(p0[k], v),
                        None => true,
                    }) {
                        let w = choose|w: int|
                            0 <= w < out_before.len() && out_before[w] == p0[k];
                        assert(out@[w] == p0[k]);
                    }
                }
            }
        }
        i = i + 1;
    }
    proof {
        assert forall|p: ChunkPos| #![trigger out@.contains(p)]
            out@.contains(p) == (p0.contains(p) && spec_in_range(p, center) && (match view {
                Some(v) => spec_in_frustum(p, v),
                None => true,
            })) by {
            if out@.contains(p) {
                let w = choose|w: int| 0 <= w < out@.len() && out@[w] == p;
                assert(p0.contains(out@[w]));
            }
            if p0.contains(p) && spec_in_range(p, center) && (match view {
                Some(v) => spec_in_frustum(p, v),
                None => true,
            }) {
                let k = choose|k: int| 0 <= k < p0.len() && p0[k] == p;
                assert(out@.contains(p0[k]));
            }
        }
    }
    out
}

/// Records the placeholder entity the host created for a chunk.
pub fn register_placeholder(placeholders: &mut PlaceholderEntities, pos: ChunkPos, entity: u64)
    requires
        old(placeholders).map.wf(),
    ensures
        final(placeholders).map.wf(),
        final(placeholders).map.spec_get(pos) == Some(entity),
        forall|p: ChunkPos|
            p != pos ==> final(placeholders).map.spec_get(p) == old(placeholders).map.spec_get(p),
{
    placeholders.map.insert(pos, entity);
}


/// Buffers a finished background result: removes its in-flight task,
/// frees one task slot, and queues the result for the next batch apply. A
/// result whose task is no longer tracked (its chunk was unloaded while
/// generating) is discarded. Returns whether the result was accepted.
#[verifier::rlimit(50)]
pub fn handle_completed_mesh_task(
    queue: &mut ChunkLoadQueue,
    buffer: &mut ChunkReplacementBuffer,
    tasks: &mut TaskTracker,
    chunk_pos: ChunkPos,
    voxels: Vec<VoxelKind>,
    mesh: MeshData,
) -> (accepted: bool)
    requires
        old(buffer).spec_wf(),
        voxels@.len() == 4096,
    ensures
        final(buffer).spec_wf(),
        accepted == old(tasks).spec_has_pos(chunk_pos),
        !accepted ==> {
            &&& *final(queue) == *old(queue)
            &&& *final(buffer) == *old(buffer)
            &&& final(tasks).tasks@ == old(tasks).tasks@
        },
        accepted ==> {
            &&& final(buffer).completed@.len() == old(buffer).completed@.len() + 1
            &&& final(buffer).completed@[old(buffer).completed@.len() as int].chunk_pos
                == chunk_pos
            &&& final(buffer).completed@[old(buffer).completed@.len() as int].voxels@ == voxels@
            &&& forall|k: int|
                0 <= k < old(buffer).completed@.len() ==> final(buffer).completed@[k] == old(
                    buffer,
                ).completed@[k]
            &&& final(buffer).timer_ms == old(buffer).timer_ms
            &&& final(buffer).interval_ms == old(buffer).interval_ms
            &&& final(buffer).min_batch_size == old(buffer).min_batch_size
            &&& final(tasks).tasks@.len() == old(tasks).tasks@.len() - 1
            &&& final(queue).active_tasks == (if old(queue).active_tasks > 0 {
                (old(queue).active_tasks - 1) as usize
            } else {
                0usize
            })
            &&& final(queue).to_load == old(queue).to_load
            &&& final(queue).to_unload == old(queue).to_unload
            &&& final(queue).pending_placeholders == old(queue).pending_placeholders
            &&& final(queue).max_concurrent_tasks == old(queue).max_concurrent_tasks
            &&& forall|p: ChunkPos|
                p != chunk_pos ==> final(tasks).spec_has_pos(p) == old(tasks).spec_has_pos(p)
        },
{
    let found = find_task(tasks, chunk_pos);

    match found {
        Some(idx) => {
            let ghost t0 = tasks.tasks@;
            let task = tasks.tasks.remove(idx);
            queue.active_tasks = if queue.active_tasks > 0 {
                queue.active_tasks - 1
            } else {
                0
            };
            buffer.completed.push(
                CompletedChunk {
                    chunk_pos,
                    voxels,
                    mesh,
                    placeholder_entity: task.placeholder_entity,
                },
            );
            proof {
                assert forall|p: ChunkPos|
                    p != chunk_pos implies tasks.spec_has_pos(p) == (exists|j: int|
                    0 <= j < t0.len() && (#[trigger] t0[j]).chunk_pos == p) by {
                    if exists|j: int| 0 <= j < t0.len() && (#[trigger] t0[j]).chunk_pos == p {
                        let j = choose|j: int|
                            0 <= j < t0.len() && (#[trigger] t0[j]).chunk_pos == p;
                        assert(j != idx);
                        if j < idx {
                            assert(tasks.tasks@[j].chunk_pos == p);
                        } else {
                            assert(tasks.tasks@[j - 1].chunk_pos == p);
                        }
                    }
                    if tasks.spec_has_pos(p) {
                        let j = choose|j: int|
                            0 <= j < tasks.tasks@.len() && (#[trigger] tasks.tasks@[j]).chunk_pos
                                == p;
                        if j < idx {
                            assert(t0[j].chunk_pos == p);
                        } else {
                            assert(t0[j + 1].chunk_pos == p);
                        }
                    }
                }
            }
            true
        },
        None => false,
    }
}

/// The position of the first in-flight task for a chunk, when one exists.
fn find_task(tasks: &TaskTracker, chunk_pos: ChunkPos) -> (r: Option<usize>)
    ensures
        match r {
            Some(i) => i < tasks.tasks@.len() && tasks.tasks@[i as int].chunk_pos == chunk_pos,
            None => !tasks.spec_has_pos(chunk_pos),
        },
        r is Some == tasks.spec_has_pos(chunk_pos),
{
    let mut i: usize = 0;
    while i < tasks.tasks.len()
        invariant
            i <= tasks.tasks@.len(),
            forall|j: int| 0 <= j < i ==> (#[trigger] tasks.tasks@[j]).chunk_pos != chunk_pos,
        decreases tasks.tasks@.len() - i,
    {
        if tasks.tasks[i].chunk_pos == chunk_pos {
            proof {
                assert(tasks.tasks@[i as int].chunk_pos == chunk_pos);
            }
            return Some(i);
        }
        i = i + 1;
    }
    None
}

/// Whether the buffer holds a completed result for a chunk.
pub open spec fn spec_buffer_has(b: &ChunkReplacementBuffer, p: ChunkPos) -> bool {
    exists|k: int| 0 <= k < b.completed@.len() && (#[trigger] b.completed@[k]).chunk_pos == p
}



/// The batch-apply trigger: enough results are buffered, or enough time
/// has passed since the last apply.
pub open spec fn spec_should_apply(b: &ChunkReplacementBuffer, dt_ms: u64) -> bool {
    b.completed@.len() >= b.min_batch_size || b.timer_ms + dt_ms >= b.interval_ms
}

/// One batch-apply outcome the host must perform: despawn the chunk's
/// placeholder entity and, when the mesh has geometry, create the real
/// render entity and register it with [`VoxelWorld::loaded_chunks`].
#[derive(Clone, Copy, PartialEq, Eq, Structural)]
pub struct ApplyOutcome {
    pub chunk_pos: ChunkPos,
    pub placeholder_entity: u64,
    pub has_geometry: bool,
}

/// Applies buffered background results in a batch: when results are
/// buffered and either the minimum batch size is reached or the apply
/// interval has elapsed (whichever comes first), every buffered result's
/// voxels enter the world as a clean resident chunk, its placeholder
/// leaves the placeholder map, and the host is told which entities to
/// replace. Otherwise only the timer advances; an empty buffer leaves
/// everything untouched.
#[verifier::rlimit(50)]
pub fn apply_chunk_replacements(
    world: &mut VoxelWorld,
    buffer: &mut ChunkReplacementBuffer,
    placeholders: &mut PlaceholderEntities,
    dt_ms: u64,
) -> (r: Vec<ApplyOutcome>)
    requires
        old(world).spec_wf(),
        old(buffer).spec_wf(),
        old(placeholders).map.wf(),
        dt_ms <= 1000000000,
        old(buffer).timer_ms <= 1000000000000,
    ensures
        final(world).spec_wf(),
        final(buffer).spec_wf(),
        final(placeholders).map.wf(),
        old(buffer).completed@.len() == 0 ==> {
            &&& *final(world) == *old(world)
            &&& *final(buffer) == *old(buffer)
            &&& *final(placeholders) == *old(placeholders)
            &&& r@.len() == 0
        },
        old(buffer).completed@.len() > 0 && !spec_should_apply(old(buffer), dt_ms) ==> {
            &&& *final(world) == *old(world)
            &&& *final(placeholders) == *old(placeholders)
            &&& final(buffer).completed == old(buffer).completed
            &&& final(buffer).timer_ms == old(buffer).timer_ms + dt_ms
            &&& r@.len() == 0
        },
        old(buffer).completed@.len() > 0 && spec_should_apply(old(buffer), dt_ms) ==> {
            &&& final(buffer).completed@.len() == 0
            &&& final(buffer).timer_ms == 0
            &&& r@.len() == old(buffer).completed@.len()
            &&& forall|k: int|
                0 <= k < r@.len() ==> {
                    let c = #[trigger] old(buffer).completed@[k];
                    &&& r@[k].chunk_pos == c.chunk_pos
                    &&& r@[k].placeholder_entity == c.placeholder_entity
                    &&& r@[k].has_geometry == (c.mesh.indices@.len() > 0)
                    &&& final(world).chunks.spec_contains_pos(c.chunk_pos)
                    &&& final(placeholders).map.spec_get(c.chunk_pos) is None
                }
            &&& forall|p: ChunkPos|
                (forall|k: int|
                    0 <= k < old(buffer).completed@.len() ==> (
                    #[trigger] old(buffer).completed@[k]).chunk_pos != p)
                    ==> (final(world).chunks.spec_get(p) == old(world).chunks.spec_get(p)
                    && final(placeholders).map.spec_get(p) == old(placeholders).map.spec_get(p))
            &&& final(world).loaded_chunks == old(world).loaded_chunks
        },
        final(buffer).interval_ms == old(buffer).interval_ms,
        final(buffer).min_batch_size == old(buffer).min_batch_size,
{
    if buffer.completed.len() == 0 {
        return Vec::new();
    }

    buffer.timer_ms = buffer.timer_ms + dt_ms;

    let should_replace = buffer.completed.len() >= buffer.min_batch_size || buffer.timer_ms
        >= buffer.interval_ms;
    if !should_replace {
        return Vec::new();
    }

    buffer.timer_ms = 0;

    let mut completed: Vec<CompletedChunk> = Vec::new();
    core::mem::swap(&mut completed, &mut buffer.completed);
    let ghost c0 = completed@;

    let mut out: Vec<ApplyOutcome> = Vec::new();
    let ghost entry_world = *world;
    let ghost entry_ph = *placeholders;
    let mut i: usize = 0;
    while i < completed.len()
        invariant
            world.spec_wf(),
            placeholders.map.wf(),
            completed@ == c0,
            forall|k: int| 0 <= k < c0.len() ==> (#[trigger] c0[k]).voxels@.len() == 4096,
            i <= c0.len(),
            out@.len() == i,
            entry_world.spec_wf(),
            world.loaded_chunks == entry_world.loaded_chunks,
            forall|k: int|
                0 <= k < i ==> {
                    let c = #[trigger] c0[k];
                    &&& out@[k].chunk_pos == c.chunk_pos
                    &&& out@[k].placeholder_entity == c.placeholder_entity
                    &&& out@[k].has_geometry == (c.mesh.indices@.len() > 0)
                    &&& world.chunks.spec_contains_pos(c.chunk_pos)
                    &&& placeholders.map.spec_get(c.chunk_pos) is None
                },
            forall|p: ChunkPos|
                (forall|k: int| 0 <= k < i ==> (#[trigger] c0[k]).chunk_pos != p) ==> (
                world.chunks.spec_get(p) == entry_world.chunks.spec_get(p)
                    && placeholders.map.spec_get(p) == entry_ph.map.spec_get(p)),
        decreases c0.len() - i,
    {
        let c = &completed[i];
        let has_geometry = c.mesh.indices.len() > 0;

        let mut chunk_data = ChunkData::new();
        chunk_data.voxels = crate::chunk::clone_plain_vec(&c.voxels);
        chunk_data.is_dirty = false;
        let ghost wpre = *world;
        let ghost ppre = *placeholders;
        world.chunks.insert(c.chunk_pos, chunk_data);
        proof {
            assert forall|w: int|
                0 <= w < world.chunks.entries.len() implies (
            #[trigger] world.chunks.entries[w]).1.spec_wf() by {
                if world.chunks.entries[w] == (c0[i as int].chunk_pos, chunk_data) {
                } else {
                    assert(wpre.chunks.entries@.contains(world.chunks.entries@[w]));
                    let j = choose|j: int|
                        0 <= j < wpre.chunks.entries@.len() && wpre.chunks.entries@[j]
                            == world.chunks.entries@[w];
                    assert(wpre.chunks.entries[j].1.spec_wf());
                }
            }
        }
        placeholders.map.remove(c.chunk_pos);
        out.push(
            ApplyOutcome {
                chunk_pos: c.chunk_pos,
                placeholder_entity: c.placeholder_entity,
                has_geometry,
            },
        );
        proof {
            assert forall|k: int|
                0 <= k < i + 1 implies {
                let cc = #[trigger] c0[k];
                &&& out@[k].chunk_pos == cc.chunk_pos
                &&& out@[k].placeholder_entity == cc.placeholder_entity
                &&& out@[k].has_geometry == (cc.mesh.indices@.len() > 0)
                &&& world.chunks.spec_contains_pos(cc.chunk_pos)
                &&& placeholders.map.spec_get(cc.chunk_pos) is None
            } by {
                let cur = c0[i as int].chunk_pos;
                if k < i {
                    if c0[k].chunk_pos == cur {
                        assert(world.chunks.spec_get(cur) is Some);
                        assert(placeholders.map.spec_get(cur) is None);
                    } else {
                        assert(world.chunks.spec_get(c0[k].chunk_pos) == wpre.chunks.spec_get(
                            c0[k].chunk_pos,
                        ));
                        assert(placeholders.map.spec_get(c0[k].chunk_pos)
                            == ppre.map.spec_get(c0[k].chunk_pos));
                    }
                } else {
                    assert(world.chunks.spec_get(cur) is Some);
                }
            }
        }
        i = i + 1;
    }
    proof {
        assert forall|k: int|
            0 <= k < r_len_ghost(out@) implies world.chunks.spec_contains_pos(
            (#[trigger] c0[k]).chunk_pos,
        ) by {}
    }
    out
}

/// Length helper for ghost reasoning.
pub open spec fn r_len_ghost(s: Seq<ApplyOutcome>) -> int {
    s.len() as int
}


/// The tasks dispatched for a taken queue front, in order: one task per
/// taken chunk that holds a placeholder, pairing the chunk with its
/// placeholder entity; chunks without a placeholder are skipped.
pub open spec fn spec_dispatched(
    taken: Seq<ChunkPos>,
    placeholders: &PlaceholderEntities,
    n: int,
) -> Seq<ComputeMeshTask>
    decreases n,
{
    if n <= 0 {
        Seq::empty()
    } else {
        let prev = spec_dispatched(taken, placeholders, n - 1);
        match placeholders.map.spec_get(taken[n - 1]) {
            Some(e) => prev.push(ComputeMeshTask { chunk_pos: taken[n - 1], placeholder_entity: e }),
            None => prev,
        }
    }
}

/// Takes as many chunks from the front of the load queue as the task
/// budget allows and starts tracking one background task per taken chunk
/// that has a placeholder; a chunk without one is skipped this tick. The
/// host runs one generation task per returned entry.
pub fn spawn_mesh_tasks(
    queue: &mut ChunkLoadQueue,
    placeholders: &PlaceholderEntities,
    tasks: &mut TaskTracker,
) -> (r: Vec<ComputeMeshTask>)
    requires
        old(queue).spec_wf(),
        placeholders.map.wf(),
        old(queue).active_tasks <= old(queue).max_concurrent_tasks,
        old(tasks).tasks@.len() < 1000000,
        old(queue).to_load@.len() < 1000000,
    ensures
        final(queue).spec_wf(),
        final(tasks).tasks@ == old(tasks).tasks@ + r@,
        final(queue).active_tasks == old(queue).active_tasks + r@.len(),
        final(queue).active_tasks <= final(queue).max_concurrent_tasks,
        final(queue).max_concurrent_tasks == old(queue).max_concurrent_tasks,
        final(queue).to_unload == old(queue).to_unload,
        final(queue).pending_placeholders == old(queue).pending_placeholders,
        ({
            let count = if old(queue).to_load@.len() <= old(queue).max_concurrent_tasks - old(
                queue,
            ).active_tasks {
                old(queue).to_load@.len() as int
            } else {
                old(queue).max_concurrent_tasks - old(queue).active_tasks
            };
            final(queue).to_load@ == old(queue).to_load@.subrange(
                count,
                old(queue).to_load@.len() as int,
            )
        }),
        // the returned tasks are exactly the taken queue front, in order,
        // filtered to the chunks that hold a placeholder and paired with it
        ({
            let count = if old(queue).to_load@.len() <= old(queue).max_concurrent_tasks - old(
                queue,
            ).active_tasks {
                old(queue).to_load@.len() as int
            } else {
                old(queue).max_concurrent_tasks - old(queue).active_tasks
            };
            r@ == spec_dispatched(old(queue).to_load@.subrange(0, count), placeholders, count)
        }),
        forall|w: int|
            0 <= w < r@.len() ==> placeholders.map.spec_get(
                (#[trigger] r@[w]).chunk_pos,
            ) == Some(r@[w].placeholder_entity),
{
    let available_slots = queue.max_concurrent_tasks - queue.active_tasks;
    let count = if queue.to_load.len() <= available_slots {
        queue.to_load.len()
    } else {
        available_slots
    };

    let ghost tl0 = queue.to_load@;

    // split the queue: the taken front and the remaining suffix
    let mut taken: Vec<ChunkPos> = Vec::new();
    let mut i: usize = 0;
    while i < count
        invariant
            count <= queue.to_load@.len(),
            i <= count,
            queue.to_load@ == tl0,
            taken@ == tl0.subrange(0, i as int),
        decreases count - i,
    {
        taken.push(queue.to_load[i]);
        proof {
            assert(tl0.subrange(0, i as int + 1) =~= tl0.subrange(0, i as int).push(
                tl0[i as int],
            ));
        }
        i = i + 1;
    }

    let mut rest: Vec<ChunkPos> = Vec::new();
    let mut j: usize = count;
    while j < queue.to_load.len()
        invariant
            count <= queue.to_load@.len(),
            count <= j <= queue.to_load@.len(),
            queue.to_load@ == tl0,
            rest@ == tl0.subrange(count as int, j as int),
        decreases queue.to_load@.len() - j,
    {
        rest.push(queue.to_load[j]);
        proof {
            assert(tl0.subrange(count as int, j as int + 1) =~= tl0.subrange(
                count as int,
                j as int,
            ).push(tl0[j as int]));
        }
        j = j + 1;
    }
    queue.to_load = rest;
    proof {
        assert forall|a: int, b: int|
            0 <= a < b < queue.to_load@.len() implies queue.to_load@[a] != queue.to_load@[b] by {
            assert(queue.to_load@[a] == tl0[count + a]);
            assert(queue.to_load@[b] == tl0[count + b]);
        }
    }

    // dispatch the taken chunks that have a placeholder
    let ghost tasks0 = tasks.tasks@;
    let mut out: Vec<ComputeMeshTask> = Vec::new();
    let mut k: usize = 0;
    while k < taken.len()
        invariant
            placeholders.map.wf(),
            k <= taken@.len(),
            taken@.len() == count,
            count as int <= old(queue).max_concurrent_tasks - old(queue).active_tasks,
            queue.active_tasks == old(queue).active_tasks + out@.len(),
            out@.len() <= k,
            queue.max_concurrent_tasks == old(queue).max_concurrent_tasks,
            queue.to_unload == old(queue).to_unload,
            queue.pending_placeholders == old(queue).pending_placeholders,
            queue.to_load@ == tl0.subrange(count as int, tl0.len() as int),
            queue.spec_wf(),
            tasks.tasks@ == tasks0 + out@,
            tasks0.len() < 1000000,
            taken@ == tl0.subrange(0, count as int),
            out@ == spec_dispatched(taken@, placeholders, k as int),
            forall|w: int|
                0 <= w < out@.len() ==> placeholders.map.spec_get(
                    (#[trigger] out@[w]).chunk_pos,
                ) == Some(out@[w].placeholder_entity),
        decreases taken@.len() - k,
    {
        let chunk_pos = taken[k];
        match placeholders.map.get(chunk_pos) {
            Some(entity) => {
                let e = *entity;
                out.push(ComputeMeshTask { chunk_pos, placeholder_entity: e });
                tasks.tasks.push(ComputeMeshTask { chunk_pos, placeholder_entity: e });
                queue.active_tasks = queue.active_tasks + 1;
                proof {
                    assert(tasks.tasks@ =~= tasks0 + out@);
                }
            },
            None => {},
        }
        k = k + 1;
    }
    out
}





// ===========================================================================
// Unloading
// ===========================================================================

/// Keeps the positions of a distinct list that are not in the excluded
/// list.
fn filter_positions(v: Vec<ChunkPos>, excl: &Vec<ChunkPos>) -> (r: Vec<ChunkPos>)
    requires
        forall|a: int, b: int| 0 <= a < b < v@.len() ==> v@[a] != v@[b],
    ensures
        forall|p: ChunkPos| #![trigger r@.contains(p)]
            r@.contains(p) == (v@.contains(p) && !excl@.contains(p)),
        forall|a: int, b: int| 0 <= a < b < r@.len() ==> r@[a] != r@[b],
{
    let ghost v0 = v@;
    let mut out: Vec<ChunkPos> = Vec::new();
    let mut i: usize = 0;
    while i < v.len()
        invariant
            v@ == v0,
            forall|a: int, b: int| 0 <= a < b < v0.len() ==> v0[a] != v0[b],
            i <= v0.len(),
            forall|w: int|
                #![trigger out@[w]]
                0 <= w < out@.len() ==> (v0.contains(out@[w]) && !excl@.contains(out@[w])
                    && (exists|k: int| 0 <= k < i && #[trigger] v0[k] == out@[w])),
            forall|k: int|
                0 <= k < i ==> (!excl@.contains(#[trigger] v0[k]) ==> out@.contains(v0[k])),
            forall|a: int, b: int| 0 <= a < b < out@.len() ==> out@[a] != out@[b],
        decreases v0.len() - i,
    {
        let p = v[i];
        let ghost out_before = out@;
        if !vec_contains_pos(excl, p) {
            proof {
                if out_before.contains(p) {
                    let w = choose|w: int| 0 <= w < out_before.len() && out_before[w] == p;
                    let k = choose|k: int| 0 <= k < i && #[trigger] v0[k] == out_before[w];
                    assert(v0[k] == v0[i as int]);
                    assert(false);
                }
            }
            out.push(p);
            proof {
                assert(v0[i as int] == p);
                assert(v0.contains(p));
                assert forall|w: int| #![trigger out@[w]]
                    0 <= w < out@.len() implies (v0.contains(out@[w]) && !excl@.contains(out@[w])
                    && (exists|k: int| 0 <= k < i + 1 && #[trigger] v0[k] == out@[w])) by {
                    if w == out@.len() - 1 {
                        assert(v0[i as int] == out@[w]);
                    } else {
                        assert(out@[w] == out_before[w]);
                        let k = choose|k: int| 0 <= k < i && #[trigger] v0[k] == out_before[w];
                        assert(0 <= k < i + 1 && v0[k] == out@[w]);
                    }
                }
            }
        }
        proof {
            assert forall|k: int|
                0 <= k < i + 1 implies (!excl@.contains(#[trigger] v0[k]) ==> out@.contains(
                v0[k],
            )) by {
                if k == i {
                    if !excl@.contains(v0[k]) {
                        assert(out@[out@.len() - 1] == v0[k]);
                    }
                } else {
                    if !excl@.contains(v0[k]) {
                        let w = choose|w: int|
                            0 <= w < out_before.len() && out_before[w] == v0[k];
                        assert(out@[w] == v0[k]);
                    }
                }
            }
        }
        i = i + 1;
    }
    proof {
        assert forall|p: ChunkPos| #![trigger out@.contains(p)]
            out@.contains(p) == (v0.contains(p) && !excl@.contains(p)) by {
            if out@.contains(p) {
                let w = choose|w: int| 0 <= w < out@.len() && out@[w] == p;
                assert(v0.contains(out@[w]) && !excl@.contains(out@[w]));
            }
            if v0.contains(p) && !excl@.contains(p) {
                let k = choose|k: int| 0 <= k < v0.len() && v0[k] == p;
                assert(out@.contains(v0[k]));
            }
        }
    }
    out
}

/// Removes a chunk queued for unloading from every part of the streaming
/// state: its data and render entity leave the world, its in-flight tasks
/// are dropped and their budget freed, its placeholder and any buffered
/// result are discarded, and it leaves the load and placeholder queues.
/// Returns the render and placeholder entity handles the host must
/// despawn; a background result for an unloaded chunk can then never
/// reach the world or the visible set.
#[verifier::rlimit(100)]
pub fn process_chunk_unload(
    world: &mut VoxelWorld,
    queue: &mut ChunkLoadQueue,
    buffer: &mut ChunkReplacementBuffer,
    placeholders: &mut PlaceholderEntities,
    tasks: &mut TaskTracker,
) -> (despawn: Vec<u64>)
    requires
        old(world).spec_wf(),
        old(queue).spec_wf(),
        old(buffer).spec_wf(),
        old(placeholders).map.wf(),
    ensures
        final(world).spec_wf(),
        final(queue).spec_wf(),
        final(buffer).spec_wf(),
        final(placeholders).map.wf(),
        final(queue).to_unload@.len() == 0,
        final(queue).max_concurrent_tasks == old(queue).max_concurrent_tasks,
        final(buffer).timer_ms == old(buffer).timer_ms,
        final(buffer).interval_ms == old(buffer).interval_ms,
        final(buffer).min_batch_size == old(buffer).min_batch_size,
        // every unloaded chunk is gone from every structure
        forall|p: ChunkPos| #![trigger old(queue).to_unload@.contains(p)]
            old(queue).to_unload@.contains(p) ==> {
                &&& final(world).loaded_chunks.spec_get(p) is None
                &&& final(world).chunks.spec_get(p) is None
                &&& !final(tasks).spec_has_pos(p)
                &&& final(placeholders).map.spec_get(p) is None
                &&& !final(queue).to_load@.contains(p)
                &&& !final(queue).pending_placeholders@.contains(p)
                &&& !spec_buffer_has(final(buffer), p)
            },
        // every other chunk is untouched
        forall|p: ChunkPos| #![trigger old(queue).to_unload@.contains(p)]
            !old(queue).to_unload@.contains(p) ==> {
                &&& final(world).loaded_chunks.spec_get(p) == old(world).loaded_chunks.spec_get(p)
                &&& final(world).chunks.spec_get(p) == old(world).chunks.spec_get(p)
                &&& final(tasks).spec_has_pos(p) == old(tasks).spec_has_pos(p)
                &&& final(placeholders).map.spec_get(p) == old(placeholders).map.spec_get(p)
                &&& final(queue).to_load@.contains(p) == old(queue).to_load@.contains(p)
                &&& final(queue).pending_placeholders@.contains(p) == old(
                    queue,
                ).pending_placeholders@.contains(p)
            },
        // the task budget is freed for exactly the dropped tasks
        ({
            let canceled = old(tasks).tasks@.len() - final(tasks).tasks@.len();
            final(queue).active_tasks == (if old(queue).active_tasks >= canceled {
                (old(queue).active_tasks - canceled) as usize
            } else {
                0usize
            })
        }),
        final(tasks).tasks@.len() <= old(tasks).tasks@.len(),
        // the host is told to despawn the removed entities
        forall|p: ChunkPos| #![trigger old(queue).to_unload@.contains(p)]
            old(queue).to_unload@.contains(p) ==> {
                &&& (old(world).loaded_chunks.spec_get(p) is Some ==> despawn@.contains(
                    old(world).loaded_chunks.spec_get(p)->0,
                ))
                &&& (old(placeholders).map.spec_get(p) is Some ==> despawn@.contains(
                    old(placeholders).map.spec_get(p)->0,
                ))
            },
        forall|j: int|
            0 <= j < old(tasks).tasks@.len() && old(queue).to_unload@.contains(
                (#[trigger] old(tasks).tasks@[j]).chunk_pos,
            ) ==> despawn@.contains(old(tasks).tasks@[j].placeholder_entity),
{
    let mut unloads: Vec<ChunkPos> = Vec::new();
    core::mem::swap(&mut unloads, &mut queue.to_unload);
    let ghost u0 = unloads@;

    let mut despawn: Vec<u64> = Vec::new();

    // remove the unloaded chunks' world data, render entities and
    // placeholders
    let mut i: usize = 0;
    while i < unloads.len()
        invariant
            world.spec_wf(),
            placeholders.map.wf(),
            unloads@ == u0,
            forall|a: int, b: int| 0 <= a < b < u0.len() ==> u0[a] != u0[b],
            i <= u0.len(),
            forall|k: int|
                0 <= k < i ==> {
                    let p = #[trigger] u0[k];
                    &&& world.loaded_chunks.spec_get(p) is None
                    &&& world.chunks.spec_get(p) is None
                    &&& placeholders.map.spec_get(p) is None
                    &&& (old(world).loaded_chunks.spec_get(p) is Some ==> despawn@.contains(
                        old(world).loaded_chunks.spec_get(p)->0,
                    ))
                    &&& (old(placeholders).map.spec_get(p) is Some ==> despawn@.contains(
                        old(placeholders).map.spec_get(p)->0,
                    ))
                },
            forall|p: ChunkPos|
                #![trigger world.loaded_chunks.spec_get(p)]
                #![trigger world.chunks.spec_get(p)]
                #![trigger placeholders.map.spec_get(p)]
                !(exists|k: int| 0 <= k < i && #[trigger] u0[k] == p) ==> {
                    &&& world.loaded_chunks.spec_get(p) == old(world).loaded_chunks.spec_get(p)
                    &&& world.chunks.spec_get(p) == old(world).chunks.spec_get(p)
                    &&& placeholders.map.spec_get(p) == old(placeholders).map.spec_get(p)
                },
        decreases u0.len() - i,
    {
        let p = unloads[i];
        let ghost d0 = despawn@;
        let ghost w0 = *world;
        let ghost ph0 = *placeholders;
        proof {
            // the unload queue is duplicate-free, so this chunk is fresh
            assert(u0[i as int] == p);
            assert forall|k: int| 0 <= k < i implies #[trigger] u0[k] != p by {}
            assert(!(exists|k: int| 0 <= k < i && #[trigger] u0[k] == p));
            assert(world.loaded_chunks.spec_get(p) == old(world).loaded_chunks.spec_get(p));
            assert(placeholders.map.spec_get(p) == old(placeholders).map.spec_get(p));
        }
        match world.loaded_chunks.remove(p) {
            Some(e) => {
                despawn.push(e);
            },
            None => {},
        }
        let ghost wpre = *world;
        world.chunks.remove(p);
        proof {
            assert forall|w: int|
                0 <= w < world.chunks.entries.len() implies (
            #[trigger] world.chunks.entries[w]).1.spec_wf() by {
                assert(wpre.chunks.entries@.contains(world.chunks.entries@[w]));
                let k = choose|k: int|
                    0 <= k < wpre.chunks.entries@.len() && wpre.chunks.entries@[k]
                        == world.chunks.entries@[w];
                assert(wpre.chunks.entries[k].1.spec_wf());
            }
        }
        match placeholders.map.remove(p) {
            Some(e) => {
                despawn.push(e);
            },
            None => {},
        }
        proof {
            assert forall|e: u64| d0.contains(e) implies despawn@.contains(e) by {
                let w = choose|w: int| 0 <= w < d0.len() && d0[w] == e;
                assert(despawn@[w] == e);
            }
            if old(world).loaded_chunks.spec_get(p) is Some {
                let e = old(world).loaded_chunks.spec_get(p)->0;
                if old(placeholders).map.spec_get(p) is Some {
                    assert(despawn@[despawn@.len() - 2] == e);
                } else {
                    assert(despawn@[despawn@.len() - 1] == e);
                }
            }
            if old(placeholders).map.spec_get(p) is Some {
                assert(despawn@[despawn@.len() - 1] == old(placeholders).map.spec_get(p)->0);
            }
            assert forall|k: int| 0 <= k < i + 1 implies {
                let q = #[trigger] u0[k];
                &&& world.loaded_chunks.spec_get(q) is None
                &&& world.chunks.spec_get(q) is None
                &&& placeholders.map.spec_get(q) is None
                &&& (old(world).loaded_chunks.spec_get(q) is Some ==> despawn@.contains(
                    old(world).loaded_chunks.spec_get(q)->0,
                ))
                &&& (old(placeholders).map.spec_get(q) is Some ==> despawn@.contains(
                    old(placeholders).map.spec_get(q)->0,
                ))
            } by {
                let q = u0[k];
                if k < i {
                    assert(u0[k] != p);
                    assert(w0.loaded_chunks.spec_get(q) is None);
                    assert(w0.chunks.spec_get(q) is None);
                    assert(ph0.map.spec_get(q) is None);
                    if old(world).loaded_chunks.spec_get(q) is Some {
                        assert(d0.contains(old(world).loaded_chunks.spec_get(q)->0));
                    }
                    if old(placeholders).map.spec_get(q) is Some {
                        assert(d0.contains(old(placeholders).map.spec_get(q)->0));
                    }
                } else {
                    assert(q == p);
                }
            }
            assert forall|q: ChunkPos|
                #![trigger world.loaded_chunks.spec_get(q)]
                #![trigger world.chunks.spec_get(q)]
                #![trigger placeholders.map.spec_get(q)]
                !(exists|k: int| 0 <= k < i + 1 && #[trigger] u0[k] == q) implies {
                &&& world.loaded_chunks.spec_get(q) == old(world).loaded_chunks.spec_get(q)
                &&& world.chunks.spec_get(q) == old(world).chunks.spec_get(q)
                &&& placeholders.map.spec_get(q) == old(placeholders).map.spec_get(q)
            } by {
                if q == p {
                    assert(0 <= i < i + 1 && u0[i as int] == q);
                    assert(false);
                }
                assert(!(exists|k: int| 0 <= k < i && #[trigger] u0[k] == q));
                assert(w0.loaded_chunks.spec_get(q) == old(world).loaded_chunks.spec_get(q));
                assert(w0.chunks.spec_get(q) == old(world).chunks.spec_get(q));
                assert(ph0.map.spec_get(q) == old(placeholders).map.spec_get(q));
            }
        }
        i = i + 1;
    }
    proof {
        assert forall|p: ChunkPos| #![trigger u0.contains(p)] u0.contains(p) implies {
            &&& world.loaded_chunks.spec_get(p) is None
            &&& world.chunks.spec_get(p) is None
            &&& placeholders.map.spec_get(p) is None
            &&& (old(world).loaded_chunks.spec_get(p) is Some ==> despawn@.contains(
                old(world).loaded_chunks.spec_get(p)->0,
            ))
            &&& (old(placeholders).map.spec_get(p) is Some ==> despawn@.contains(
                old(placeholders).map.spec_get(p)->0,
            ))
        } by {
            let k = choose|k: int| 0 <= k < u0.len() && u0[k] == p;
            assert(u0[k] == p);
        }
        assert forall|p: ChunkPos| #![trigger u0.contains(p)] !u0.contains(p) implies {
            &&& world.loaded_chunks.spec_get(p) == old(world).loaded_chunks.spec_get(p)
            &&& world.chunks.spec_get(p) == old(world).chunks.spec_get(p)
            &&& placeholders.map.spec_get(p) == old(placeholders).map.spec_get(p)
        } by {
            assert(!(exists|k: int| 0 <= k < u0.len() && #[trigger] u0[k] == p));
        }
    }
    let ghost d_maps = despawn@;

    // drop the in-flight tasks of unloaded chunks, keeping the rest
    let ghost t0 = tasks.tasks@;
    let mut kept: Vec<ComputeMeshTask> = Vec::new();
    let mut canceled: usize = 0;
    let mut j: usize = 0;
    while j < tasks.tasks.len()
        invariant
            unloads@ == u0,
            j <= t0.len(),
            tasks.tasks@ == t0,
            kept@.len() + canceled == j,
            forall|w: int|
                #![trigger kept@[w]]
                0 <= w < kept@.len() ==> (!u0.contains(kept@[w].chunk_pos) && (exists|k: int|
                    0 <= k < j && #[trigger] t0[k] == kept@[w])),
            forall|k: int|
                0 <= k < j ==> (!u0.contains((#[trigger] t0[k]).chunk_pos) ==> kept@.contains(
                    t0[k],
                )),
            forall|k: int|
                0 <= k < j && u0.contains((#[trigger] t0[k]).chunk_pos) ==> despawn@.contains(
                    t0[k].placeholder_entity,
                ),
            despawn@.len() >= d_maps.len(),
            forall|w: int| 0 <= w < d_maps.len() ==> despawn@[w] == #[trigger] d_maps[w],
        decreases t0.len() - j,
    {
        let task = tasks.tasks[j];
        let ghost despawn_before = despawn@;
        let ghost kept_before = kept@;
        if vec_contains_pos(&unloads, task.chunk_pos) {
            despawn.push(task.placeholder_entity);
            canceled = canceled + 1;
        } else {
            kept.push(task);
        }
        proof {
            assert(t0[j as int] == task);
            assert forall|k: int|
                0 <= k < j + 1 && u0.contains((#[trigger] t0[k]).chunk_pos) implies
                despawn@.contains(t0[k].placeholder_entity) by {
                if k == j {
                    assert(despawn@[despawn@.len() - 1] == t0[k].placeholder_entity);
                } else {
                    let w = choose|w: int|
                        0 <= w < despawn_before.len() && despawn_before[w]
                            == t0[k].placeholder_entity;
                    assert(despawn@[w] == t0[k].placeholder_entity);
                }
            }
            assert forall|k: int|
                0 <= k < j + 1 implies (!u0.contains((#[trigger] t0[k]).chunk_pos)
                ==> kept@.contains(t0[k])) by {
                if k == j {
                    if !u0.contains(t0[k].chunk_pos) {
                        assert(kept@[kept@.len() - 1] == t0[k]);
                    }
                } else {
                    if !u0.contains(t0[k].chunk_pos) {
                        let w = choose|w: int|
                            0 <= w < kept_before.len() && kept_before[w] == t0[k];
                        assert(kept@[w] == t0[k]);
                    }
                }
            }
            assert forall|w: int|
                #![trigger kept@[w]]
                0 <= w < kept@.len() implies (!u0.contains(kept@[w].chunk_pos) && (exists|k: int|
                0 <= k < j + 1 && #[trigger] t0[k] == kept@[w])) by {
                if w < kept_before.len() {
                    assert(kept@[w] == kept_before[w]);
                    let k = choose|k: int| 0 <= k < j && #[trigger] t0[k] == kept_before[w];
                    assert(0 <= k < j + 1 && t0[k] == kept@[w]);
                } else {
                    assert(t0[j as int] == kept@[w]);
                }
            }
        }
        j = j + 1;
    }
    tasks.tasks = kept;
    queue.active_tasks = if queue.active_tasks >= canceled {
        queue.active_tasks - canceled
    } else {
        0
    };

    // drop buffered results and queued work for unloaded chunks
    let mut to_load: Vec<ChunkPos> = Vec::new();
    core::mem::swap(&mut to_load, &mut queue.to_load);
    queue.to_load = filter_positions(to_load, &unloads);
    let mut pending: Vec<ChunkPos> = Vec::new();
    core::mem::swap(&mut pending, &mut queue.pending_placeholders);
    queue.pending_placeholders = filter_pending(pending, &unloads);
    let mut completed: Vec<CompletedChunk> = Vec::new();
    core::mem::swap(&mut completed, &mut buffer.completed);
    buffer.completed = filter_completed(completed, &unloads);

    proof {
        assert forall|p: ChunkPos| #![trigger u0.contains(p)] u0.contains(p) implies {
            &&& world.loaded_chunks.spec_get(p) is None
            &&& world.chunks.spec_get(p) is None
            &&& !tasks.spec_has_pos(p)
            &&& placeholders.map.spec_get(p) is None
        } by {
            let k = choose|k: int| 0 <= k < u0.len() && u0[k] == p;
            assert(exists|k2: int| 0 <= k2 < u0.len() && #[trigger] u0[k2] == p);
            if tasks.spec_has_pos(p) {
                let w = choose|w: int|
                    0 <= w < tasks.tasks@.len() && (#[trigger] tasks.tasks@[w]).chunk_pos == p;
            }
        }
        assert forall|p: ChunkPos| #![trigger u0.contains(p)] !u0.contains(p) implies {
            &&& tasks.spec_has_pos(p) == (exists|k: int|
                0 <= k < t0.len() && (#[trigger] t0[k]).chunk_pos == p)
        } by {
            if exists|k: int| 0 <= k < t0.len() && (#[trigger] t0[k]).chunk_pos == p {
                let k = choose|k: int| 0 <= k < t0.len() && (#[trigger] t0[k]).chunk_pos == p;
                assert(kept@.contains(t0[k]));
                let w = choose|w: int| 0 <= w < kept@.len() && kept@[w] == t0[k];
                assert(tasks.tasks@[w].chunk_pos == p);
            }
            if tasks.spec_has_pos(p) {
                let w = choose|w: int|
                    0 <= w < tasks.tasks@.len() && (#[trigger] tasks.tasks@[w]).chunk_pos == p;
                let k = choose|k: int| 0 <= k < t0.len() && #[trigger] t0[k] == kept@[w];
                assert(t0[k].chunk_pos == p);
            }
        }
        // entities listed before the task pass are still listed
        assert forall|e: u64| d_maps.contains(e) implies despawn@.contains(e) by {
            let w = choose|w: int| 0 <= w < d_maps.len() && d_maps[w] == e;
            assert(despawn@[w] == e);
        }
        assert forall|p: ChunkPos| #![trigger old(queue).to_unload@.contains(p)]
            u0.contains(p) implies {
            &&& (old(world).loaded_chunks.spec_get(p) is Some ==> despawn@.contains(
                old(world).loaded_chunks.spec_get(p)->0,
            ))
            &&& (old(placeholders).map.spec_get(p) is Some ==> despawn@.contains(
                old(placeholders).map.spec_get(p)->0,
            ))
        } by {
            if old(world).loaded_chunks.spec_get(p) is Some {
                assert(d_maps.contains(old(world).loaded_chunks.spec_get(p)->0));
            }
            if old(placeholders).map.spec_get(p) is Some {
                assert(d_maps.contains(old(placeholders).map.spec_get(p)->0));
            }
        }
    }
    despawn
}

/// Keeps the pending positions that are not excluded (pending entries may
/// repeat across passes, so only membership is stated).
fn filter_pending(v: Vec<ChunkPos>, excl: &Vec<ChunkPos>) -> (r: Vec<ChunkPos>)
    ensures
        forall|p: ChunkPos| #![trigger r@.contains(p)]
            r@.contains(p) == (v@.contains(p) && !excl@.contains(p)),
{
    let ghost v0 = v@;
    let mut out: Vec<ChunkPos> = Vec::new();
    let mut i: usize = 0;
    while i < v.len()
        invariant
            v@ == v0,
            i <= v0.len(),
            forall|w: int|
                #![trigger out@[w]]
                0 <= w < out@.len() ==> (v0.contains(out@[w]) && !excl@.contains(out@[w])),
            forall|k: int|
                0 <= k < i ==> (!excl@.contains(#[trigger] v0[k]) ==> out@.contains(v0[k])),
        decreases v0.len() - i,
    {
        let p = v[i];
        let ghost out_before = out@;
        if !vec_contains_pos(excl, p) {
            out.push(p);
            proof {
                assert(v0[i as int] == p);
                assert(v0.contains(p));
            }
        }
        proof {
            assert forall|k: int|
                0 <= k < i + 1 implies (!excl@.contains(#[trigger] v0[k]) ==> out@.contains(
                v0[k],
            )) by {
                if k == i {
                    if !excl@.contains(v0[k]) {
                        assert(out@[out@.len() - 1] == v0[k]);
                    }
                } else {
                    if !excl@.contains(v0[k]) {
                        let w = choose|w: int|
                            0 <= w < out_before.len() && out_before[w] == v0[k];
                        assert(out@[w] == v0[k]);
                    }
                }
            }
        }
        i = i + 1;
    }
    proof {
        assert forall|p: ChunkPos| #![trigger out@.contains(p)]
            out@.contains(p) == (v0.contains(p) && !excl@.contains(p)) by {
            if out@.contains(p) {
                let w = choose|w: int| 0 <= w < out@.len() && out@[w] == p;
                assert(v0.contains(out@[w]) && !excl@.contains(out@[w]));
            }
            if v0.contains(p) && !excl@.contains(p) {
                let k = choose|k: int| 0 <= k < v0.len() && v0[k] == p;
                assert(out@.contains(v0[k]));
            }
        }
    }
    out
}

/// Keeps the buffered results whose chunks are not excluded.
fn filter_completed(v: Vec<CompletedChunk>, excl: &Vec<ChunkPos>) -> (r: Vec<CompletedChunk>)
    requires
        forall|k: int| 0 <= k < v@.len() ==> (#[trigger] v@[k]).voxels@.len() == 4096,
    ensures
        forall|k: int| 0 <= k < r@.len() ==> (#[trigger] r@[k]).voxels@.len() == 4096,
        forall|p: ChunkPos|
            (exists|k: int| 0 <= k < r@.len() && (#[trigger] r@[k]).chunk_pos == p) == ((exists|
                k: int,
            |
                0 <= k < v@.len() && (#[trigger] v@[k]).chunk_pos == p) && !excl@.contains(p)),
{
    let total = v.len();
    let ghost v0 = v@;
    let mut rest = v;
    let mut out: Vec<CompletedChunk> = Vec::new();
    let mut i: usize = 0;
    while rest.len() > 0
        invariant
            total == v0.len(),
            i + rest@.len() == v0.len(),
            i <= v0.len(),
            rest@ == v0.subrange(i as int, v0.len() as int),
            forall|k: int| 0 <= k < v0.len() ==> (#[trigger] v0[k]).voxels@.len() == 4096,
            forall|w: int|
                #![trigger out@[w]]
                0 <= w < out@.len() ==> (out@[w].voxels@.len() == 4096 && !excl@.contains(
                    out@[w].chunk_pos,
                ) && (exists|k: int| 0 <= k < i && #[trigger] v0[k] == out@[w])),
            forall|k: int|
                0 <= k < i ==> (!excl@.contains((#[trigger] v0[k]).chunk_pos) ==> (exists|w: int|
                    0 <= w < out@.len() && #[trigger] out@[w] == v0[k])),
        decreases rest@.len(),
    {
        let c = rest.remove(0);
        proof {
            assert(c == v0[i as int]);
            assert(rest@ =~= v0.subrange(i as int + 1, v0.len() as int));
            assert(i as int + 1 + rest@.len() == v0.len() as int);
        }
        let ghost out_before = out@;
        if !vec_contains_pos(excl, c.chunk_pos) {
            out.push(c);
        }
        proof {
            assert forall|k: int|
                0 <= k < i + 1 implies (!excl@.contains((#[trigger] v0[k]).chunk_pos) ==> (exists|
                w: int,
            |
                0 <= w < out@.len() && #[trigger] out@[w] == v0[k])) by {
                if k == i {
                    if !excl@.contains(v0[k].chunk_pos) {
                        assert(out@[out@.len() - 1] == v0[k]);
                    }
                } else {
                    if !excl@.contains(v0[k].chunk_pos) {
                        let w = choose|w: int|
                            0 <= w < out_before.len() && #[trigger] out_before[w] == v0[k];
                        assert(out@[w] == v0[k]);
                    }
                }
            }
            assert forall|w: int| #![trigger out@[w]]
                0 <= w < out@.len() implies (out@[w].voxels@.len() == 4096 && !excl@.contains(
                out@[w].chunk_pos,
            ) && (exists|k: int| 0 <= k < i + 1 && #[trigger] v0[k] == out@[w])) by {
                if w < out_before.len() {
                    assert(out@[w] == out_before[w]);
                    let k = choose|k: int| 0 <= k < i && #[trigger] v0[k] == out_before[w];
                    assert(0 <= k < i + 1 && v0[k] == out@[w]);
                } else {
                    assert(v0[i as int] == out@[w]);
                }
            }
        }
        i = i + 1;
    }
    proof {
        assert forall|p: ChunkPos|
            (exists|k: int| 0 <= k < out@.len() && (#[trigger] out@[k]).chunk_pos == p) == ((
            exists|k: int|
                0 <= k < v0.len() && (#[trigger] v0[k]).chunk_pos == p) && !excl@.contains(
                p,
            )) by {
            if exists|k: int| 0 <= k < out@.len() && (#[trigger] out@[k]).chunk_pos == p {
                let w = choose|k: int|
                    0 <= k < out@.len() && (#[trigger] out@[k]).chunk_pos == p;
                let k = choose|k: int| 0 <= k < i && #[trigger] v0[k] == out@[w];
                assert(v0[k].chunk_pos == p);
            }
            if (exists|k: int| 0 <= k < v0.len() && (#[trigger] v0[k]).chunk_pos == p)
                && !excl@.contains(p) {
                let k = choose|k: int| 0 <= k < v0.len() && (#[trigger] v0[k]).chunk_pos == p;
                assert(exists|w: int| 0 <= w < out@.len() && #[trigger] out@[w] == v0[k]);
                let w = choose|w: int| 0 <= w < out@.len() && #[trigger] out@[w] == v0[k];
                assert(out@[w].chunk_pos == p);
            }
        }
    }
    out
}

/// Destroys every placeholder whose chunk no longer has a reason to hold
/// one: it is neither queued for loading, awaiting a placeholder, nor
/// being generated. Returns the orphaned placeholder entities to despawn;
/// this reconciles ordering races between load and unload decisions of
/// nearby ticks.
pub fn cleanup_orphan_placeholders(
    placeholders: &mut PlaceholderEntities,
    queue: &ChunkLoadQueue,
    tasks: &TaskTracker,
) -> (despawn: Vec<u64>)
    requires
        old(placeholders).map.wf(),
    ensures
        final(placeholders).map.wf(),
        forall|p: ChunkPos| #![trigger final(placeholders).map.spec_get(p)]
            spec_placeholder_reason(queue, tasks, p) ==> final(placeholders).map.spec_get(p) == old(
                placeholders,
            ).map.spec_get(p),
        forall|p: ChunkPos| #![trigger final(placeholders).map.spec_get(p)]
            !spec_placeholder_reason(queue, tasks, p) ==> final(placeholders).map.spec_get(
                p,
            ) is None,
        forall|p: ChunkPos| #![trigger old(placeholders).map.spec_get(p)]
            !spec_placeholder_reason(queue, tasks, p) && old(placeholders).map.spec_get(p) is Some
                ==> despawn@.contains(old(placeholders).map.spec_get(p)->0),
{
    // collect the orphaned chunk positions
    let mut orphans: Vec<ChunkPos> = Vec::new();
    let mut i: usize = 0;
    while i < placeholders.map.entries.len()
        invariant
            placeholders.map.wf(),
            *placeholders == *old(placeholders),
            i <= placeholders.map.entries@.len(),
            forall|w: int|
                #![trigger orphans@[w]]
                0 <= w < orphans@.len() ==> (!spec_placeholder_reason(queue, tasks, orphans@[w])
                    && placeholders.map.spec_contains_pos(orphans@[w])),
            forall|k: int|
                0 <= k < i ==> (!spec_placeholder_reason(
                    queue,
                    tasks,
                    (#[trigger] placeholders.map.entries@[k]).0,
                ) ==> orphans@.contains(placeholders.map.entries@[k].0)),
        decreases placeholders.map.entries@.len() - i,
    {
        let p = placeholders.map.entries[i].0;
        let legit = vec_contains_pos(&queue.to_load, p) || vec_contains_pos(
            &queue.pending_placeholders,
            p,
        ) || tasks.has_pos(p);
        let ghost orphans_before = orphans@;
        if !legit {
            orphans.push(p);
            proof {
                assert(placeholders.map.entries@[i as int].0 == p);
                assert(placeholders.map.spec_contains_pos(p));
            }
        }
        proof {
            assert forall|k: int|
                0 <= k < i + 1 implies (!spec_placeholder_reason(
                queue,
                tasks,
                (#[trigger] placeholders.map.entries@[k]).0,
            ) ==> orphans@.contains(placeholders.map.entries@[k].0)) by {
                if k == i {
                    if !spec_placeholder_reason(queue, tasks, placeholders.map.entries@[k].0) {
                        assert(orphans@[orphans@.len() - 1] == placeholders.map.entries@[k].0);
                    }
                } else {
                    if !spec_placeholder_reason(queue, tasks, placeholders.map.entries@[k].0) {
                        let w = choose|w: int|
                            0 <= w < orphans_before.len() && orphans_before[w]
                                == placeholders.map.entries@[k].0;
                        assert(orphans@[w] == placeholders.map.entries@[k].0);
                    }
                }
            }
        }
        i = i + 1;
    }

    // remove them, returning their entities
    let mut despawn: Vec<u64> = Vec::new();
    let mut r: usize = 0;
    while r < orphans.len()
        invariant
            placeholders.map.wf(),
            r <= orphans@.len(),
            forall|w: int|
                #![trigger orphans@[w]]
                0 <= w < orphans@.len() ==> !spec_placeholder_reason(queue, tasks, orphans@[w]),
            forall|p: ChunkPos| #![trigger placeholders.map.spec_get(p)]
                (exists|k: int| 0 <= k < r && #[trigger] orphans@[k] == p)
                    ==> placeholders.map.spec_get(p) is None,
            forall|p: ChunkPos| #![trigger placeholders.map.spec_get(p)]
                !(exists|k: int| 0 <= k < r && #[trigger] orphans@[k] == p)
                    ==> placeholders.map.spec_get(p) == old(placeholders).map.spec_get(p),
            forall|p: ChunkPos| #![trigger old(placeholders).map.spec_get(p)]
                (exists|k: int| 0 <= k < r && #[trigger] orphans@[k] == p) && old(
                    placeholders,
                ).map.spec_get(p) is Some ==> despawn@.contains(
                    old(placeholders).map.spec_get(p)->0,
                ),
        decreases orphans@.len() - r,
    {
        let p = orphans[r];
        let ghost despawn_before = despawn@;
        match placeholders.map.remove(p) {
            Some(e) => {
                despawn.push(e);
            },
            None => {},
        }
        proof {
            assert(orphans@[r as int] == p);
            assert forall|q: ChunkPos| #![trigger old(placeholders).map.spec_get(q)]
                (exists|k: int| 0 <= k < r + 1 && #[trigger] orphans@[k] == q) && old(
                placeholders,
            ).map.spec_get(q) is Some implies despawn@.contains(
                old(placeholders).map.spec_get(q)->0,
            ) by {
                let k = choose|k: int| 0 <= k < r + 1 && #[trigger] orphans@[k] == q;
                if q == p {
                    if !(exists|k2: int| 0 <= k2 < r && #[trigger] orphans@[k2] == q) {
                        assert(despawn@[despawn@.len() - 1] == old(
                            placeholders,
                        ).map.spec_get(q)->0);
                    } else {
                        let w = choose|w: int|
                            0 <= w < despawn_before.len() && despawn_before[w] == old(
                                placeholders,
                            ).map.spec_get(q)->0;
                        assert(despawn@[w] == old(placeholders).map.spec_get(q)->0);
                    }
                } else {
                    assert(0 <= k < r);
                    let w = choose|w: int|
                        0 <= w < despawn_before.len() && despawn_before[w] == old(
                            placeholders,
                        ).map.spec_get(q)->0;
                    assert(despawn@[w] == old(placeholders).map.spec_get(q)->0);
                }
            }
        }
        r = r + 1;
    }
    proof {
        assert forall|p: ChunkPos| #![trigger final(placeholders).map.spec_get(p)]
            !spec_placeholder_reason(queue, tasks, p) implies placeholders.map.spec_get(
            p,
        ) is None by {
            if placeholders.map.spec_get(p) is Some {
                assert(old(placeholders).map.spec_get(p) is Some);
                assert(old(placeholders).map.spec_contains_pos(p));
                let k = choose|k: int|
                    0 <= k < old(placeholders).map.entries@.len() && (
                    #[trigger] old(placeholders).map.entries@[k]).0 == p;
                assert(orphans@.contains(p));
                let w = choose|w: int| 0 <= w < orphans@.len() && orphans@[w] == p;
                assert(exists|k2: int| 0 <= k2 < orphans@.len() && #[trigger] orphans@[k2] == p);
            }
        }
    }
    despawn
}

/// Whether a chunk currently has a legitimate reason to hold a
/// placeholder: queued for loading, awaiting placeholder creation, or
/// being generated.
pub open spec fn spec_placeholder_reason(
    queue: &ChunkLoadQueue,
    tasks: &TaskTracker,
    p: ChunkPos,
) -> bool {
    ||| queue.to_load@.contains(p)
    ||| queue.pending_placeholders@.contains(p)
    ||| tasks.spec_has_pos(p)
}

} // verus!
