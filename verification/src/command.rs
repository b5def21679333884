//! Domain commands: the single mutation gateway of the simulation.
//!
//! No stage writes voxel, flag, variant or thermal state directly; every
//! mutation is expressed as a [`DomainCommand`] and applied by the commit
//! stage, which resolves conflicts deterministically: a set-block command
//! takes absolute priority over every other command on the same cell, and
//! only the first set-block per cell survives.

use vstd::prelude::*;

use crate::change::BlockChange;
use crate::chunk::ChunkData;
use crate::flags::{spec_contains, VoxelFlags};
use crate::kind::{spec_def, VoxelKind};
use crate::pos::ChunkPos;
use crate::thermal::{
    abs_diff, clamp_i64, spec_get_temp, spec_override, spec_temp_flag_bits,
    spec_temp_flag_changes, ThermalApi, TEMP_EPSILON,
};

verus! {

/// A requested mutation of one voxel. Temperatures are milli-degrees
/// Celsius, heat is millijoules, moisture and power are in thousandths.
#[derive(Clone, Copy, PartialEq, Eq, Structural, Debug)]
pub enum DomainCommand {
    /// Replace the voxel kind.
    SetBlock { idx: usize, new_voxel: VoxelKind },
    /// Add status flags.
    AddFlag { idx: usize, flag: VoxelFlags },
    /// Remove status flags.
    RemoveFlag { idx: usize, flag: VoxelFlags },
    /// Set the variant byte.
    SetVariant { idx: usize, variant: u8 },
    /// Increase the variant byte by one, saturating.
    IncrementVariant { idx: usize },
    /// Decrease the variant byte by one, saturating.
    DecrementVariant { idx: usize },
    /// Set the temperature.
    SetTemp { idx: usize, temp: i64 },
    /// Add heat.
    AddHeat { idx: usize, heat: i64 },
    /// Set the moisture.
    SetMoisture { idx: usize, moisture: i64 },
    /// Add moisture.
    AddMoisture { idx: usize, delta: i64 },
    /// Start burning.
    Ignite { idx: usize, power: i64 },
    /// Stop burning.
    Extinguish { idx: usize },
}

/// The cell index a command targets.
pub open spec fn spec_cmd_idx(c: DomainCommand) -> usize {
    match c {
        DomainCommand::SetBlock { idx, .. } => idx,
        DomainCommand::AddFlag { idx, .. } => idx,
        DomainCommand::RemoveFlag { idx, .. } => idx,
        DomainCommand::SetVariant { idx, .. } => idx,
        DomainCommand::IncrementVariant { idx } => idx,
        DomainCommand::DecrementVariant { idx } => idx,
        DomainCommand::SetTemp { idx, .. } => idx,
        DomainCommand::AddHeat { idx, .. } => idx,
        DomainCommand::SetMoisture { idx, .. } => idx,
        DomainCommand::AddMoisture { idx, .. } => idx,
        DomainCommand::Ignite { idx, .. } => idx,
        DomainCommand::Extinguish { idx } => idx,
    }
}

/// Whether a command is a set-block, the highest-priority command kind.
pub open spec fn spec_is_set_block(c: DomainCommand) -> bool {
    c is SetBlock
}

impl DomainCommand {
    /// The cell index this command targets.
    pub fn idx(&self) -> (r: usize)
        ensures
            r == spec_cmd_idx(*self),
    {
        match self {
            DomainCommand::SetBlock { idx, .. } => *idx,
            DomainCommand::AddFlag { idx, .. } => *idx,
            DomainCommand::RemoveFlag { idx, .. } => *idx,
            DomainCommand::SetVariant { idx, .. } => *idx,
            DomainCommand::IncrementVariant { idx } => *idx,
            DomainCommand::DecrementVariant { idx } => *idx,
            DomainCommand::SetTemp { idx, .. } => *idx,
            DomainCommand::AddHeat { idx, .. } => *idx,
            DomainCommand::SetMoisture { idx, .. } => *idx,
            DomainCommand::AddMoisture { idx, .. } => *idx,
            DomainCommand::Ignite { idx, .. } => *idx,
            DomainCommand::Extinguish { idx } => *idx,
        }
    }
}

/// A command together with the chunk it targets: the unit the global
/// queue holds, so the commit stage can apply each command to its target
/// chunk and nowhere else.
#[derive(Clone, Copy, PartialEq, Eq, Structural, Debug)]
pub struct ChunkCommand {
    pub chunk_pos: ChunkPos,
    pub command: DomainCommand,
}

/// The queue that every stage submits its commands to; the commit stage
/// drains it once per tick.
pub struct CommandQueue {
    pub commands: Vec<ChunkCommand>,
}

impl CommandQueue {
    /// An empty queue.
    pub fn new() -> (r: CommandQueue)
        ensures
            r.commands@ == Seq::<ChunkCommand>::empty(),
    {
        CommandQueue { commands: Vec::new() }
    }

    /// Appends one command for one target chunk.
    pub fn push(&mut self, chunk_pos: ChunkPos, command: DomainCommand)
        ensures
            final(self).commands@ == old(self).commands@.push(
                ChunkCommand { chunk_pos, command },
            ),
    {
        self.commands.push(ChunkCommand { chunk_pos, command });
    }
}

impl Default for CommandQueue {
    /// The default queue is empty.
    fn default() -> (r: Self)
        ensures
            r.commands@ == Seq::<ChunkCommand>::empty(),
    {
        CommandQueue { commands: Vec::new() }
    }
}

/// The commands among the first `n` queue entries that target one chunk,
/// in submission order.
pub open spec fn spec_commands_for(cmds: Seq<ChunkCommand>, pos: ChunkPos, n: int) -> Seq<
    DomainCommand,
>
    decreases n,
{
    if n <= 0 {
        Seq::empty()
    } else {
        let prev = spec_commands_for(cmds, pos, n - 1);
        if cmds[n - 1].chunk_pos == pos {
            prev.push(cmds[n - 1].command)
        } else {
            prev
        }
    }
}

/// The commands of a queue snapshot that target one chunk, in order.
pub fn commands_for(cmds: &Vec<ChunkCommand>, pos: ChunkPos) -> (r: Vec<DomainCommand>)
    ensures
        r@ == spec_commands_for(cmds@, pos, cmds@.len() as int),
{
    let mut out: Vec<DomainCommand> = Vec::new();
    let mut i: usize = 0;
    while i < cmds.len()
        invariant
            i <= cmds@.len(),
            out@ == spec_commands_for(cmds@, pos, i as int),
        decreases cmds@.len() - i,
    {
        let c = cmds[i];
        if c.chunk_pos == pos {
            out.push(c.command);
        }
        i = i + 1;
    }
    out
}

// ===========================================================================
// Conflict resolution
// ===========================================================================

/// Whether some command in the list is a set-block on the same cell as the
/// command at position `j`.
pub open spec fn spec_cell_has_set_block(cmds: Seq<DomainCommand>, idx: usize) -> bool {
    exists|i: int|
        0 <= i < cmds.len() && spec_cmd_idx(#[trigger] cmds[i]) == idx && spec_is_set_block(
            cmds[i],
        )
}

/// Whether the command at position `j` survives conflict resolution: on a
/// cell with a set-block command, only the first set-block survives; every
/// other cell keeps all its commands in order.
pub open spec fn spec_keep(cmds: Seq<DomainCommand>, j: int) -> bool {
    let c = cmds[j];
    let idx = spec_cmd_idx(c);
    if spec_cell_has_set_block(cmds, idx) {
        spec_is_set_block(c) && (forall|i: int|
            0 <= i < j && spec_cmd_idx(#[trigger] cmds[i]) == idx ==> !spec_is_set_block(cmds[i]))
    } else {
        true
    }
}

/// The commands that survive conflict resolution among the first `n`, in
/// their original order.
pub open spec fn spec_resolve(cmds: Seq<DomainCommand>, n: int) -> Seq<DomainCommand>
    decreases n,
{
    if n <= 0 {
        Seq::empty()
    } else if spec_keep(cmds, n - 1) {
        spec_resolve(cmds, n - 1).push(cmds[n - 1])
    } else {
        spec_resolve(cmds, n - 1)
    }
}

/// Resolves command conflicts: on a cell targeted by a set-block command
/// only the first set-block survives; all commands for other cells survive
/// in their original order.
pub fn resolve_conflicts(commands: Vec<DomainCommand>) -> (r: Vec<DomainCommand>)
    ensures
        r@ == spec_resolve(commands@, commands@.len() as int),
{
    let mut out: Vec<DomainCommand> = Vec::new();
    let mut j: usize = 0;
    while j < commands.len()
        invariant
            j <= commands@.len(),
            out@ == spec_resolve(commands@, j as int),
        decreases commands@.len() - j,
    {
        let c = commands[j];
        let idx = c.idx();

        // does any command in the list set this cell's block?
        let mut has_set_block = false;
        let mut i: usize = 0;
        while i < commands.len()
            invariant
                i <= commands@.len(),
                j < commands@.len(),
                idx == spec_cmd_idx(commands@[j as int]),
                has_set_block == (exists|k: int|
                    0 <= k < i && spec_cmd_idx(#[trigger] commands@[k]) == idx && spec_is_set_block(
                        commands@[k],
                    )),
            decreases commands@.len() - i,
        {
            let ci = commands[i];
            if ci.idx() == idx && matches!(ci, DomainCommand::SetBlock { .. }) {
                proof {
                    assert(spec_cmd_idx(commands@[i as int]) == idx && spec_is_set_block(
                        commands@[i as int],
                    ));
                }
                has_set_block = true;
            }
            i = i + 1;
        }

        let keep: bool = if has_set_block {
            if matches!(c, DomainCommand::SetBlock { .. }) {
                // is this the first set-block for the cell?
                let mut first = true;
                let mut k: usize = 0;
                while k < j
                    invariant
                        k <= j,
                        j < commands@.len(),
                        idx == spec_cmd_idx(commands@[j as int]),
                        first == (forall|q: int|
                            0 <= q < k && spec_cmd_idx(#[trigger] commands@[q]) == idx
                                ==> !spec_is_set_block(commands@[q])),
                    decreases j - k,
                {
                    let ck = commands[k];
                    if ck.idx() == idx && matches!(ck, DomainCommand::SetBlock { .. }) {
                        first = false;
                    }
                    k = k + 1;
                }
                first
            } else {
                false
            }
        } else {
            true
        };

        proof {
            assert(has_set_block == spec_cell_has_set_block(commands@, idx));
            assert(keep == spec_keep(commands@, j as int));
        }
        if keep {
            out.push(c);
        }
        j = j + 1;
    }
    out
}

/// On a cell with a set-block command, conflict resolution keeps exactly
/// one command for that cell: its first set-block. Every other command on
/// the cell in the same tick is discarded, so only the set-block's effect
/// can be observed after the commit stage applies the survivors.
pub proof fn lemma_set_block_wins(cmds: Seq<DomainCommand>, j: int)
    requires
        0 <= j < cmds.len(),
        spec_is_set_block(cmds[j]),
        forall|i: int|
            0 <= i < j && spec_cmd_idx(#[trigger] cmds[i]) == spec_cmd_idx(cmds[j])
                ==> !spec_is_set_block(cmds[i]),
    ensures
        spec_resolve(cmds, cmds.len() as int).contains(cmds[j]),
        forall|k: int|
            0 <= k < spec_resolve(cmds, cmds.len() as int).len() && spec_cmd_idx(
                #[trigger] spec_resolve(cmds, cmds.len() as int)[k],
            ) == spec_cmd_idx(cmds[j]) ==> spec_resolve(cmds, cmds.len() as int)[k] == cmds[j],
{
    let idx = spec_cmd_idx(cmds[j]);
    assert(spec_cell_has_set_block(cmds, idx));
    assert(spec_keep(cmds, j));
    lemma_resolve_membership(cmds, cmds.len() as int, j);
    assert forall|k: int|
        0 <= k < spec_resolve(cmds, cmds.len() as int).len() && spec_cmd_idx(
            #[trigger] spec_resolve(cmds, cmds.len() as int)[k],
        ) == idx implies spec_resolve(cmds, cmds.len() as int)[k] == cmds[j] by {
        let q = lemma_resolve_source(cmds, cmds.len() as int, k);
        // the survivor at k came from position q; a surviving command on
        // this cell must be a first set-block, and first set-blocks on one
        // cell are unique
        if q != j {
            if q < j {
                assert(!spec_is_set_block(cmds[q]));
                assert(!spec_keep(cmds, q));
            } else {
                assert(spec_cmd_idx(cmds[j]) == idx && spec_is_set_block(cmds[j]));
                assert(!spec_keep(cmds, q));
            }
        }
    }
}

/// Every kept position appears in the resolved sequence.
proof fn lemma_resolve_membership(cmds: Seq<DomainCommand>, n: int, j: int)
    requires
        0 <= j < n <= cmds.len(),
        spec_keep(cmds, j),
    ensures
        spec_resolve(cmds, n).contains(cmds[j]),
    decreases n,
{
    if j == n - 1 {
        assert(spec_resolve(cmds, n)[spec_resolve(cmds, n).len() - 1] == cmds[j]);
    } else {
        lemma_resolve_membership(cmds, n - 1, j);
        let s = spec_resolve(cmds, n - 1);
        let q = choose|q: int| 0 <= q < s.len() && s[q] == cmds[j];
        assert(spec_resolve(cmds, n)[q] == cmds[j]);
    }
}

/// Every element of the resolved sequence comes from a kept position of
/// the original sequence; returns such a position.
proof fn lemma_resolve_source(cmds: Seq<DomainCommand>, n: int, k: int) -> (q: int)
    requires
        0 <= n <= cmds.len(),
        0 <= k < spec_resolve(cmds, n).len(),
    ensures
        0 <= q < n,
        spec_keep(cmds, q),
        spec_resolve(cmds, n)[k] == cmds[q],
    decreases n,
{
    if n <= 0 {
        0
    } else if spec_keep(cmds, n - 1) && k == spec_resolve(cmds, n).len() - 1 {
        n - 1
    } else {
        lemma_resolve_source(cmds, n - 1, k)
    }
}

// ===========================================================================
// Command execution
// ===========================================================================

/// The observable simulation state of one cell: its kind, flags, variant,
/// temperature override and active-set memberships.
#[derive(PartialEq, Eq, Structural)]
pub struct CellState {
    pub kind: VoxelKind,
    pub flag_bits: u16,
    pub variant: u8,
    pub temp_override: Option<i64>,
    pub thermal_active: bool,
    pub burning_active: bool,
}

/// The observable simulation state of the cell `idx` of a chunk.
pub open spec fn spec_cell_state(c: &ChunkData, idx: usize) -> CellState {
    CellState {
        kind: c.voxels[idx as int],
        flag_bits: c.flags[idx as int].bits,
        variant: c.variant[idx as int],
        temp_override: spec_override(c, idx),
        thermal_active: c.active_thermal.spec_contains(idx as int),
        burning_active: c.active_burning.spec_contains(idx as int),
    }
}

/// The effect of a temperature write on a cell's state: the override is
/// dropped within epsilon of the kind's default, else stored and the cell
/// made thermally active; the hot and cold flags follow the temperature.
pub open spec fn spec_cell_after_set_temp(pre: CellState, temp: i64) -> CellState {
    let default_temp = spec_def(pre.kind).props.temperature;
    let near = abs_diff(temp as int, default_temp as int) < TEMP_EPSILON as int;
    CellState {
        kind: pre.kind,
        flag_bits: spec_temp_flag_bits(pre.flag_bits, temp),
        variant: pre.variant,
        temp_override: if near {
            Option::None
        } else {
            Option::Some(temp)
        },
        thermal_active: pre.thermal_active || !near,
        burning_active: pre.burning_active,
    }
}

/// The effect of one command on the state of the cell it targets.
pub open spec fn spec_cell_after(pre: CellState, cmd: DomainCommand) -> CellState {
    match cmd {
        DomainCommand::SetBlock { new_voxel, .. } => CellState { kind: new_voxel, ..pre },
        DomainCommand::AddFlag { flag, .. } => CellState {
            flag_bits: pre.flag_bits | flag.bits,
            ..pre
        },
        DomainCommand::RemoveFlag { flag, .. } => CellState {
            flag_bits: pre.flag_bits & !flag.bits,
            ..pre
        },
        DomainCommand::SetVariant { variant, .. } => CellState { variant, ..pre },
        DomainCommand::IncrementVariant { .. } => CellState {
            variant: if pre.variant == 255 {
                255u8
            } else {
                (pre.variant + 1) as u8
            },
            ..pre
        },
        DomainCommand::DecrementVariant { .. } => CellState {
            variant: if pre.variant == 0 {
                0u8
            } else {
                (pre.variant - 1) as u8
            },
            ..pre
        },
        DomainCommand::SetTemp { temp, .. } => spec_cell_after_set_temp(pre, temp),
        DomainCommand::AddHeat { heat, .. } => {
            let cap = spec_def(pre.kind).props.heat_capacity;
            if cap <= 0 {
                pre
            } else {
                let cur = match pre.temp_override {
                    Option::Some(t) => t,
                    Option::None => spec_def(pre.kind).props.temperature,
                };
                let nt = clamp_i64(cur as int + heat as int / cap as int) as i64;
                spec_cell_after_set_temp(pre, nt)
            }
        },
        DomainCommand::SetMoisture { .. } => pre,
        DomainCommand::AddMoisture { .. } => pre,
        DomainCommand::Ignite { .. } => CellState {
            flag_bits: pre.flag_bits | 1,
            burning_active: true,
            ..pre
        },
        DomainCommand::Extinguish { .. } => CellState {
            flag_bits: pre.flag_bits & !1,
            burning_active: false,
            ..pre
        },
    }
}

/// Whether a command changes visible geometry when applied in bounds: a
/// block change or any variant change, matching the change log's
/// remesh-worthiness.
pub open spec fn spec_cmd_remesh(cmd: DomainCommand) -> bool {
    match cmd {
        DomainCommand::SetBlock { .. } => true,
        DomainCommand::SetVariant { .. } => true,
        DomainCommand::IncrementVariant { .. } => true,
        DomainCommand::DecrementVariant { .. } => true,
        _ => false,
    }
}

/// The change-log entries one in-bounds command appends, given the target
/// cell's prior state.
pub open spec fn spec_cmd_changes(pre: CellState, cmd: DomainCommand) -> Seq<BlockChange> {
    match cmd {
        DomainCommand::SetBlock { idx, new_voxel } => seq![
            BlockChange::SetVoxel { idx, prev: pre.kind, next: new_voxel },
        ],
        DomainCommand::AddFlag { idx, flag } => seq![
            BlockChange::SetFlag { idx, flag, set: true },
        ],
        DomainCommand::RemoveFlag { idx, flag } => seq![
            BlockChange::SetFlag { idx, flag, set: false },
        ],
        DomainCommand::SetVariant { idx, variant } => seq![
            BlockChange::SetVariant { idx, prev: pre.variant, next: variant },
        ],
        DomainCommand::IncrementVariant { idx } => seq![
            BlockChange::SetVariant {
                idx,
                prev: pre.variant,
                next: if pre.variant == 255 {
                    255u8
                } else {
                    (pre.variant + 1) as u8
                },
            },
        ],
        DomainCommand::DecrementVariant { idx } => seq![
            BlockChange::SetVariant {
                idx,
                prev: pre.variant,
                next: if pre.variant == 0 {
                    0u8
                } else {
                    (pre.variant - 1) as u8
                },
            },
        ],
        DomainCommand::SetTemp { idx, temp } => spec_temp_flag_changes(pre.flag_bits, temp, idx)
            + seq![BlockChange::SetTemp { idx, temp }],
        DomainCommand::AddHeat { idx, heat } => {
            let cap = spec_def(pre.kind).props.heat_capacity;
            if cap <= 0 {
                Seq::empty()
            } else {
                let cur = match pre.temp_override {
                    Option::Some(t) => t,
                    Option::None => spec_def(pre.kind).props.temperature,
                };
                let nt = clamp_i64(cur as int + heat as int / cap as int) as i64;
                spec_temp_flag_changes(pre.flag_bits, nt, idx) + seq![
                    BlockChange::SetTemp { idx, temp: nt },
                ]
            }
        },
        DomainCommand::SetMoisture { idx, moisture } => seq![
            BlockChange::SetMoisture { idx, moisture },
        ],
        DomainCommand::AddMoisture { .. } => Seq::empty(),
        DomainCommand::Ignite { idx, .. } => seq![
            BlockChange::SetFlag { idx, flag: VoxelFlags { bits: 1 }, set: true },
        ],
        DomainCommand::Extinguish { idx } => seq![
            BlockChange::SetFlag { idx, flag: VoxelFlags { bits: 1 }, set: false },
        ],
    }
}

/// The cell indices one in-bounds command appends to the incremental dirty
/// list, given the target cell's prior state.
pub open spec fn spec_cmd_dirty(pre: CellState, cmd: DomainCommand) -> Seq<usize> {
    match cmd {
        DomainCommand::AddHeat { idx, .. } => {
            if spec_def(pre.kind).props.heat_capacity <= 0 {
                Seq::empty()
            } else {
                seq![idx]
            }
        },
        DomainCommand::SetMoisture { .. } => Seq::empty(),
        DomainCommand::AddMoisture { .. } => Seq::empty(),
        _ => seq![spec_cmd_idx(cmd)],
    }
}

/// Applies a block, flag or variant command; see [`execute_command`].
#[verifier::rlimit(100)]
fn execute_block_command(chunk: &mut ChunkData, cmd: &DomainCommand)
    requires
        cmd is SetBlock || cmd is AddFlag || cmd is RemoveFlag || cmd is SetVariant || cmd is IncrementVariant || cmd is DecrementVariant,
        old(chunk).spec_wf(),
    ensures
        final(chunk).spec_wf(),
        spec_cmd_idx(*cmd) >= 4096 ==> *final(chunk) == *old(chunk),
        spec_cmd_idx(*cmd) < 4096 ==> {
            &&& spec_cell_state(final(chunk), spec_cmd_idx(*cmd)) == spec_cell_after(
                spec_cell_state(old(chunk), spec_cmd_idx(*cmd)),
                *cmd,
            )
            &&& forall|c: usize|
                c < 4096 && c != spec_cmd_idx(*cmd) ==> spec_cell_state(final(chunk), c)
                    == spec_cell_state(old(chunk), c)
            &&& final(chunk).changes@ == old(chunk).changes@ + spec_cmd_changes(
                spec_cell_state(old(chunk), spec_cmd_idx(*cmd)),
                *cmd,
            )
            &&& final(chunk).dirty_blocks@ == old(chunk).dirty_blocks@ + spec_cmd_dirty(
                spec_cell_state(old(chunk), spec_cmd_idx(*cmd)),
                *cmd,
            )
        },
        old(chunk).changes@.is_prefix_of(final(chunk).changes@),
        old(chunk).dirty_blocks@.is_prefix_of(final(chunk).dirty_blocks@),
        final(chunk).needs_remesh == (old(chunk).needs_remesh || (spec_cmd_remesh(*cmd)
            && spec_cmd_idx(*cmd) < 4096)),
        final(chunk).is_dirty == (old(chunk).is_dirty || (spec_is_set_block(*cmd) && spec_cmd_idx(
            *cmd,
        ) < 4096)),
        final(chunk).active_freezing == old(chunk).active_freezing,
        final(chunk).active_melting == old(chunk).active_melting,
{
    match cmd {
        DomainCommand::SetBlock { idx, new_voxel } => {
            if *idx < 4096 {
                let prev = chunk.voxels[*idx];
                chunk.voxels[*idx] = *new_voxel;
                chunk.changes.push(BlockChange::SetVoxel { idx: *idx, prev, next: *new_voxel });
                chunk.dirty_blocks.push(*idx);
                chunk.needs_remesh = true;
                chunk.is_dirty = true;
                proof {
                    assert(chunk.changes@ =~= old(chunk).changes@ + spec_cmd_changes(
                        spec_cell_state(old(chunk), *idx),
                        *cmd,
                    ));
                    assert(chunk.dirty_blocks@ =~= old(chunk).dirty_blocks@ + spec_cmd_dirty(
                        spec_cell_state(old(chunk), *idx),
                        *cmd,
                    ));
                }
            }
        },
        DomainCommand::AddFlag { idx, flag } => {
            if *idx < 4096 {
                let mut f = chunk.flags[*idx];
                f.insert(*flag);
                chunk.flags[*idx] = f;
                chunk.changes.push(BlockChange::SetFlag { idx: *idx, flag: *flag, set: true });
                chunk.dirty_blocks.push(*idx);
                proof {
                    assert(chunk.changes@ =~= old(chunk).changes@ + spec_cmd_changes(
                        spec_cell_state(old(chunk), *idx),
                        *cmd,
                    ));
                    assert(chunk.dirty_blocks@ =~= old(chunk).dirty_blocks@ + spec_cmd_dirty(
                        spec_cell_state(old(chunk), *idx),
                        *cmd,
                    ));
                }
            }
        },
        DomainCommand::RemoveFlag { idx, flag } => {
            if *idx < 4096 {
                let mut f = chunk.flags[*idx];
                f.remove(*flag);
                chunk.flags[*idx] = f;
                chunk.changes.push(BlockChange::SetFlag { idx: *idx, flag: *flag, set: false });
                chunk.dirty_blocks.push(*idx);
                proof {
                    assert(chunk.changes@ =~= old(chunk).changes@ + spec_cmd_changes(
                        spec_cell_state(old(chunk), *idx),
                        *cmd,
                    ));
                    assert(chunk.dirty_blocks@ =~= old(chunk).dirty_blocks@ + spec_cmd_dirty(
                        spec_cell_state(old(chunk), *idx),
                        *cmd,
                    ));
                }
            }
        },
        DomainCommand::SetVariant { idx, variant } => {
            if *idx < 4096 {
                let prev = chunk.variant[*idx];
                chunk.variant[*idx] = *variant;
                chunk.changes.push(
                    BlockChange::SetVariant { idx: *idx, prev, next: *variant },
                );
                chunk.dirty_blocks.push(*idx);
                chunk.needs_remesh = true;
                proof {
                    assert(chunk.changes@ =~= old(chunk).changes@ + spec_cmd_changes(
                        spec_cell_state(old(chunk), *idx),
                        *cmd,
                    ));
                    assert(chunk.dirty_blocks@ =~= old(chunk).dirty_blocks@ + spec_cmd_dirty(
                        spec_cell_state(old(chunk), *idx),
                        *cmd,
                    ));
                }
            }
        },
        DomainCommand::IncrementVariant { idx } => {
            if *idx < 4096 {
                let prev = chunk.variant[*idx];
                let next = if prev == 255 {
                    255
                } else {
                    prev + 1
                };
                chunk.variant[*idx] = next;
                chunk.changes.push(BlockChange::SetVariant { idx: *idx, prev, next });
                chunk.dirty_blocks.push(*idx);
                chunk.needs_remesh = true;
                proof {
                    assert(chunk.changes@ =~= old(chunk).changes@ + spec_cmd_changes(
                        spec_cell_state(old(chunk), *idx),
                        *cmd,
                    ));
                    assert(chunk.dirty_blocks@ =~= old(chunk).dirty_blocks@ + spec_cmd_dirty(
                        spec_cell_state(old(chunk), *idx),
                        *cmd,
                    ));
                }
            }
        },
        DomainCommand::DecrementVariant { idx } => {
            if *idx < 4096 {
                let prev = chunk.variant[*idx];
                let next = if prev == 0 {
                    0
                } else {
                    prev - 1
                };
                chunk.variant[*idx] = next;
                chunk.changes.push(BlockChange::SetVariant { idx: *idx, prev, next });
                chunk.dirty_blocks.push(*idx);
                chunk.needs_remesh = true;
                proof {
                    assert(chunk.changes@ =~= old(chunk).changes@ + spec_cmd_changes(
                        spec_cell_state(old(chunk), *idx),
                        *cmd,
                    ));
                    assert(chunk.dirty_blocks@ =~= old(chunk).dirty_blocks@ + spec_cmd_dirty(
                        spec_cell_state(old(chunk), *idx),
                        *cmd,
                    ));
                }
            }
        },
        _ => {
            proof {
                assert(false);
            }
        },
    }
}

/// Applies a temperature command; see [`execute_command`].
#[verifier::rlimit(100)]
fn execute_thermal_command(chunk: &mut ChunkData, cmd: &DomainCommand)
    requires
        cmd is SetTemp || cmd is AddHeat,
        old(chunk).spec_wf(),
    ensures
        final(chunk).spec_wf(),
        spec_cmd_idx(*cmd) >= 4096 ==> *final(chunk) == *old(chunk),
        spec_cmd_idx(*cmd) < 4096 ==> {
            &&& spec_cell_state(final(chunk), spec_cmd_idx(*cmd)) == spec_cell_after(
                spec_cell_state(old(chunk), spec_cmd_idx(*cmd)),
                *cmd,
            )
            &&& forall|c: usize|
                c < 4096 && c != spec_cmd_idx(*cmd) ==> spec_cell_state(final(chunk), c)
                    == spec_cell_state(old(chunk), c)
            &&& final(chunk).changes@ == old(chunk).changes@ + spec_cmd_changes(
                spec_cell_state(old(chunk), spec_cmd_idx(*cmd)),
                *cmd,
            )
            &&& final(chunk).dirty_blocks@ == old(chunk).dirty_blocks@ + spec_cmd_dirty(
                spec_cell_state(old(chunk), spec_cmd_idx(*cmd)),
                *cmd,
            )
        },
        old(chunk).changes@.is_prefix_of(final(chunk).changes@),
        old(chunk).dirty_blocks@.is_prefix_of(final(chunk).dirty_blocks@),
        final(chunk).needs_remesh == (old(chunk).needs_remesh || (spec_cmd_remesh(*cmd)
            && spec_cmd_idx(*cmd) < 4096)),
        final(chunk).is_dirty == (old(chunk).is_dirty || (spec_is_set_block(*cmd) && spec_cmd_idx(
            *cmd,
        ) < 4096)),
        final(chunk).active_freezing == old(chunk).active_freezing,
        final(chunk).active_melting == old(chunk).active_melting,
{
    match cmd {
        DomainCommand::SetTemp { idx, temp } => {
            if *idx < 4096 {
                let ghost pre = *chunk;
                ThermalApi::set_temp(chunk, *idx, *temp);
                proof {
                    lemma_cell_after_set_temp(&pre, chunk, *idx, *temp);
                    assert(chunk.changes@ =~= old(chunk).changes@ + spec_cmd_changes(
                        spec_cell_state(old(chunk), *idx),
                        *cmd,
                    ));
                    assert(chunk.dirty_blocks@ =~= old(chunk).dirty_blocks@ + spec_cmd_dirty(
                        spec_cell_state(old(chunk), *idx),
                        *cmd,
                    ));
                }
            }
        },
        DomainCommand::AddHeat { idx, heat } => {
            if *idx < 4096 {
                let ghost pre = *chunk;
                ThermalApi::add_heat(chunk, *idx, *heat);
                proof {
                    let cap = spec_def(pre.voxels[*idx as int]).props.heat_capacity;
                    if cap > 0 {
                        let cur = spec_get_temp(&pre, *idx);
                        let nt = clamp_i64(cur as int + *heat as int / cap as int) as i64;
                        lemma_cell_after_set_temp_values(&pre, chunk, *idx, nt);
                    }
                    assert(chunk.changes@ =~= old(chunk).changes@ + spec_cmd_changes(
                        spec_cell_state(old(chunk), *idx),
                        *cmd,
                    ));
                    assert(chunk.dirty_blocks@ =~= old(chunk).dirty_blocks@ + spec_cmd_dirty(
                        spec_cell_state(old(chunk), *idx),
                        *cmd,
                    ));
                }
            }
        },
        _ => {
            proof {
                assert(false);
            }
        },
    }
}

/// Applies a moisture or combustion command; see [`execute_command`].
#[verifier::rlimit(100)]
fn execute_status_command(chunk: &mut ChunkData, cmd: &DomainCommand)
    requires
        cmd is SetMoisture || cmd is AddMoisture || cmd is Ignite || cmd is Extinguish,
        old(chunk).spec_wf(),
    ensures
        final(chunk).spec_wf(),
        spec_cmd_idx(*cmd) >= 4096 ==> *final(chunk) == *old(chunk),
        spec_cmd_idx(*cmd) < 4096 ==> {
            &&& spec_cell_state(final(chunk), spec_cmd_idx(*cmd)) == spec_cell_after(
                spec_cell_state(old(chunk), spec_cmd_idx(*cmd)),
                *cmd,
            )
            &&& forall|c: usize|
                c < 4096 && c != spec_cmd_idx(*cmd) ==> spec_cell_state(final(chunk), c)
                    == spec_cell_state(old(chunk), c)
            &&& final(chunk).changes@ == old(chunk).changes@ + spec_cmd_changes(
                spec_cell_state(old(chunk), spec_cmd_idx(*cmd)),
                *cmd,
            )
            &&& final(chunk).dirty_blocks@ == old(chunk).dirty_blocks@ + spec_cmd_dirty(
                spec_cell_state(old(chunk), spec_cmd_idx(*cmd)),
                *cmd,
            )
        },
        old(chunk).changes@.is_prefix_of(final(chunk).changes@),
        old(chunk).dirty_blocks@.is_prefix_of(final(chunk).dirty_blocks@),
        final(chunk).needs_remesh == (old(chunk).needs_remesh || (spec_cmd_remesh(*cmd)
            && spec_cmd_idx(*cmd) < 4096)),
        final(chunk).is_dirty == (old(chunk).is_dirty || (spec_is_set_block(*cmd) && spec_cmd_idx(
            *cmd,
        ) < 4096)),
        final(chunk).active_freezing == old(chunk).active_freezing,
        final(chunk).active_melting == old(chunk).active_melting,
{
    match cmd {
        DomainCommand::SetMoisture { idx, moisture } => {
            if *idx < 4096 {
                chunk.changes.push(
                    BlockChange::SetMoisture { idx: *idx, moisture: *moisture },
                );
                proof {
                    assert(chunk.changes@ =~= old(chunk).changes@ + spec_cmd_changes(
                        spec_cell_state(old(chunk), *idx),
                        *cmd,
                    ));
                    assert(chunk.dirty_blocks@ =~= old(chunk).dirty_blocks@ + spec_cmd_dirty(
                        spec_cell_state(old(chunk), *idx),
                        *cmd,
                    ));
                }
            }
        },
        DomainCommand::AddMoisture { idx, delta } => {
            let _ = delta;
            if *idx < 4096 {
                proof {
                    assert(chunk.changes@ =~= old(chunk).changes@ + spec_cmd_changes(
                        spec_cell_state(old(chunk), *idx),
                        *cmd,
                    ));
                    assert(chunk.dirty_blocks@ =~= old(chunk).dirty_blocks@ + spec_cmd_dirty(
                        spec_cell_state(old(chunk), *idx),
                        *cmd,
                    ));
                }
            }
        },
        DomainCommand::Ignite { idx, power } => {
            let _ = power;
            if *idx < 4096 {
                let mut f = chunk.flags[*idx];
                f.insert(VoxelFlags::burning());
                chunk.flags[*idx] = f;
                chunk.active_burning.insert(*idx);
                chunk.changes.push(
                    BlockChange::SetFlag { idx: *idx, flag: VoxelFlags { bits: 1 }, set: true },
                );
                chunk.dirty_blocks.push(*idx);
                proof {
                    assert(chunk.changes@ =~= old(chunk).changes@ + spec_cmd_changes(
                        spec_cell_state(old(chunk), *idx),
                        *cmd,
                    ));
                    assert(chunk.dirty_blocks@ =~= old(chunk).dirty_blocks@ + spec_cmd_dirty(
                        spec_cell_state(old(chunk), *idx),
                        *cmd,
                    ));
                }
            }
        },
        DomainCommand::Extinguish { idx } => {
            if *idx < 4096 {
                let mut f = chunk.flags[*idx];
                f.remove(VoxelFlags::burning());
                chunk.flags[*idx] = f;
                chunk.active_burning.remove(*idx);
                chunk.changes.push(
                    BlockChange::SetFlag { idx: *idx, flag: VoxelFlags { bits: 1 }, set: false },
                );
                chunk.dirty_blocks.push(*idx);
                proof {
                    assert(chunk.changes@ =~= old(chunk).changes@ + spec_cmd_changes(
                        spec_cell_state(old(chunk), *idx),
                        *cmd,
                    ));
                    assert(chunk.dirty_blocks@ =~= old(chunk).dirty_blocks@ + spec_cmd_dirty(
                        spec_cell_state(old(chunk), *idx),
                        *cmd,
                    ));
                }
            }
        },
        _ => {
            proof {
                assert(false);
            }
        },
    }
}

/// Applies one command to a chunk: the targeted cell takes the command's
/// effect, every other cell is untouched, and the change log and the
/// incremental dirty list record exactly the command's entries. A command
/// whose index lies outside the chunk is a no-op.
pub fn execute_command(chunk: &mut ChunkData, cmd: &DomainCommand)
    requires
        old(chunk).spec_wf(),
    ensures
        final(chunk).spec_wf(),
        spec_cmd_idx(*cmd) >= 4096 ==> *final(chunk) == *old(chunk),
        spec_cmd_idx(*cmd) < 4096 ==> {
            &&& spec_cell_state(final(chunk), spec_cmd_idx(*cmd)) == spec_cell_after(
                spec_cell_state(old(chunk), spec_cmd_idx(*cmd)),
                *cmd,
            )
            &&& forall|c: usize|
                c < 4096 && c != spec_cmd_idx(*cmd) ==> spec_cell_state(final(chunk), c)
                    == spec_cell_state(old(chunk), c)
            &&& final(chunk).changes@ == old(chunk).changes@ + spec_cmd_changes(
                spec_cell_state(old(chunk), spec_cmd_idx(*cmd)),
                *cmd,
            )
            &&& final(chunk).dirty_blocks@ == old(chunk).dirty_blocks@ + spec_cmd_dirty(
                spec_cell_state(old(chunk), spec_cmd_idx(*cmd)),
                *cmd,
            )
        },
        old(chunk).changes@.is_prefix_of(final(chunk).changes@),
        old(chunk).dirty_blocks@.is_prefix_of(final(chunk).dirty_blocks@),
        final(chunk).needs_remesh == (old(chunk).needs_remesh || (spec_cmd_remesh(*cmd)
            && spec_cmd_idx(*cmd) < 4096)),
        final(chunk).is_dirty == (old(chunk).is_dirty || (spec_is_set_block(*cmd) && spec_cmd_idx(
            *cmd,
        ) < 4096)),
        final(chunk).active_freezing == old(chunk).active_freezing,
        final(chunk).active_melting == old(chunk).active_melting,
{
    match cmd {
        DomainCommand::SetBlock { .. }
        | DomainCommand::AddFlag { .. }
        | DomainCommand::RemoveFlag { .. }
        | DomainCommand::SetVariant { .. }
        | DomainCommand::IncrementVariant { .. }
        | DomainCommand::DecrementVariant { .. } => execute_block_command(chunk, cmd),
        DomainCommand::SetTemp { .. } | DomainCommand::AddHeat { .. } => execute_thermal_command(
            chunk,
            cmd,
        ),
        _ => execute_status_command(chunk, cmd),
    }
}

/// After a temperature write, the cell's state is the set-temperature
/// effect of the written value on its prior state.
proof fn lemma_cell_after_set_temp(pre: &ChunkData, post: &ChunkData, idx: usize, temp: i64)
    requires
        pre.spec_wf(),
        idx < 4096,
        post.spec_wf(),
        post.flags@ == pre.flags@.update(
            idx as int,
            VoxelFlags { bits: spec_temp_flag_bits(pre.flags[idx as int].bits, temp) },
        ),
        post.voxels == pre.voxels,
        post.variant == pre.variant,
        abs_diff(temp as int, spec_def(pre.voxels[idx as int]).props.temperature as int)
            < TEMP_EPSILON as int ==> spec_override(post, idx) is None,
        abs_diff(temp as int, spec_def(pre.voxels[idx as int]).props.temperature as int)
            >= TEMP_EPSILON as int ==> spec_override(post, idx) == Some(temp),
        forall|i: int|
            post.active_thermal.spec_contains(i) == (pre.active_thermal.spec_contains(i) || (i
                == idx as int && abs_diff(
                temp as int,
                spec_def(pre.voxels[idx as int]).props.temperature as int,
            ) >= TEMP_EPSILON as int)),
        post.active_burning == pre.active_burning,
    ensures
        spec_cell_state(post, idx) == spec_cell_after_set_temp(spec_cell_state(pre, idx), temp),
{
    assert(post.flags[idx as int].bits == spec_temp_flag_bits(pre.flags[idx as int].bits, temp));
}

/// Variant of [`lemma_cell_after_set_temp`] for a value computed from heat.
proof fn lemma_cell_after_set_temp_values(pre: &ChunkData, post: &ChunkData, idx: usize, nt: i64)
    requires
        pre.spec_wf(),
        idx < 4096,
        post.spec_wf(),
        post.flags@ == pre.flags@.update(
            idx as int,
            VoxelFlags { bits: spec_temp_flag_bits(pre.flags[idx as int].bits, nt) },
        ),
        post.voxels == pre.voxels,
        post.variant == pre.variant,
        abs_diff(nt as int, spec_def(pre.voxels[idx as int]).props.temperature as int)
            < TEMP_EPSILON as int ==> spec_override(post, idx) is None,
        abs_diff(nt as int, spec_def(pre.voxels[idx as int]).props.temperature as int)
            >= TEMP_EPSILON as int ==> spec_override(post, idx) == Some(nt),
        forall|i: int|
            post.active_thermal.spec_contains(i) == (pre.active_thermal.spec_contains(i) || (i
                == idx as int && abs_diff(
                nt as int,
                spec_def(pre.voxels[idx as int]).props.temperature as int,
            ) >= TEMP_EPSILON as int)),
        post.active_burning == pre.active_burning,
    ensures
        spec_cell_state(post, idx) == spec_cell_after_set_temp(spec_cell_state(pre, idx), nt),
{
    assert(post.flags[idx as int].bits == spec_temp_flag_bits(pre.flags[idx as int].bits, nt));
}

/// The state of one cell after applying, in order, those of the first `n`
/// commands that target it.
pub open spec fn spec_apply_cell(
    pre: CellState,
    cmds: Seq<DomainCommand>,
    c: usize,
    n: int,
) -> CellState
    decreases n,
{
    if n <= 0 {
        pre
    } else {
        let prev = spec_apply_cell(pre, cmds, c, n - 1);
        if spec_cmd_idx(cmds[n - 1]) == c {
            spec_cell_after(prev, cmds[n - 1])
        } else {
            prev
        }
    }
}

/// A cell no command targets keeps its state through the fold.
pub proof fn lemma_apply_cell_untouched(pre: CellState, cmds: Seq<DomainCommand>, c: usize, n: int)
    requires
        n <= cmds.len(),
        forall|j: int| 0 <= j < n ==> spec_cmd_idx(#[trigger] cmds[j]) != c,
    ensures
        spec_apply_cell(pre, cmds, c, n) == pre,
    decreases n,
{
    if n > 0 {
        lemma_apply_cell_untouched(pre, cmds, c, n - 1);
    }
}

/// A cell exactly one command targets takes exactly that command's effect.
pub proof fn lemma_apply_cell_single(
    pre: CellState,
    cmds: Seq<DomainCommand>,
    c: usize,
    n: int,
    j: int,
)
    requires
        0 <= j < n <= cmds.len(),
        spec_cmd_idx(cmds[j]) == c,
        forall|j2: int| 0 <= j2 < n && j2 != j ==> spec_cmd_idx(#[trigger] cmds[j2]) != c,
    ensures
        spec_apply_cell(pre, cmds, c, n) == spec_cell_after(pre, cmds[j]),
    decreases n,
{
    if j == n - 1 {
        lemma_apply_cell_untouched(pre, cmds, c, n - 1);
    } else {
        lemma_apply_cell_single(pre, cmds, c, n - 1, j);
    }
}

/// Applies a resolved command list to one chunk, in order: every cell's
/// final state is the in-order fold of the commands that target it over
/// its prior state. In particular a cell no command targets is untouched,
/// and a cell exactly one command targets takes exactly that command's
/// effect.
pub fn commit_chunk(chunk: &mut ChunkData, resolved: &Vec<DomainCommand>)
    requires
        old(chunk).spec_wf(),
    ensures
        final(chunk).spec_wf(),
        old(chunk).changes@.is_prefix_of(final(chunk).changes@),
        old(chunk).dirty_blocks@.is_prefix_of(final(chunk).dirty_blocks@),
        final(chunk).active_freezing == old(chunk).active_freezing,
        final(chunk).active_melting == old(chunk).active_melting,
        forall|c: usize|
            c < 4096 ==> spec_cell_state(final(chunk), c) == spec_apply_cell(
                spec_cell_state(old(chunk), c),
                resolved@,
                c,
                resolved@.len() as int,
            ),
{
    let ghost entry = *old(chunk);
    let mut n: usize = 0;
    while n < resolved.len()
        invariant
            chunk.spec_wf(),
            entry == *old(chunk),
            n <= resolved@.len(),
            entry.changes@.is_prefix_of(chunk.changes@),
            entry.dirty_blocks@.is_prefix_of(chunk.dirty_blocks@),
            chunk.active_freezing == entry.active_freezing,
            chunk.active_melting == entry.active_melting,
            forall|c: usize|
                c < 4096 ==> spec_cell_state(chunk, c) == spec_apply_cell(
                    spec_cell_state(&entry, c),
                    resolved@,
                    c,
                    n as int,
                ),
        decreases resolved@.len() - n,
    {
        let cmd = resolved[n];
        let ghost pre = *chunk;
        execute_command(chunk, &cmd);
        proof {
            let tgt = spec_cmd_idx(resolved@[n as int]);
            assert forall|c: usize|
                c < 4096 implies spec_cell_state(chunk, c) == spec_apply_cell(
                spec_cell_state(&entry, c),
                resolved@,
                c,
                n as int + 1,
            ) by {
                let prev = spec_apply_cell(spec_cell_state(&entry, c), resolved@, c, n as int);
                if tgt == c {
                    assert(spec_cell_state(chunk, c) == spec_cell_after(
                        spec_cell_state(&pre, c),
                        resolved@[n as int],
                    ));
                } else {
                    if tgt < 4096 {
                        assert(spec_cell_state(chunk, c) == spec_cell_state(&pre, c));
                    } else {
                        assert(*chunk == pre);
                    }
                }
            }
            assert(entry.changes@.is_prefix_of(chunk.changes@)) by {
                assert(entry.changes@ =~= chunk.changes@.subrange(
                    0,
                    entry.changes@.len() as int,
                ));
            }
            assert(entry.dirty_blocks@.is_prefix_of(chunk.dirty_blocks@)) by {
                assert(entry.dirty_blocks@ =~= chunk.dirty_blocks@.subrange(
                    0,
                    entry.dirty_blocks@.len() as int,
                ));
            }
        }
        n = n + 1;
    }
}


/// Folds agree on any shared prefix.
proof fn lemma_apply_cell_prefix(
    pre: CellState,
    s1: Seq<DomainCommand>,
    s2: Seq<DomainCommand>,
    c: usize,
    n: int,
)
    requires
        n <= s1.len(),
        n <= s2.len(),
        forall|j: int| 0 <= j < n ==> s1[j] == s2[j],
    ensures
        spec_apply_cell(pre, s1, c, n) == spec_apply_cell(pre, s2, c, n),
    decreases n,
{
    if n > 0 {
        lemma_apply_cell_prefix(pre, s1, s2, c, n - 1);
    }
}

/// Appending one command steps the fold exactly when it targets the cell.
proof fn lemma_apply_cell_push(pre: CellState, s: Seq<DomainCommand>, c: usize, x: DomainCommand)
    ensures
        spec_apply_cell(pre, s.push(x), c, s.len() as int + 1) == (if spec_cmd_idx(x) == c {
            spec_cell_after(spec_apply_cell(pre, s, c, s.len() as int), x)
        } else {
            spec_apply_cell(pre, s, c, s.len() as int)
        }),
{
    lemma_apply_cell_prefix(pre, s.push(x), s, c, s.len() as int);
}

/// The commit-level conflict law in full: when a cell's first set-block
/// stands at position `j` of a tick's command list, then after conflict
/// resolution the in-order fold over the survivors gives the cell exactly
/// that set-block's effect — every other command on the cell leaves no
/// observable trace.
pub proof fn lemma_set_block_commit_effect(cmds: Seq<DomainCommand>, j: int, pre: CellState)
    requires
        0 <= j < cmds.len(),
        spec_is_set_block(cmds[j]),
        forall|i: int|
            0 <= i < j && spec_cmd_idx(#[trigger] cmds[i]) == spec_cmd_idx(cmds[j])
                ==> !spec_is_set_block(cmds[i]),
    ensures
        ({
            let resolved = spec_resolve(cmds, cmds.len() as int);
            spec_apply_cell(pre, resolved, spec_cmd_idx(cmds[j]), resolved.len() as int)
                == spec_cell_after(pre, cmds[j])
        }),
{
    lemma_set_block_commit_effect_upto(cmds, j, pre, cmds.len() as int);
}

/// Helper induction for [`lemma_set_block_commit_effect`]: the fold over
/// the survivors among the first `n` commands is the set-block's effect
/// once position `j` is included, and the prior state before.
proof fn lemma_set_block_commit_effect_upto(
    cmds: Seq<DomainCommand>,
    j: int,
    pre: CellState,
    n: int,
)
    requires
        0 <= j < cmds.len(),
        spec_is_set_block(cmds[j]),
        forall|i: int|
            0 <= i < j && spec_cmd_idx(#[trigger] cmds[i]) == spec_cmd_idx(cmds[j])
                ==> !spec_is_set_block(cmds[i]),
        0 <= n <= cmds.len(),
    ensures
        ({
            let resolved = spec_resolve(cmds, n);
            spec_apply_cell(pre, resolved, spec_cmd_idx(cmds[j]), resolved.len() as int) == (if j
                < n {
                spec_cell_after(pre, cmds[j])
            } else {
                pre
            })
        }),
    decreases n,
{
    let c = spec_cmd_idx(cmds[j]);
    if n > 0 {
        lemma_set_block_commit_effect_upto(cmds, j, pre, n - 1);
        let prev = spec_resolve(cmds, n - 1);
        if spec_keep(cmds, n - 1) {
            lemma_apply_cell_push(pre, prev, c, cmds[n - 1]);
            if spec_cmd_idx(cmds[n - 1]) == c {
                assert(spec_cell_has_set_block(cmds, c)) by {
                    assert(spec_cmd_idx(cmds[j]) == c && spec_is_set_block(cmds[j]));
                }
                // only the first set-block of this cell survives, so the
                // kept command at n - 1 must be position j itself
                if n - 1 != j {
                    assert(spec_is_set_block(cmds[n - 1]));
                    if n - 1 < j {
                        assert(!spec_is_set_block(cmds[n - 1]));
                        assert(false);
                    } else {
                        assert(spec_cmd_idx(cmds[j]) == c && spec_is_set_block(cmds[j]));
                        assert(!spec_keep(cmds, n - 1));
                        assert(false);
                    }
                }
                assert(spec_apply_cell(pre, prev, c, prev.len() as int) == pre);
            }
        } else {
            if n - 1 == j {
                assert(spec_keep(cmds, j));
                assert(false);
            }
        }
    }
}

} // verus!
