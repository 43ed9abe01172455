//! Maintenance plan assembly: turning one batch of maintenance work — either
//! reclustering tasks or a fallback compaction — into a physical plan.

use vstd::prelude::*;

use crate::plan::BlockMeta;
use crate::plan::CompactPart;
use crate::plan::FragmentKind;
use crate::plan::PhysicalPlan;
use crate::plan::ReclusterTask;
use crate::plan::Statistics;
use crate::plan::TableInfo;
use crate::plan::TableSnapshot;

verus! {

/// One maintenance batch's work: exactly one variant is active, and the
/// assembler's behaviour is fully determined by which one.
#[derive(Debug)]
pub enum ReclusterTasks {
    Recluster {
        tasks: Vec<ReclusterTask>,
        remained_blocks: Vec<BlockMeta>,
        removed_segment_indexes: Vec<u64>,
        removed_segment_summary: Statistics,
    },
    Compact(Vec<CompactPart>),
}

impl ReclusterTasks {
    /// A batch with no work units.
    pub open spec fn spec_is_empty(self) -> bool {
        match self {
            ReclusterTasks::Recluster { tasks, .. } => tasks@.len() == 0,
            ReclusterTasks::Compact(parts) => parts@.len() == 0,
        }
    }

    /// Runtime test matching `spec_is_empty`.
    pub fn is_empty(&self) -> (r: bool)
        ensures
            r == self.spec_is_empty(),
    {
        match self {
            ReclusterTasks::Recluster { tasks, .. } => tasks.len() == 0,
            ReclusterTasks::Compact(parts) => parts.len() == 0,
        }
    }
}

/// The reclustering source node of a maintenance plan: carries the task list
/// and the target table, under the given sequential identifier.
pub open spec fn is_recluster_source(
    p: PhysicalPlan,
    id: u32,
    tasks: Seq<ReclusterTask>,
    ti: TableInfo,
) -> bool {
    &&& p matches PhysicalPlan::ReclusterSource { plan_id, tasks: t, table_info }
    &&& p->ReclusterSource_plan_id == id
    &&& p->ReclusterSource_tasks@ == tasks
    &&& p->ReclusterSource_table_info == ti
}

/// The compaction source node of a maintenance plan.
pub open spec fn is_compact_source(
    p: PhysicalPlan,
    id: u32,
    parts: Seq<CompactPart>,
    ti: TableInfo,
) -> bool {
    &&& p is CompactSource
    &&& p->CompactSource_plan_id == id
    &&& p->CompactSource_parts@ == parts
    &&& p->CompactSource_table_info == ti
}

/// The network-exchange node a distributed maintenance plan inserts between
/// source and sink: merge semantics, no partition keys, parallelism
/// adjustable.
pub open spec fn is_maintenance_exchange(p: PhysicalPlan, id: u32) -> bool {
    &&& p is Exchange
    &&& p->Exchange_plan_id == id
    &&& p->Exchange_kind == FragmentKind::Merge
    &&& p->Exchange_keys@ == Seq::<u64>::empty()
    &&& p->Exchange_allow_adjust_parallelism
    &&& !p->Exchange_ignore_exchange
}

/// The exact shape of an assembled reclustering plan: a recluster sink over
/// the source (with the exchange between them exactly when the work is
/// distributed), with sequential plan identifiers assigned from the root.
pub open spec fn is_recluster_plan(
    r: PhysicalPlan,
    tasks: Seq<ReclusterTask>,
    remained: Seq<BlockMeta>,
    removed_idx: Seq<u64>,
    summary: Statistics,
    ti: TableInfo,
    sn: TableSnapshot,
    is_distributed: bool,
) -> bool {
    &&& r is ReclusterSink
    &&& r->ReclusterSink_plan_id == 0
    &&& r->ReclusterSink_table_info == ti
    &&& r->ReclusterSink_snapshot == sn
    &&& r->ReclusterSink_remained_blocks@ == remained
    &&& r->ReclusterSink_removed_segment_indexes@ == removed_idx
    &&& r->ReclusterSink_removed_segment_summary == summary
    &&& if is_distributed {
        &&& is_maintenance_exchange(*r->ReclusterSink_input, 1)
        &&& is_recluster_source(*r->ReclusterSink_input->Exchange_input, 2, tasks, ti)
    } else {
        is_recluster_source(*r->ReclusterSink_input, 1, tasks, ti)
    }
}

/// The exact shape the shared compaction plan builder produces: a commit sink
/// over the compaction source, with the exchange inserted exactly when the
/// work is distributed.
pub open spec fn is_compact_plan(
    r: PhysicalPlan,
    parts: Seq<CompactPart>,
    ti: TableInfo,
    sn: TableSnapshot,
    is_distributed: bool,
) -> bool {
    &&& r is CommitSink
    &&& r->CommitSink_plan_id == 0
    &&& r->CommitSink_table_info == ti
    &&& r->CommitSink_snapshot == sn
    &&& if is_distributed {
        &&& is_maintenance_exchange(*r->CommitSink_input, 1)
        &&& is_compact_source(*r->CommitSink_input->Exchange_input, 2, parts, ti)
    } else {
        is_compact_source(*r->CommitSink_input, 1, parts, ti)
    }
}

/// What the assembled plan looks like for each variant of the work
/// description: a `Compact` batch is assembled exactly as the shared
/// compaction plan builder assembles it — delegation, not duplication.
pub open spec fn assembled_plan_ok(
    r: PhysicalPlan,
    tasks: ReclusterTasks,
    ti: TableInfo,
    sn: TableSnapshot,
    is_distributed: bool,
) -> bool {
    match tasks {
        ReclusterTasks::Recluster {
            tasks,
            remained_blocks,
            removed_segment_indexes,
            removed_segment_summary,
        } => is_recluster_plan(
            r,
            tasks@,
            remained_blocks@,
            removed_segment_indexes@,
            removed_segment_summary,
            ti,
            sn,
            is_distributed,
        ),
        ReclusterTasks::Compact(parts) => is_compact_plan(r, parts@, ti, sn, is_distributed),
    }
}

/// The shared compaction plan builder: compaction and reclustering share the
/// same sink semantics, so the recluster assembler delegates `Compact`
/// batches here.
pub fn build_compact_physical_plan(
    parts: Vec<CompactPart>,
    table_info: TableInfo,
    snapshot: TableSnapshot,
    is_distributed: bool,
) -> (r: PhysicalPlan)
    ensures
        is_compact_plan(r, parts@, table_info, snapshot, is_distributed),
{
    let source = PhysicalPlan::CompactSource {
        plan_id: if is_distributed {
            2
        } else {
            1
        },
        parts,
        table_info,
    };
    let input = if is_distributed {
        PhysicalPlan::Exchange {
            plan_id: 1,
            input: Box::new(source),
            kind: FragmentKind::Merge,
            keys: Vec::new(),
            allow_adjust_parallelism: true,
            ignore_exchange: false,
        }
    } else {
        source
    };
    proof {
        if is_distributed {
            assert(input->Exchange_keys@ =~= Seq::<u64>::empty());
        }
    }
    PhysicalPlan::CommitSink { plan_id: 0, input: Box::new(input), table_info, snapshot }
}

/// Assembles one maintenance batch into a physical plan: a `Recluster` batch
/// becomes a recluster source wrapped in a merge exchange only when the work
/// is distributed, then in a recluster sink carrying the table descriptor,
/// the snapshot, the unaffected blocks and the removed-segment summary, with
/// sequential plan identifiers assigned from the root; a `Compact` batch is
/// delegated entirely to the shared compaction plan builder.
pub fn build_recluster_physical_plan(
    tasks: ReclusterTasks,
    table_info: TableInfo,
    snapshot: TableSnapshot,
    is_distributed: bool,
) -> (r: PhysicalPlan)
    ensures
        assembled_plan_ok(r, tasks, table_info, snapshot, is_distributed),
{
    match tasks {
        ReclusterTasks::Recluster {
            tasks,
            remained_blocks,
            removed_segment_indexes,
            removed_segment_summary,
        } => {
            let source = PhysicalPlan::ReclusterSource {
                plan_id: if is_distributed {
                    2
                } else {
                    1
                },
                tasks,
                table_info,
            };
            let input = if is_distributed {
                PhysicalPlan::Exchange {
                    plan_id: 1,
                    input: Box::new(source),
                    kind: FragmentKind::Merge,
                    keys: Vec::new(),
                    allow_adjust_parallelism: true,
                    ignore_exchange: false,
                }
            } else {
                source
            };
            proof {
                if is_distributed {
                    assert(input->Exchange_keys@ =~= Seq::<u64>::empty());
                }
            }
            PhysicalPlan::ReclusterSink {
                plan_id: 0,
                input: Box::new(input),
                table_info,
                snapshot,
                remained_blocks,
                removed_segment_indexes,
                removed_segment_summary,
            }
        },
        ReclusterTasks::Compact(parts) => build_compact_physical_plan(
            parts,
            table_info,
            snapshot,
            is_distributed,
        ),
    }
}

/// Law (delegation): on a `Compact` batch, assembly guarantees exactly what
/// the shared compaction plan builder guarantees on the same table, snapshot
/// and distribution arguments.
pub proof fn lemma_compact_delegation(
    r: PhysicalPlan,
    parts: Vec<CompactPart>,
    ti: TableInfo,
    sn: TableSnapshot,
    is_distributed: bool,
)
    ensures
        assembled_plan_ok(r, ReclusterTasks::Compact(parts), ti, sn, is_distributed)
            <==> is_compact_plan(r, parts@, ti, sn, is_distributed),
{
}

/// Law (exchange placement): an assembled reclustering plan contains no
/// exchange node when the work is not distributed, and exactly one — between
/// the source and the sink — when it is.
pub proof fn lemma_recluster_plan_exchange(
    r: PhysicalPlan,
    tasks: Seq<ReclusterTask>,
    remained: Seq<BlockMeta>,
    removed_idx: Seq<u64>,
    summary: Statistics,
    ti: TableInfo,
    sn: TableSnapshot,
    is_distributed: bool,
)
    requires
        is_recluster_plan(r, tasks, remained, removed_idx, summary, ti, sn, is_distributed),
    ensures
        r.exchange_count() == if is_distributed {
            1int
        } else {
            0int
        },
        is_distributed ==> *r->ReclusterSink_input is Exchange
            && *r->ReclusterSink_input->Exchange_input is ReclusterSource,
        !is_distributed ==> *r->ReclusterSink_input is ReclusterSource,
{
    reveal_with_fuel(PhysicalPlan::exchange_count, 4);
}

} // verus!
