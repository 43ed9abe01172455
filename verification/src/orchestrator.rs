//! The maintenance orchestration loop.
//!
//! Each iteration checks the cooperative cancellation signal, acquires the
//! table's maintenance lock, asks the storage layer for one bounded batch of
//! reclustering work, assembles and compiles it, executes the pipelines, and
//! releases the executor and the lock before the next iteration begins. A
//! fixed set of conflict errors is retried only in run-to-exhaustion mode;
//! everything else aborts the loop. Termination: single-batch mode stops
//! after one iteration, run-to-exhaustion mode stops when a batch reports no
//! work or the wall clock reaches the timeout (a clean stop, not an error).
//!
//! The waiting itself — lock acquisition, batch proposal, execution — is the
//! host's I/O; the decisions are here, as verified functions from state and
//! iteration outcome to the next step, together with the batch planner that
//! turns a proposed batch into complete, runnable pipelines.

use vstd::prelude::*;

use crate::builder::PipelineBuilder;
use crate::builder::build_node;
use crate::builder::default_exchange_injector;
use crate::error::ErrorKind;
use crate::pipeline::Pipeline;
use crate::pipeline::Stage;
use crate::pipeline::complete_stages;
use crate::plan::PhysicalPlan;
use crate::plan::TableInfo;
use crate::plan::TableSnapshot;
use crate::recluster::ReclusterTasks;
use crate::recluster::build_recluster_physical_plan;

verus! {

/// A push-down predicate, by its identifier.
#[derive(Clone, Copy, Debug, PartialEq, Eq, Structural)]
pub enum FilterExpr {
    Pred { pred_id: u64 },
    /// The negation of the predicate, built for the inverse filter.
    NotPred { pred_id: u64 },
}

/// The filter pair handed to the storage layer: the predicate and its
/// negation.
#[derive(Clone, Copy, Debug, PartialEq, Eq, Structural)]
pub struct Filters {
    pub filter: FilterExpr,
    pub inverted_filter: FilterExpr,
}

/// Push-down information for the batch proposer.
#[derive(Clone, Copy, Debug, PartialEq, Eq, Structural)]
pub struct PushDownInfo {
    pub filters: Option<Filters>,
}

/// The reclustering request: target table, mode, and optional bounds.
#[derive(Debug)]
pub struct ReclusterTablePlan {
    pub catalog: String,
    pub database: String,
    pub table: String,
    /// Run-to-exhaustion mode when true; single-batch mode when false.
    pub is_final: bool,
    /// Caller-supplied bound on the size of one proposed batch.
    pub limit: Option<usize>,
    /// Optional push-down predicate, by identifier.
    pub push_downs: Option<u64>,
}

/// The interpreter of a reclustering request.
pub struct ReclusterTableInterpreter {
    pub plan: ReclusterTablePlan,
}

impl ReclusterTableInterpreter {
    /// Wraps a reclustering request for execution.
    pub fn try_create(plan: ReclusterTablePlan) -> (r: Result<ReclusterTableInterpreter, ErrorKind>)
        ensures
            r matches Ok(it) && it.plan == plan,
    {
        Ok(ReclusterTableInterpreter { plan })
    }

    /// The interpreter's display name.
    pub fn name(&self) -> (r: &'static str)
        ensures
            r@ == "ReclusterTableInterpreter"@,
    {
        "ReclusterTableInterpreter"
    }

    /// Reclustering is a DDL-class operation.
    pub fn is_ddl(&self) -> (r: bool)
        ensures
            r,
    {
        true
    }

    /// Builds the push-down information from the request's predicate: the
    /// filter and its negation as the inverse filter.
    pub fn build_push_downs(&self) -> (r: Option<PushDownInfo>)
        ensures
            r is Some <==> self.plan.push_downs is Some,
            self.plan.push_downs matches Some(p) ==> r == Some(
                (PushDownInfo {
                    filters: Some(
                        Filters {
                            filter: FilterExpr::Pred { pred_id: p },
                            inverted_filter: FilterExpr::NotPred { pred_id: p },
                        },
                    ),
                }),
            ),
    {
        match self.plan.push_downs {
            Some(p) => Some(
                PushDownInfo {
                    filters: Some(
                        Filters {
                            filter: FilterExpr::Pred { pred_id: p },
                            inverted_filter: FilterExpr::NotPred { pred_id: p },
                        },
                    ),
                },
            ),
            None => None,
        }
    }
}

/// One proposed batch of reclustering work, as the storage layer hands it
/// back: the work description, the snapshot it was planned against, whether
/// it spans several execution nodes, and how many data blocks it touches.
#[derive(Debug)]
pub struct ReclusterMutator {
    pub tasks: ReclusterTasks,
    pub snapshot: TableSnapshot,
    pub is_distributed: bool,
    pub recluster_blocks_count: u64,
}

/// What one iteration decided: the batch is done (no work was proposed), or
/// these complete pipelines are to be executed.
#[derive(Debug)]
pub enum BatchDecision {
    Finished,
    Execute { pipelines: Vec<Pipeline>, block_count: u64 },
}

/// The stage chain of a compiled maintenance batch: the source feeding the
/// sink, under sequential identifiers from the root.
pub open spec fn local_batch_stages() -> Seq<Stage> {
    seq![
        Stage { in_ports: 0, out_ports: 1, op: 1 },
        Stage { in_ports: 1, out_ports: 0, op: 0 },
    ]
}

/// Lowers an assembled maintenance plan for execution on this node: the
/// network-exchange boundary under the sink, if any, becomes an
/// exchange-receive source (the peers' side of the boundary is the
/// distributed scheduler's concern); a single-node plan passes through
/// unchanged.
pub fn lower_for_local_execution(plan: PhysicalPlan) -> (r: PhysicalPlan)
    ensures
        (plan is ReclusterSink && *plan->ReclusterSink_input is Exchange) ==> {
            &&& r is ReclusterSink
            &&& r->ReclusterSink_plan_id == plan->ReclusterSink_plan_id
            &&& r->ReclusterSink_table_info == plan->ReclusterSink_table_info
            &&& r->ReclusterSink_snapshot == plan->ReclusterSink_snapshot
            &&& r->ReclusterSink_remained_blocks == plan->ReclusterSink_remained_blocks
            &&& r->ReclusterSink_removed_segment_indexes
                == plan->ReclusterSink_removed_segment_indexes
            &&& r->ReclusterSink_removed_segment_summary
                == plan->ReclusterSink_removed_segment_summary
            &&& *r->ReclusterSink_input == (PhysicalPlan::ExchangeSource {
                plan_id: plan->ReclusterSink_input->Exchange_plan_id,
            })
        },
        (plan is CommitSink && *plan->CommitSink_input is Exchange) ==> {
            &&& r is CommitSink
            &&& r->CommitSink_plan_id == plan->CommitSink_plan_id
            &&& r->CommitSink_table_info == plan->CommitSink_table_info
            &&& r->CommitSink_snapshot == plan->CommitSink_snapshot
            &&& *r->CommitSink_input == (PhysicalPlan::ExchangeSource {
                plan_id: plan->CommitSink_input->Exchange_plan_id,
            })
        },
        (!(plan is ReclusterSink && *plan->ReclusterSink_input is Exchange) && !(plan is CommitSink
            && *plan->CommitSink_input is Exchange)) ==> r == plan,
{
    match plan {
        PhysicalPlan::ReclusterSink {
            plan_id,
            input,
            table_info,
            snapshot,
            remained_blocks,
            removed_segment_indexes,
            removed_segment_summary,
        } => {
            if let PhysicalPlan::Exchange { plan_id: xid, .. } = *input {
                PhysicalPlan::ReclusterSink {
                    plan_id,
                    input: Box::new(PhysicalPlan::ExchangeSource { plan_id: xid }),
                    table_info,
                    snapshot,
                    remained_blocks,
                    removed_segment_indexes,
                    removed_segment_summary,
                }
            } else {
                PhysicalPlan::ReclusterSink {
                    plan_id,
                    input,
                    table_info,
                    snapshot,
                    remained_blocks,
                    removed_segment_indexes,
                    removed_segment_summary,
                }
            }
        },
        PhysicalPlan::CommitSink { plan_id, input, table_info, snapshot } => {
            if let PhysicalPlan::Exchange { plan_id: xid, .. } = *input {
                PhysicalPlan::CommitSink {
                    plan_id,
                    input: Box::new(PhysicalPlan::ExchangeSource { plan_id: xid }),
                    table_info,
                    snapshot,
                }
            } else {
                PhysicalPlan::CommitSink { plan_id, input, table_info, snapshot }
            }
        },
        other => other,
    }
}

/// Plans one maintenance batch: with no proposal or an empty task list the
/// loop is done; otherwise the batch is assembled into a physical plan,
/// lowered for this node, and compiled into pipelines that provably satisfy
/// the completeness invariant — the sources first, the main pipeline last,
/// ready for the execution runtime.
pub fn plan_recluster_batch(mutator: Option<ReclusterMutator>, table_info: TableInfo) -> (r:
    Result<BatchDecision, ErrorKind>)
    ensures
        mutator is None ==> (r is Ok && r->Ok_0 is Finished),
        mutator matches Some(m) ==> {
            &&& m.tasks.spec_is_empty() ==> (r is Ok && r->Ok_0 is Finished)
            &&& !m.tasks.spec_is_empty() ==> {
                &&& r is Ok
                &&& r->Ok_0 is Execute
                &&& r->Ok_0->Execute_block_count == m.recluster_blocks_count
                &&& r->Ok_0->Execute_pipelines@.len() == 1
                &&& r->Ok_0->Execute_pipelines@[0]@.stages =~= local_batch_stages()
                &&& forall|k: int|
                    0 <= k < r->Ok_0->Execute_pipelines@.len() ==> complete_stages(
                        #[trigger] r->Ok_0->Execute_pipelines@[k]@.stages,
                    )
            }
        },
{
    let m = match mutator {
        None => {
            return Ok(BatchDecision::Finished);
        },
        Some(m) => m,
    };
    if m.tasks.is_empty() {
        return Ok(BatchDecision::Finished);
    }
    let is_distributed = m.is_distributed;
    let block_count = m.recluster_blocks_count;
    let physical_plan = build_recluster_physical_plan(
        m.tasks,
        table_info,
        m.snapshot,
        is_distributed,
    );
    let local_plan = lower_for_local_execution(physical_plan);
    let builder = PipelineBuilder::create(Vec::new());
    let ghost st0 = builder@;
    let ghost inj = builder.exchange_injector;
    proof {
        lemma_local_maintenance_plan_builds(local_plan, st0, inj);
    }
    let build_res = match builder.finalize(&local_plan) {
        Err(e) => {
            // unreachable: a lowered maintenance plan always compiles
            proof {
                assert(false);
            }
            return Err(e);
        },
        Ok(res) => res,
    };
    // the completeness invariant holds of the main pipeline: the plan's root
    // is a sink
    let mut pipelines = build_res.sources_pipelines;
    pipelines.push(build_res.main_pipeline);
    proof {
        assert(pipelines@.len() == 1);
        assert(pipelines@[0] == build_res.main_pipeline);
    }
    Ok(BatchDecision::Execute { pipelines, block_count })
}

/// A lowered maintenance plan — a recluster or commit sink directly over a
/// maintenance source or an exchange-receive — always compiles, into one
/// two-stage main pipeline and no source pipelines.
proof fn lemma_local_maintenance_plan_builds(
    plan: PhysicalPlan,
    st: crate::builder::BuildState,
    inj: crate::builder::ExchangeInjector,
)
    requires
        st.main.stages.len() == 0,
        st.main.scopes.len() == 0,
        st.sources.len() == 0,
        st.ctes.len() == 0,
        st.joins.len() == 0,
        inj == default_exchange_injector(),
        plan is ReclusterSink || plan is CommitSink,
        plan is ReclusterSink ==> (*plan->ReclusterSink_input is ReclusterSource
            || *plan->ReclusterSink_input is ExchangeSource),
        plan is CommitSink ==> (*plan->CommitSink_input is CompactSource
            || *plan->CommitSink_input is ExchangeSource),
        plan.node_id() == 0,
        plan is ReclusterSink ==> (*plan->ReclusterSink_input).node_id() == 1,
        plan is CommitSink ==> (*plan->CommitSink_input).node_id() == 1,
    ensures
        build_node(plan, st, inj) matches Ok(st2) && {
            &&& st2.main.stages =~= local_batch_stages()
            &&& st2.sources.len() == 0
        },
{
    let child = if plan is ReclusterSink {
        *plan->ReclusterSink_input
    } else {
        *plan->CommitSink_input
    };
    let st1 = crate::builder::with_enter(st, 0);
    let st1c = crate::builder::with_enter(st1, 1);
    assert(build_node(child, st1, inj) matches Ok(stc) && stc.main.stages =~= seq![
        Stage { in_ports: 0, out_ports: 1, op: 1 },
    ] && stc.sources.len() == 0 && stc.main.stages.last().out_ports == 1) by {
        assert(crate::builder::source_step(
            st1c,
            Stage { in_ports: 0, out_ports: 1, op: 1 },
        ) matches Ok(s) && s.main.stages =~= seq![Stage { in_ports: 0, out_ports: 1, op: 1 }]);
    }
    let stc = build_node(child, st1, inj)->Ok_0;
    assert(crate::builder::transform_step(stc, 0, true) matches Ok(s2) && s2.main.stages =~= seq![
        Stage { in_ports: 0, out_ports: 1, op: 1 },
        Stage { in_ports: 1, out_ports: 0, op: 0 },
    ]);
    assert(crate::builder::unary_node(child, st1, inj, 0, true) matches Ok(s2)
        && s2.main.stages =~= local_batch_stages() && s2.sources.len() == 0);
}

/// The outcome the environment reports for one executed iteration.
#[derive(Clone, Copy, Debug, PartialEq, Eq, Structural)]
pub enum BatchOutcome {
    /// The storage layer proposed no further work.
    NoMoreWork,
    /// A batch was executed; this many data blocks were affected.
    Applied { blocks: u64 },
}

/// Everything one loop iteration observed: whether the cancellation signal
/// was set when the iteration began, how the batch went, and the wall-clock
/// time elapsed since the loop started, measured after the iteration.
#[derive(Clone, Copy, Debug)]
pub struct IterationRecord {
    pub aborted: bool,
    pub outcome: Result<BatchOutcome, ErrorKind>,
    pub elapsed_ms: u64,
}

/// What the loop does after an iteration.
#[derive(Clone, Copy, Debug, PartialEq, Eq, Structural)]
pub enum LoopDecision {
    Continue,
    Stop,
    Fail { error: ErrorKind },
}

/// How the loop exited: how many batches ran to completion, the accumulated
/// affected-block total, how many iterations were entered, whether a
/// maintenance history record is written, and the loop's result.
#[derive(Clone, Copy, Debug, PartialEq)]
pub struct LoopOutcome {
    pub times: u64,
    pub block_count: u64,
    pub iterations_run: usize,
    pub history_written: bool,
    pub result: Result<(), ErrorKind>,
}

/// The termination test after a completed iteration: single-batch mode stops
/// at once; run-to-exhaustion mode stops when the wall clock has reached the
/// timeout — a clean stop, not an error.
pub open spec fn after_work(is_final: bool, elapsed_ms: u64, timeout_ms: u64) -> LoopDecision {
    if !is_final {
        LoopDecision::Stop
    } else if elapsed_ms >= timeout_ms {
        LoopDecision::Stop
    } else {
        LoopDecision::Continue
    }
}

/// Failure classification and termination for one iteration's outcome: a
/// batch reporting no work stops the loop; a conflict-style error is retried
/// only in run-to-exhaustion mode; any other error — or a conflict in
/// single-batch mode — is fatal and surfaced unchanged.
pub open spec fn classify_spec(
    outcome: Result<BatchOutcome, ErrorKind>,
    is_final: bool,
    elapsed_ms: u64,
    timeout_ms: u64,
) -> LoopDecision {
    match outcome {
        Ok(BatchOutcome::NoMoreWork) => LoopDecision::Stop,
        Ok(BatchOutcome::Applied { .. }) => after_work(is_final, elapsed_ms, timeout_ms),
        Err(e) => if is_final && e.is_conflict() {
            after_work(is_final, elapsed_ms, timeout_ms)
        } else {
            LoopDecision::Fail { error: e }
        },
    }
}

/// Whether the iteration counts as a completed pass (it reached the status
/// update after the batch): an applied batch, or a retried conflict.
pub open spec fn counts_as_pass(
    outcome: Result<BatchOutcome, ErrorKind>,
    is_final: bool,
) -> bool {
    match outcome {
        Ok(BatchOutcome::NoMoreWork) => false,
        Ok(BatchOutcome::Applied { .. }) => true,
        Err(e) => is_final && e.is_conflict(),
    }
}

/// Blocks the iteration adds to the running total.
pub open spec fn blocks_of(outcome: Result<BatchOutcome, ErrorKind>) -> int {
    match outcome {
        Ok(BatchOutcome::Applied { blocks }) => blocks as int,
        _ => 0,
    }
}

/// Runtime classification matching `classify_spec`.
pub fn classify_iteration(
    outcome: &Result<BatchOutcome, ErrorKind>,
    is_final: bool,
    elapsed_ms: u64,
    timeout_ms: u64,
) -> (d: LoopDecision)
    ensures
        d == classify_spec(*outcome, is_final, elapsed_ms, timeout_ms),
{
    match outcome {
        Ok(BatchOutcome::NoMoreWork) => LoopDecision::Stop,
        Ok(BatchOutcome::Applied { .. }) => {
            if !is_final {
                LoopDecision::Stop
            } else if elapsed_ms >= timeout_ms {
                LoopDecision::Stop
            } else {
                LoopDecision::Continue
            }
        },
        Err(e) => {
            if is_final && e.conflict() {
                if elapsed_ms >= timeout_ms {
                    LoopDecision::Stop
                } else {
                    LoopDecision::Continue
                }
            } else {
                LoopDecision::Fail { error: *e }
            }
        },
    }
}

/// Sum of the affected-block counts over all recorded iterations.
pub open spec fn total_blocks(events: Seq<IterationRecord>, i: int) -> int
    decreases i,
{
    if i <= 0 {
        0
    } else {
        total_blocks(events, i - 1) + blocks_of(events[i - 1].outcome)
    }
}

/// The loop's behaviour over the remaining iterations, from accumulated
/// state: the cancellation check comes first and is terminal; otherwise the
/// batch total grows, the pass counter advances on completed passes, and the
/// classification decides between another iteration, a clean stop (with a
/// history record exactly when blocks were affected), and a fatal error
/// (which skips the history record, as the loop returns at once).
pub open spec fn loop_from(
    events: Seq<IterationRecord>,
    i: int,
    is_final: bool,
    timeout_ms: u64,
    times: u64,
    blocks: u64,
) -> LoopOutcome
    decreases events.len() - i,
{
    if i < 0 || i >= events.len() {
        LoopOutcome {
            times,
            block_count: blocks,
            iterations_run: events.len() as usize,
            history_written: blocks != 0,
            result: Ok(()),
        }
    } else {
        let ev = events[i];
        if ev.aborted {
            LoopOutcome {
                times,
                block_count: blocks,
                iterations_run: (i + 1) as usize,
                history_written: false,
                result: Err(ErrorKind::AbortedQuery),
            }
        } else {
            let blocks2 = (blocks + blocks_of(ev.outcome)) as u64;
            let times2 = if counts_as_pass(ev.outcome, is_final) {
                (times + 1) as u64
            } else {
                times
            };
            match classify_spec(ev.outcome, is_final, ev.elapsed_ms, timeout_ms) {
                LoopDecision::Fail { error } => LoopOutcome {
                    times,
                    block_count: blocks,
                    iterations_run: (i + 1) as usize,
                    history_written: false,
                    result: Err(error),
                },
                LoopDecision::Stop => LoopOutcome {
                    times: times2,
                    block_count: blocks2,
                    iterations_run: (i + 1) as usize,
                    history_written: blocks2 != 0,
                    result: Ok(()),
                },
                LoopDecision::Continue => loop_from(
                    events,
                    i + 1,
                    is_final,
                    timeout_ms,
                    times2,
                    blocks2,
                ),
            }
        }
    }
}

/// What the whole loop does over a recorded run.
pub open spec fn loop_model(
    events: Seq<IterationRecord>,
    is_final: bool,
    timeout_ms: u64,
) -> LoopOutcome {
    loop_from(events, 0, is_final, timeout_ms, 0, 0)
}

proof fn lemma_total_blocks_bounds(events: Seq<IterationRecord>, i1: int, i2: int)
    requires
        0 <= i1 <= i2 <= events.len(),
    ensures
        total_blocks(events, i1) <= total_blocks(events, i2),
        total_blocks(events, i1) >= 0,
    decreases i2,
{
    if i1 < i2 {
        lemma_total_blocks_bounds(events, i1, i2 - 1);
    } else if i1 > 0 {
        lemma_total_blocks_bounds(events, i1 - 1, i1 - 1);
    }
}

/// Drives the orchestration loop over the outcomes the environment recorded,
/// one iteration at a time, and reports how the loop exited. The caller
/// performs the iterations' real work — lock, batch, execution — and this
/// function holds the loop's policy: abort on cancellation, retry only
/// conflicts and only in run-to-exhaustion mode, stop on exhausted work or
/// timeout, and write a history record exactly when a clean exit accumulated
/// a non-zero block total.
pub fn drive_recluster_loop(events: &Vec<IterationRecord>, is_final: bool, timeout_ms: u64) -> (r:
    LoopOutcome)
    requires
        total_blocks(events@, events@.len() as int) <= u64::MAX,
    ensures
        r == loop_model(events@, is_final, timeout_ms),
{
    let mut times: u64 = 0;
    let mut blocks: u64 = 0;
    let mut i: usize = 0;
    while i < events.len()
        invariant
            i <= events@.len(),
            total_blocks(events@, events@.len() as int) <= u64::MAX,
            blocks as int == total_blocks(events@, i as int),
            times <= i,
            loop_model(events@, is_final, timeout_ms) == loop_from(
                events@,
                i as int,
                is_final,
                timeout_ms,
                times,
                blocks,
            ),
        decreases events@.len() - i,
    {
        let ev = events[i];
        if ev.aborted {
            return LoopOutcome {
                times,
                block_count: blocks,
                iterations_run: i + 1,
                history_written: false,
                result: Err(ErrorKind::AbortedQuery),
            };
        }
        proof {
            lemma_total_blocks_bounds(events@, i as int + 1, events@.len() as int);
            lemma_total_blocks_bounds(events@, 0, i as int + 1);
        }
        let blocks2 = match ev.outcome {
            Ok(BatchOutcome::Applied { blocks: b }) => blocks + b,
            _ => blocks,
        };
        let times2 = match ev.outcome {
            Ok(BatchOutcome::NoMoreWork) => times,
            Ok(BatchOutcome::Applied { .. }) => times + 1,
            Err(e) => if is_final && e.conflict() {
                times + 1
            } else {
                times
            },
        };
        match classify_iteration(&ev.outcome, is_final, ev.elapsed_ms, timeout_ms) {
            LoopDecision::Fail { error } => {
                return LoopOutcome {
                    times,
                    block_count: blocks,
                    iterations_run: i + 1,
                    history_written: false,
                    result: Err(error),
                };
            },
            LoopDecision::Stop => {
                return LoopOutcome {
                    times: times2,
                    block_count: blocks2,
                    iterations_run: i + 1,
                    history_written: blocks2 != 0,
                    result: Ok(()),
                };
            },
            LoopDecision::Continue => {
                times = times2;
                blocks = blocks2;
                i = i + 1;
            },
        }
    }
    LoopOutcome {
        times,
        block_count: blocks,
        iterations_run: events.len(),
        history_written: blocks != 0,
        result: Ok(()),
    }
}

/// One lock-lifecycle event on the table's maintenance lock.
#[derive(Clone, Copy, Debug, PartialEq, Eq, Structural)]
pub enum LockEvent {
    Acquire,
    Release,
}

/// How many lock guards are live after the first `i` events.
pub open spec fn live_guards(t: Seq<LockEvent>, i: int) -> int
    decreases i,
{
    if i <= 0 {
        0
    } else {
        live_guards(t, i - 1) + match t[i - 1] {
            LockEvent::Acquire => 1int,
            LockEvent::Release => -1int,
        }
    }
}

/// The lock activity of one well-formed iteration: at most one guard is ever
/// live inside it, and it releases everything it acquired before it ends.
pub open spec fn lock_unit(t: Seq<LockEvent>) -> bool {
    &&& forall|i: int| 0 <= i <= t.len() ==> 0 <= #[trigger] live_guards(t, i) <= 1
    &&& live_guards(t, t.len() as int) == 0
}

/// The lock trace of one iteration: an aborted iteration returns before the
/// lock is touched; any other iteration acquires the lock, does its work, and
/// releases the guard before the iteration ends — on every path, success or
/// failure.
pub open spec fn iteration_lock_trace(rec: IterationRecord) -> Seq<LockEvent> {
    if rec.aborted {
        Seq::empty()
    } else {
        seq![LockEvent::Acquire, LockEvent::Release]
    }
}

/// The concatenated lock trace of a sequence of iterations.
pub open spec fn loop_lock_trace(events: Seq<IterationRecord>) -> Seq<LockEvent>
    decreases events.len(),
{
    if events.len() == 0 {
        Seq::empty()
    } else {
        iteration_lock_trace(events.first()) + loop_lock_trace(events.drop_first())
    }
}

proof fn lemma_live_guards_concat(a: Seq<LockEvent>, b: Seq<LockEvent>, i: int)
    requires
        0 <= i <= a.len() + b.len(),
    ensures
        i <= a.len() ==> live_guards(a + b, i) == live_guards(a, i),
        i > a.len() ==> live_guards(a + b, i) == live_guards(a, a.len() as int) + live_guards(
            b,
            i - a.len(),
        ),
    decreases i,
{
    if i > 0 {
        lemma_live_guards_concat(a, b, i - 1);
        if i <= a.len() {
            assert((a + b)[i - 1] == a[i - 1]);
            assert(live_guards(a, i) == live_guards(a, i - 1) + match a[i - 1] {
                LockEvent::Acquire => 1int,
                LockEvent::Release => -1int,
            });
        } else {
            assert((a + b)[i - 1] == b[i - 1 - a.len()]);
            assert(live_guards(b, i - a.len()) == live_guards(b, i - a.len() - 1) + match b[i - 1
                - a.len()] {
                LockEvent::Acquire => 1int,
                LockEvent::Release => -1int,
            });
        }
    }
}

proof fn lemma_unit_concat(a: Seq<LockEvent>, b: Seq<LockEvent>)
    requires
        lock_unit(a),
        lock_unit(b),
    ensures
        lock_unit(a + b),
{
    assert((a + b).len() == a.len() + b.len());
    assert forall|i: int| 0 <= i <= (a + b).len() implies 0 <= #[trigger] live_guards(a + b, i)
        <= 1 by {
        lemma_live_guards_concat(a, b, i);
    }
    lemma_live_guards_concat(a, b, a.len() as int + b.len() as int);
}

proof fn lemma_iteration_unit(rec: IterationRecord)
    ensures
        lock_unit(iteration_lock_trace(rec)),
{
    let t = iteration_lock_trace(rec);
    reveal_with_fuel(live_guards, 4);
    if rec.aborted {
        assert forall|i: int| 0 <= i <= t.len() implies 0 <= #[trigger] live_guards(t, i)
            <= 1 by {
            reveal_with_fuel(live_guards, 4);
        }
    } else {
        assert(live_guards(t, 0) == 0);
        assert(live_guards(t, 1) == 1);
        assert(live_guards(t, 2) == 0);
        assert forall|i: int| 0 <= i <= t.len() implies 0 <= #[trigger] live_guards(t, i)
            <= 1 by {
            reveal_with_fuel(live_guards, 4);
        }
    }
}

/// Law (lock discipline): across any sequence of orchestration-loop
/// iterations — each acquiring the table's maintenance lock after the
/// cancellation check and releasing its guard before the iteration ends — at
/// no point are two lock guards for the table simultaneously live, and no
/// guard outlives the iterations.
pub proof fn lemma_lock_discipline(events: Seq<IterationRecord>)
    ensures
        forall|i: int|
            0 <= i <= loop_lock_trace(events).len() ==> 0 <= #[trigger] live_guards(
                loop_lock_trace(events),
                i,
            ) <= 1,
        live_guards(loop_lock_trace(events), loop_lock_trace(events).len() as int) == 0,
    decreases events.len(),
{
    if events.len() == 0 {
        assert forall|i: int|
            0 <= i <= loop_lock_trace(events).len() implies 0 <= #[trigger] live_guards(
            loop_lock_trace(events),
            i,
        ) <= 1 by {}
    } else {
        lemma_iteration_unit(events.first());
        lemma_lock_discipline(events.drop_first());
        lemma_unit_concat(iteration_lock_trace(events.first()), loop_lock_trace(events.drop_first()));
    }
}

} // verus!
