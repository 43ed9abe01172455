//! The plan-to-pipeline compiler.
//!
//! `PipelineBuilder` walks a physical plan depth-first, children first. Every
//! node kind has exactly one handler; handlers come in four shapes: sources
//! seed a new stage chain, single-input handlers append a stage atop their
//! compiled input, multi-input handlers compile the non-main inputs into
//! independent source pipelines bridged into the main chain by a merging
//! stage, and the materialized-CTE handler compiles its definition once,
//! registers the shared reader state under the CTE's identifier, and lets
//! every later scan of that identifier reuse it. A bare exchange node is a
//! structural error: it must have been lowered by the caller. Around every
//! visited node (except a fixed exemption list) a profiling scope is opened
//! and closed, so scope nesting mirrors plan nesting exactly.
//!
//! The compiler is specified against `build_node`, a functional model of the
//! whole pass, and `lemma_build_preserves_completeness` proves that a
//! successful compilation only ever produces complete source pipelines, and a
//! complete main pipeline exactly when the root is a sink.

use vstd::prelude::*;

use crate::error::ErrorKind;
use crate::pipeline::Pipeline;
use crate::pipeline::PipelineModel;
use crate::pipeline::ScopeEvent;
use crate::pipeline::Stage;
use crate::pipeline::chain_open;
use crate::pipeline::complete_stages;
use crate::pipeline::stages_linked;
use crate::plan::PhysicalPlan;

verus! {

/// The strategy deciding how a distributed-exchange boundary is materialized
/// into concrete receive stages; supplied to, not owned by, the compiler.
#[derive(Clone, Copy, Debug, PartialEq, Eq, Structural)]
pub struct ExchangeInjector {
    /// How many streams an exchange-receive stage produces.
    pub receive_width: usize,
}

/// The default exchange strategy: single-stream merge semantics.
pub open spec fn default_exchange_injector() -> ExchangeInjector {
    ExchangeInjector { receive_width: 1 }
}

impl Default for ExchangeInjector {
    fn default() -> (r: Self)
        ensures
            r == default_exchange_injector(),
    {
        ExchangeInjector { receive_width: 1 }
    }
}

/// The mathematical state of one compilation pass.
pub struct BuildState {
    /// The main pipeline under assembly.
    pub main: PipelineModel,
    /// Completed source pipelines feeding the main one.
    pub sources: Seq<PipelineModel>,
    /// Identifiers of materialized CTEs whose reader state is registered.
    pub ctes: Seq<u32>,
    /// Identifiers of hash joins whose build-side state is recorded.
    pub joins: Seq<u32>,
}

/// Node kinds exempt from profiling scopes: a no-op scalar evaluation and the
/// internal shuffle/reshape kinds used for chunked writes, for which a scope
/// would add noise without information.
pub open spec fn scope_exempt(plan: PhysicalPlan) -> bool {
    match plan {
        PhysicalPlan::EvalScalar { num_exprs, .. } => num_exprs == 0,
        PhysicalPlan::Shuffle { .. } => true,
        PhysicalPlan::ChunkCastSchema { .. } => true,
        PhysicalPlan::ChunkFillAndReorder { .. } => true,
        PhysicalPlan::ChunkMerge { .. } => true,
        _ => false,
    }
}

/// Whether compiling this node leaves the main chain closed (ending in a
/// stage with no outputs).
pub open spec fn closes_chain(plan: PhysicalPlan) -> bool
    decreases plan,
{
    match plan {
        PhysicalPlan::ExchangeSink { .. } => true,
        PhysicalPlan::ReclusterSink { .. } => true,
        PhysicalPlan::CommitSink { .. } => true,
        PhysicalPlan::MaterializedCte { body, .. } => closes_chain(*body),
        _ => false,
    }
}

pub open spec fn with_enter(st: BuildState, id: u32) -> BuildState {
    BuildState {
        main: PipelineModel {
            stages: st.main.stages,
            scopes: st.main.scopes.push(ScopeEvent::Enter { plan_id: id }),
        },
        sources: st.sources,
        ctes: st.ctes,
        joins: st.joins,
    }
}

pub open spec fn with_exit(st: BuildState) -> BuildState {
    BuildState {
        main: PipelineModel {
            stages: st.main.stages,
            scopes: st.main.scopes.push(ScopeEvent::Exit),
        },
        sources: st.sources,
        ctes: st.ctes,
        joins: st.joins,
    }
}

/// Seeding a new chain: only legal while the main chain is empty.
pub open spec fn source_step(st: BuildState, s: Stage) -> Result<BuildState, ErrorKind> {
    if st.main.stages.len() != 0 {
        Err(ErrorKind::Internal)
    } else {
        Ok(BuildState {
            main: PipelineModel { stages: st.main.stages.push(s), scopes: st.main.scopes },
            sources: st.sources,
            ctes: st.ctes,
            joins: st.joins,
        })
    }
}

/// Appending one stage atop the compiled input; `close` ends the chain.
pub open spec fn transform_step(st: BuildState, id: u32, close: bool) -> Result<
    BuildState,
    ErrorKind,
> {
    if !chain_open(st.main.stages) {
        Err(ErrorKind::Internal)
    } else {
        let w = st.main.stages.last().out_ports;
        Ok(BuildState {
            main: PipelineModel {
                stages: st.main.stages.push(
                    Stage { in_ports: w, out_ports: if close { 0 } else { w }, op: id },
                ),
                scopes: st.main.scopes,
            },
            sources: st.sources,
            ctes: st.ctes,
            joins: st.joins,
        })
    }
}

/// A compilation state for an independent branch: a fresh main chain over the
/// source pipelines and registrations accumulated so far.
pub open spec fn branch_of(st: BuildState) -> BuildState {
    BuildState {
        main: PipelineModel { stages: Seq::empty(), scopes: Seq::empty() },
        sources: st.sources,
        ctes: st.ctes,
        joins: st.joins,
    }
}

/// Caps an open branch chain with a bridge sink so it becomes a complete
/// source pipeline feeding the main chain.
pub open spec fn cap_chain(m: PipelineModel, id: u32) -> PipelineModel {
    PipelineModel {
        stages: m.stages.push(
            Stage { in_ports: m.stages.last().out_ports, out_ports: 0, op: id },
        ),
        scopes: m.scopes,
    }
}

/// Compiles `child` as an independent branch of `st`: its capped chain and
/// its own source pipelines join the source list; its registrations carry
/// over.
pub open spec fn branch_step(
    child: PhysicalPlan,
    st: BuildState,
    inj: ExchangeInjector,
    op: u32,
) -> Result<BuildState, ErrorKind>
    decreases child, 4int,
{
    match build_node(child, branch_of(st), inj) {
        Err(e) => Err(e),
        Ok(st2) => {
            if !chain_open(st2.main.stages) {
                Err(ErrorKind::Internal)
            } else {
                Ok(BuildState {
                    main: st.main,
                    sources: st2.sources.push(cap_chain(st2.main, op)),
                    ctes: st2.ctes,
                    joins: st2.joins,
                })
            }
        },
    }
}

/// The functional model of compiling one plan node: the profiling scope is
/// opened (unless the kind is exempt), the kind's handler runs, and the scope
/// is closed when the subtree's visit ends.
pub open spec fn build_node(
    plan: PhysicalPlan,
    st: BuildState,
    inj: ExchangeInjector,
) -> Result<BuildState, ErrorKind>
    decreases plan, 3int,
{
    if scope_exempt(plan) {
        build_node_inner(plan, st, inj)
    } else {
        match build_node_inner(plan, with_enter(st, plan.node_id()), inj) {
            Ok(st1) => Ok(with_exit(st1)),
            Err(e) => Err(e),
        }
    }
}

/// The per-kind handler dispatch of the model.
pub open spec fn build_node_inner(
    plan: PhysicalPlan,
    st: BuildState,
    inj: ExchangeInjector,
) -> Result<BuildState, ErrorKind>
    decreases plan, 2int,
{
    match plan {
        PhysicalPlan::TableScan { plan_id } => source_step(
            st,
            Stage { in_ports: 0, out_ports: 1, op: plan_id },
        ),
        PhysicalPlan::ConstantTableScan { plan_id } => source_step(
            st,
            Stage { in_ports: 0, out_ports: 1, op: plan_id },
        ),
        PhysicalPlan::CteScan { plan_id, cte_idx } => {
            if !st.ctes.contains(cte_idx) {
                Err(ErrorKind::Internal)
            } else {
                source_step(st, Stage { in_ports: 0, out_ports: 1, op: plan_id })
            }
        },
        PhysicalPlan::ExchangeSource { plan_id } => source_step(
            st,
            Stage { in_ports: 0, out_ports: inj.receive_width, op: plan_id },
        ),
        PhysicalPlan::ReclusterSource { plan_id, .. } => source_step(
            st,
            Stage { in_ports: 0, out_ports: 1, op: plan_id },
        ),
        PhysicalPlan::CompactSource { plan_id, .. } => source_step(
            st,
            Stage { in_ports: 0, out_ports: 1, op: plan_id },
        ),
        PhysicalPlan::Filter { plan_id, input } => unary_node(*input, st, inj, plan_id, false),
        PhysicalPlan::EvalScalar { plan_id, input, .. } => unary_node(
            *input,
            st,
            inj,
            plan_id,
            false,
        ),
        PhysicalPlan::Sort { plan_id, input } => unary_node(*input, st, inj, plan_id, false),
        PhysicalPlan::Limit { plan_id, input, .. } => unary_node(*input, st, inj, plan_id, false),
        PhysicalPlan::Window { plan_id, input } => unary_node(*input, st, inj, plan_id, false),
        PhysicalPlan::AggregatePartial { plan_id, input } => unary_node(
            *input,
            st,
            inj,
            plan_id,
            false,
        ),
        PhysicalPlan::AggregateFinal { plan_id, input } => unary_node(
            *input,
            st,
            inj,
            plan_id,
            false,
        ),
        PhysicalPlan::RowFetch { plan_id, input } => unary_node(*input, st, inj, plan_id, false),
        PhysicalPlan::Udf { plan_id, input } => unary_node(*input, st, inj, plan_id, false),
        PhysicalPlan::Shuffle { plan_id, input } => unary_node(*input, st, inj, plan_id, false),
        PhysicalPlan::ChunkCastSchema { plan_id, input } => unary_node(
            *input,
            st,
            inj,
            plan_id,
            false,
        ),
        PhysicalPlan::ChunkFillAndReorder { plan_id, input } => unary_node(
            *input,
            st,
            inj,
            plan_id,
            false,
        ),
        PhysicalPlan::ChunkMerge { plan_id, input } => unary_node(*input, st, inj, plan_id, false),
        PhysicalPlan::UnionAll { plan_id, left, right } => {
            match build_node(*left, st, inj) {
                Err(e) => Err(e),
                Ok(st1) => {
                    match branch_step(*right, st1, inj, plan_id) {
                        Err(e) => Err(e),
                        Ok(st2) => transform_step(st2, plan_id, false),
                    }
                },
            }
        },
        PhysicalPlan::HashJoin { plan_id, join_id, build, probe } => {
            // the build side's shared state is recorded before the probe side
            // is compiled, so the probe side can observe it
            match branch_step(*build, st, inj, plan_id) {
                Err(e) => Err(e),
                Ok(st1) => {
                    let st_reg = BuildState {
                        main: st1.main,
                        sources: st1.sources,
                        ctes: st1.ctes,
                        joins: st1.joins.push(join_id),
                    };
                    match build_node(*probe, st_reg, inj) {
                        Err(e) => Err(e),
                        Ok(st2) => transform_step(st2, plan_id, false),
                    }
                },
            }
        },
        PhysicalPlan::RangeJoin { plan_id, left, right } => {
            match branch_step(*left, st, inj, plan_id) {
                Err(e) => Err(e),
                Ok(st1) => {
                    match build_node(*right, st1, inj) {
                        Err(e) => Err(e),
                        Ok(st2) => transform_step(st2, plan_id, false),
                    }
                },
            }
        },
        PhysicalPlan::MaterializedCte { plan_id, cte_idx, definition, body } => {
            if st.ctes.contains(cte_idx) {
                Err(ErrorKind::Internal)
            } else {
                match branch_step(*definition, st, inj, plan_id) {
                    Err(e) => Err(e),
                    Ok(st1) => {
                        let st_reg = BuildState {
                            main: st1.main,
                            sources: st1.sources,
                            ctes: st1.ctes.push(cte_idx),
                            joins: st1.joins,
                        };
                        build_node(*body, st_reg, inj)
                    },
                }
            }
        },
        PhysicalPlan::ExchangeSink { plan_id, input } => unary_node(*input, st, inj, plan_id, true),
        PhysicalPlan::ReclusterSink { plan_id, input, .. } => unary_node(
            *input,
            st,
            inj,
            plan_id,
            true,
        ),
        PhysicalPlan::CommitSink { plan_id, input, .. } => unary_node(*input, st, inj, plan_id, true),
        PhysicalPlan::Exchange { .. } => Err(ErrorKind::Internal),
    }
}

/// A single-input handler: compile the input, then append one stage.
pub open spec fn unary_node(
    input: PhysicalPlan,
    st: BuildState,
    inj: ExchangeInjector,
    id: u32,
    close: bool,
) -> Result<BuildState, ErrorKind>
    decreases input, 4int,
{
    match build_node(input, st, inj) {
        Err(e) => Err(e),
        Ok(st1) => transform_step(st1, id, close),
    }
}

/// Every accumulated source pipeline satisfies the completeness invariant.
pub open spec fn sources_complete(st: BuildState) -> bool {
    forall|k: int| 0 <= k < st.sources.len() ==> complete_stages(#[trigger] st.sources[k].stages)
}

proof fn lemma_linked_push(s: Seq<Stage>, x: Stage)
    requires
        stages_linked(s),
        s.len() > 0 ==> x.in_ports == s.last().out_ports,
    ensures
        stages_linked(s.push(x)),
        s.push(x).last() == x,
        s.push(x).len() == s.len() + 1,
        s.len() > 0 ==> s.push(x)[0] == s[0],
{
    assert forall|i: int| 1 <= i < s.push(x).len() implies s.push(x)[i].in_ports == s.push(x)[i
        - 1].out_ports by {
        if i < s.len() {
            assert(s.push(x)[i] == s[i]);
            assert(s.push(x)[i - 1] == s[i - 1]);
        } else {
            assert(s.push(x)[i] == x);
            assert(s.push(x)[i - 1] == s[i - 1]);
        }
    }
}

proof fn lemma_sources_push(ss: Seq<PipelineModel>, p: PipelineModel)
    requires
        forall|k: int| 0 <= k < ss.len() ==> complete_stages(#[trigger] ss[k].stages),
        complete_stages(p.stages),
    ensures
        forall|k: int| 0 <= k < ss.push(p).len() ==> complete_stages(#[trigger] ss.push(p)[k].stages),
{
    assert forall|k: int| 0 <= k < ss.push(p).len() implies complete_stages(
        ss.push(p)[k].stages,
    ) by {
        if k < ss.len() {
            assert(ss.push(p)[k] == ss[k]);
        } else {
            assert(ss.push(p)[k] == p);
        }
    }
}

/// Law: the compiler never silently produces an incomplete pipeline. A
/// successful compilation from an empty main chain leaves every accumulated
/// source pipeline complete, and leaves the main chain a linked, non-empty
/// chain starting from a source whose end is closed exactly when the root
/// node is a sink — so for a sink-rooted plan the main pipeline satisfies
/// the completeness invariant, and for any plan a failure is surfaced as a
/// structural error instead.
pub proof fn lemma_build_preserves_completeness(
    plan: PhysicalPlan,
    st: BuildState,
    inj: ExchangeInjector,
)
    requires
        st.main.stages.len() == 0,
        sources_complete(st),
        inj.receive_width > 0,
    ensures
        build_node(plan, st, inj) matches Ok(st2) ==> {
            &&& stages_linked(st2.main.stages)
            &&& st2.main.stages.len() > 0
            &&& st2.main.stages[0].in_ports == 0
            &&& (st2.main.stages.last().out_ports == 0 <==> closes_chain(plan))
            &&& sources_complete(st2)
        },
    decreases plan, 3int,
{
    if scope_exempt(plan) {
        lemma_build_node_inner(plan, st, inj);
    } else {
        lemma_build_node_inner(plan, with_enter(st, plan.node_id()), inj);
    }
}

proof fn lemma_transform_step(st1: BuildState, id: u32, close: bool, closed_in: bool)
    requires
        stages_linked(st1.main.stages),
        st1.main.stages.len() > 0,
        st1.main.stages[0].in_ports == 0,
        sources_complete(st1),
        st1.main.stages.last().out_ports == 0 <==> closed_in,
    ensures
        transform_step(st1, id, close) matches Ok(st2) ==> {
            &&& stages_linked(st2.main.stages)
            &&& st2.main.stages.len() > 0
            &&& st2.main.stages[0].in_ports == 0
            &&& (st2.main.stages.last().out_ports == 0 <==> close)
            &&& sources_complete(st2)
        },
        closed_in ==> transform_step(st1, id, close) is Err,
{
    if chain_open(st1.main.stages) {
        let w = st1.main.stages.last().out_ports;
        lemma_linked_push(
            st1.main.stages,
            Stage { in_ports: w, out_ports: if close { 0 } else { w }, op: id },
        );
    }
}

proof fn lemma_branch_step(child: PhysicalPlan, st: BuildState, inj: ExchangeInjector, op: u32)
    requires
        sources_complete(st),
        inj.receive_width > 0,
    ensures
        branch_step(child, st, inj, op) matches Ok(st2) ==> {
            &&& st2.main == st.main
            &&& sources_complete(st2)
        },
    decreases child, 4int,
{
    lemma_build_preserves_completeness(child, branch_of(st), inj);
    match build_node(child, branch_of(st), inj) {
        Err(_) => {},
        Ok(stb) => {
            if chain_open(stb.main.stages) {
                lemma_linked_push(
                    stb.main.stages,
                    Stage { in_ports: stb.main.stages.last().out_ports, out_ports: 0, op },
                );
                assert(complete_stages(cap_chain(stb.main, op).stages));
                lemma_sources_push(stb.sources, cap_chain(stb.main, op));
            }
        },
    }
}

proof fn lemma_build_node_inner(plan: PhysicalPlan, st: BuildState, inj: ExchangeInjector)
    requires
        st.main.stages.len() == 0,
        sources_complete(st),
        inj.receive_width > 0,
    ensures
        build_node_inner(plan, st, inj) matches Ok(st2) ==> {
            &&& stages_linked(st2.main.stages)
            &&& st2.main.stages.len() > 0
            &&& st2.main.stages[0].in_ports == 0
            &&& (st2.main.stages.last().out_ports == 0 <==> closes_chain(plan))
            &&& sources_complete(st2)
        },
    decreases plan, 2int,
{
    match plan {
        PhysicalPlan::Filter { plan_id, input } => {
            lemma_unary_node(*input, st, inj, plan_id, false);
        },
        PhysicalPlan::EvalScalar { plan_id, input, .. } => {
            lemma_unary_node(*input, st, inj, plan_id, false);
        },
        PhysicalPlan::Sort { plan_id, input } => {
            lemma_unary_node(*input, st, inj, plan_id, false);
        },
        PhysicalPlan::Limit { plan_id, input, .. } => {
            lemma_unary_node(*input, st, inj, plan_id, false);
        },
        PhysicalPlan::Window { plan_id, input } => {
            lemma_unary_node(*input, st, inj, plan_id, false);
        },
        PhysicalPlan::AggregatePartial { plan_id, input } => {
            lemma_unary_node(*input, st, inj, plan_id, false);
        },
        PhysicalPlan::AggregateFinal { plan_id, input } => {
            lemma_unary_node(*input, st, inj, plan_id, false);
        },
        PhysicalPlan::RowFetch { plan_id, input } => {
            lemma_unary_node(*input, st, inj, plan_id, false);
        },
        PhysicalPlan::Udf { plan_id, input } => {
            lemma_unary_node(*input, st, inj, plan_id, false);
        },
        PhysicalPlan::Shuffle { plan_id, input } => {
            lemma_unary_node(*input, st, inj, plan_id, false);
        },
        PhysicalPlan::ChunkCastSchema { plan_id, input } => {
            lemma_unary_node(*input, st, inj, plan_id, false);
        },
        PhysicalPlan::ChunkFillAndReorder { plan_id, input } => {
            lemma_unary_node(*input, st, inj, plan_id, false);
        },
        PhysicalPlan::ChunkMerge { plan_id, input } => {
            lemma_unary_node(*input, st, inj, plan_id, false);
        },
        PhysicalPlan::ExchangeSink { plan_id, input } => {
            lemma_unary_node(*input, st, inj, plan_id, true);
        },
        PhysicalPlan::ReclusterSink { plan_id, input, .. } => {
            lemma_unary_node(*input, st, inj, plan_id, true);
        },
        PhysicalPlan::CommitSink { plan_id, input, .. } => {
            lemma_unary_node(*input, st, inj, plan_id, true);
        },
        PhysicalPlan::UnionAll { plan_id, left, right } => {
            lemma_build_preserves_completeness(*left, st, inj);
            match build_node(*left, st, inj) {
                Err(_) => {},
                Ok(st1) => {
                    lemma_branch_step(*right, st1, inj, plan_id);
                    match branch_step(*right, st1, inj, plan_id) {
                        Err(_) => {},
                        Ok(st2) => {
                            lemma_transform_step(st2, plan_id, false, closes_chain(*left));
                        },
                    }
                },
            }
        },
        PhysicalPlan::HashJoin { plan_id, join_id, build, probe } => {
            lemma_branch_step(*build, st, inj, plan_id);
            match branch_step(*build, st, inj, plan_id) {
                Err(_) => {},
                Ok(st1) => {
                    let st_reg = BuildState {
                        main: st1.main,
                        sources: st1.sources,
                        ctes: st1.ctes,
                        joins: st1.joins.push(join_id),
                    };
                    lemma_build_preserves_completeness(*probe, st_reg, inj);
                    match build_node(*probe, st_reg, inj) {
                        Err(_) => {},
                        Ok(st2) => {
                            lemma_transform_step(st2, plan_id, false, closes_chain(*probe));
                        },
                    }
                },
            }
        },
        PhysicalPlan::RangeJoin { plan_id, left, right } => {
            lemma_branch_step(*left, st, inj, plan_id);
            match branch_step(*left, st, inj, plan_id) {
                Err(_) => {},
                Ok(st1) => {
                    lemma_build_preserves_completeness(*right, st1, inj);
                    match build_node(*right, st1, inj) {
                        Err(_) => {},
                        Ok(st2) => {
                            lemma_transform_step(st2, plan_id, false, closes_chain(*right));
                        },
                    }
                },
            }
        },
        PhysicalPlan::MaterializedCte { plan_id, cte_idx, definition, body } => {
            if !st.ctes.contains(cte_idx) {
                lemma_branch_step(*definition, st, inj, plan_id);
                match branch_step(*definition, st, inj, plan_id) {
                    Err(_) => {},
                    Ok(st1) => {
                        let st_reg = BuildState {
                            main: st1.main,
                            sources: st1.sources,
                            ctes: st1.ctes.push(cte_idx),
                            joins: st1.joins,
                        };
                        lemma_build_preserves_completeness(*body, st_reg, inj);
                    },
                }
            }
        },
        _ => {
            // source kinds: a single fresh stage; and the bare exchange error
        },
    }
}

/// The compiler's output: the main pipeline, the independent source pipelines
/// (each satisfying the completeness invariant), the exchange strategy used,
/// and the cross-cutting state downstream consumers read after compilation —
/// the registered materialized-CTE readers and hash-join build handles.
#[derive(Debug)]
pub struct PipelineBuildResult {
    pub main_pipeline: Pipeline,
    pub sources_pipelines: Vec<Pipeline>,
    pub exchange_injector: ExchangeInjector,
    pub cte_ids: Vec<u32>,
    pub join_ids: Vec<u32>,
}

/// The plan-to-pipeline compiler's working state.
#[derive(Debug)]
pub struct PipelineBuilder {
    pub main_pipeline: Pipeline,
    pub pipelines: Vec<Pipeline>,
    pub cte_ids: Vec<u32>,
    pub join_ids: Vec<u32>,
    pub exchange_injector: ExchangeInjector,
}

impl View for PipelineBuilder {
    type V = BuildState;

    open spec fn view(&self) -> BuildState {
        BuildState {
            main: self.main_pipeline@,
            sources: self.pipelines@.map_values(|p: Pipeline| p@),
            ctes: self.cte_ids@,
            joins: self.join_ids@,
        }
    }
}

fn vec_contains_u32(v: &Vec<u32>, x: u32) -> (r: bool)
    ensures
        r == v@.contains(x),
{
    let mut i: usize = 0;
    while i < v.len()
        invariant
            i <= v@.len(),
            forall|k: int| 0 <= k < i ==> v@[k] != x,
        decreases v@.len() - i,
    {
        if v[i] == x {
            return true;
        }
        i = i + 1;
    }
    false
}

impl PipelineBuilder {
    /// A fresh compiler whose main pipeline inherits the caller's enclosing
    /// profiling scopes and whose exchange strategy is the default one.
    pub fn create(scopes: Vec<ScopeEvent>) -> (b: PipelineBuilder)
        ensures
            b@.main.stages.len() == 0,
            b@.main.scopes == scopes@,
            b@.sources.len() == 0,
            b@.ctes.len() == 0,
            b@.joins.len() == 0,
            b.exchange_injector == default_exchange_injector(),
    {
        let b = PipelineBuilder {
            main_pipeline: Pipeline::with_scopes(scopes),
            pipelines: Vec::new(),
            cte_ids: Vec::new(),
            join_ids: Vec::new(),
            exchange_injector: ExchangeInjector::default(),
        };
        proof {
            assert(b@.sources =~= Seq::<PipelineModel>::empty());
        }
        b
    }

    /// Opens a profiling scope for the node unless its kind is exempt;
    /// reports whether a scope was opened.
    pub(crate) fn add_plan_scope(&mut self, plan: &PhysicalPlan) -> (pushed: bool)
        ensures
            pushed == !scope_exempt(*plan),
            pushed ==> final(self)@ == with_enter(old(self)@, plan.node_id()),
            !pushed ==> final(self)@ == old(self)@,
            final(self).exchange_injector == old(self).exchange_injector,
    {
        let exempt = match plan {
            PhysicalPlan::EvalScalar { num_exprs, .. } => *num_exprs == 0,
            PhysicalPlan::Shuffle { .. } => true,
            PhysicalPlan::ChunkCastSchema { .. } => true,
            PhysicalPlan::ChunkFillAndReorder { .. } => true,
            PhysicalPlan::ChunkMerge { .. } => true,
            _ => false,
        };
        if exempt {
            return false;
        }
        let id = plan.get_id();
        self.main_pipeline.enter_scope(id);
        true
    }

    /// Seeds the main chain with a source stage.
    fn start_chain(&mut self, s: Stage) -> (r: Result<(), ErrorKind>)
        ensures
            r matches Ok(_) ==> source_step(old(self)@, s) == Ok::<BuildState, ErrorKind>(
                final(self)@,
            ),
            r matches Err(e) ==> source_step(old(self)@, s) == Err::<BuildState, ErrorKind>(e),
            final(self).exchange_injector == old(self).exchange_injector,
    {
        if self.main_pipeline.stages.len() != 0 {
            return Err(ErrorKind::Internal);
        }
        self.main_pipeline.push_stage(s);
        Ok(())
    }

    /// Appends one stage atop the open main chain.
    fn append_stage(&mut self, id: u32, close: bool) -> (r: Result<(), ErrorKind>)
        ensures
            r matches Ok(_) ==> transform_step(old(self)@, id, close) == Ok::<
                BuildState,
                ErrorKind,
            >(final(self)@),
            r matches Err(e) ==> transform_step(old(self)@, id, close) == Err::<
                BuildState,
                ErrorKind,
            >(e),
            final(self).exchange_injector == old(self).exchange_injector,
    {
        if self.main_pipeline.stages.len() == 0 {
            return Err(ErrorKind::Internal);
        }
        let w = self.main_pipeline.last_width();
        if w == 0 {
            return Err(ErrorKind::Internal);
        }
        self.main_pipeline.push_stage(
            Stage { in_ports: w, out_ports: if close { 0 } else { w }, op: id },
        );
        Ok(())
    }

    /// Compiles `child` as an independent branch: its chain is capped with a
    /// bridge sink and becomes a source pipeline of this compilation.
    fn build_branch(&mut self, child: &PhysicalPlan, op: u32) -> (r: Result<(), ErrorKind>)
        ensures
            r matches Ok(_) ==> branch_step(*child, old(self)@, old(self).exchange_injector, op)
                == Ok::<BuildState, ErrorKind>(final(self)@),
            r matches Err(e) ==> branch_step(*child, old(self)@, old(self).exchange_injector, op)
                == Err::<BuildState, ErrorKind>(e),
            final(self).exchange_injector == old(self).exchange_injector,
        decreases *child, 6int,
    {
        let mut branch = PipelineBuilder {
            main_pipeline: Pipeline::with_scopes(Vec::new()),
            pipelines: Vec::new(),
            cte_ids: Vec::new(),
            join_ids: Vec::new(),
            exchange_injector: self.exchange_injector,
        };
        core::mem::swap(&mut branch.pipelines, &mut self.pipelines);
        core::mem::swap(&mut branch.cte_ids, &mut self.cte_ids);
        core::mem::swap(&mut branch.join_ids, &mut self.join_ids);
        proof {
            assert(branch@ == branch_of(old(self)@));
        }
        let rb = branch.build_pipeline(child);
        match rb {
            Err(e) => Err(e),
            Ok(_) => {
                if branch.main_pipeline.stages.len() == 0 {
                    return Err(ErrorKind::Internal);
                }
                let w = branch.main_pipeline.last_width();
                if w == 0 {
                    return Err(ErrorKind::Internal);
                }
                branch.main_pipeline.push_stage(Stage { in_ports: w, out_ports: 0, op });
                core::mem::swap(&mut branch.pipelines, &mut self.pipelines);
                core::mem::swap(&mut branch.cte_ids, &mut self.cte_ids);
                core::mem::swap(&mut branch.join_ids, &mut self.join_ids);
                let ghost pre_push = self.pipelines@;
                let capped = branch.main_pipeline;
                let ghost capped_model = capped@;
                self.pipelines.push(capped);
                proof {
                    pre_push.lemma_push_map_commute(|p: Pipeline| p@, capped);
                    assert(self.pipelines@.map_values(|p: Pipeline| p@) =~= pre_push.map_values(
                        |p: Pipeline| p@,
                    ).push(capped_model));
                }
                Ok(())
            },
        }
    }

    /// Compiles one plan node into the main chain: opens the profiling scope
    /// (unless the kind is exempt), dispatches to the kind's handler, and
    /// closes the scope when the subtree's visit ends, on success and on
    /// failure alike.
    pub(crate) fn build_pipeline(&mut self, plan: &PhysicalPlan) -> (r: Result<(), ErrorKind>)
        ensures
            r matches Ok(_) ==> build_node(*plan, old(self)@, old(self).exchange_injector)
                == Ok::<BuildState, ErrorKind>(final(self)@),
            r matches Err(e) ==> build_node(*plan, old(self)@, old(self).exchange_injector)
                == Err::<BuildState, ErrorKind>(e),
            final(self).exchange_injector == old(self).exchange_injector,
        decreases *plan, 5int,
    {
        let pushed = self.add_plan_scope(plan);
        let r = self.build_dispatch(plan);
        match r {
            Ok(_) => {
                if pushed {
                    self.main_pipeline.exit_scope();
                }
                Ok(())
            },
            Err(e) => {
                if pushed {
                    self.main_pipeline.exit_scope();
                }
                Err(e)
            },
        }
    }

    /// The exhaustive kind-to-handler dispatch: every plan kind has exactly
    /// one handler.
    fn build_dispatch(&mut self, plan: &PhysicalPlan) -> (r: Result<(), ErrorKind>)
        ensures
            r matches Ok(_) ==> build_node_inner(*plan, old(self)@, old(self).exchange_injector)
                == Ok::<BuildState, ErrorKind>(final(self)@),
            r matches Err(e) ==> build_node_inner(*plan, old(self)@, old(self).exchange_injector)
                == Err::<BuildState, ErrorKind>(e),
            final(self).exchange_injector == old(self).exchange_injector,
        decreases *plan, 4int,
    {
        match plan {
            PhysicalPlan::TableScan { plan_id } => self.start_chain(
                Stage { in_ports: 0, out_ports: 1, op: *plan_id },
            ),
            PhysicalPlan::ConstantTableScan { plan_id } => self.start_chain(
                Stage { in_ports: 0, out_ports: 1, op: *plan_id },
            ),
            PhysicalPlan::CteScan { plan_id, cte_idx } => {
                if !vec_contains_u32(&self.cte_ids, *cte_idx) {
                    // a scan of a CTE whose materialization was never registered
                    Err(ErrorKind::Internal)
                } else {
                    self.start_chain(Stage { in_ports: 0, out_ports: 1, op: *plan_id })
                }
            },
            PhysicalPlan::ExchangeSource { plan_id } => {
                let w = self.exchange_injector.receive_width;
                self.start_chain(Stage { in_ports: 0, out_ports: w, op: *plan_id })
            },
            PhysicalPlan::ReclusterSource { plan_id, .. } => self.start_chain(
                Stage { in_ports: 0, out_ports: 1, op: *plan_id },
            ),
            PhysicalPlan::CompactSource { plan_id, .. } => self.start_chain(
                Stage { in_ports: 0, out_ports: 1, op: *plan_id },
            ),
            PhysicalPlan::Filter { plan_id, input } => self.build_unary(input, *plan_id, false),
            PhysicalPlan::EvalScalar { plan_id, input, .. } => self.build_unary(
                input,
                *plan_id,
                false,
            ),
            PhysicalPlan::Sort { plan_id, input } => self.build_unary(input, *plan_id, false),
            PhysicalPlan::Limit { plan_id, input, .. } => self.build_unary(input, *plan_id, false),
            PhysicalPlan::Window { plan_id, input } => self.build_unary(input, *plan_id, false),
            PhysicalPlan::AggregatePartial { plan_id, input } => self.build_unary(
                input,
                *plan_id,
                false,
            ),
            PhysicalPlan::AggregateFinal { plan_id, input } => self.build_unary(
                input,
                *plan_id,
                false,
            ),
            PhysicalPlan::RowFetch { plan_id, input } => self.build_unary(input, *plan_id, false),
            PhysicalPlan::Udf { plan_id, input } => self.build_unary(input, *plan_id, false),
            PhysicalPlan::Shuffle { plan_id, input } => self.build_unary(input, *plan_id, false),
            PhysicalPlan::ChunkCastSchema { plan_id, input } => self.build_unary(
                input,
                *plan_id,
                false,
            ),
            PhysicalPlan::ChunkFillAndReorder { plan_id, input } => self.build_unary(
                input,
                *plan_id,
                false,
            ),
            PhysicalPlan::ChunkMerge { plan_id, input } => self.build_unary(input, *plan_id, false),
            PhysicalPlan::UnionAll { plan_id, left, right } => {
                match self.build_pipeline(left) {
                    Err(e) => Err(e),
                    Ok(_) => {
                        match self.build_branch(right, *plan_id) {
                            Err(e) => Err(e),
                            Ok(_) => self.append_stage(*plan_id, false),
                        }
                    },
                }
            },
            PhysicalPlan::HashJoin { plan_id, join_id, build, probe } => {
                match self.build_branch(build, *plan_id) {
                    Err(e) => Err(e),
                    Ok(_) => {
                        // record the build-side handle before the probe side
                        // is compiled, so the probe side can observe it
                        self.join_ids.push(*join_id);
                        match self.build_pipeline(probe) {
                            Err(e) => Err(e),
                            Ok(_) => self.append_stage(*plan_id, false),
                        }
                    },
                }
            },
            PhysicalPlan::RangeJoin { plan_id, left, right } => {
                match self.build_branch(left, *plan_id) {
                    Err(e) => Err(e),
                    Ok(_) => {
                        match self.build_pipeline(right) {
                            Err(e) => Err(e),
                            Ok(_) => self.append_stage(*plan_id, false),
                        }
                    },
                }
            },
            PhysicalPlan::MaterializedCte { plan_id, cte_idx, definition, body } => {
                if vec_contains_u32(&self.cte_ids, *cte_idx) {
                    // one materialization pass per CTE: a second definition
                    // under the same identifier is malformed
                    Err(ErrorKind::Internal)
                } else {
                    match self.build_branch(definition, *plan_id) {
                        Err(e) => Err(e),
                        Ok(_) => {
                            self.cte_ids.push(*cte_idx);
                            self.build_pipeline(body)
                        },
                    }
                }
            },
            PhysicalPlan::ExchangeSink { plan_id, input } => self.build_unary(
                input,
                *plan_id,
                true,
            ),
            PhysicalPlan::ReclusterSink { plan_id, input, .. } => self.build_unary(
                input,
                *plan_id,
                true,
            ),
            PhysicalPlan::CommitSink { plan_id, input, .. } => self.build_unary(
                input,
                *plan_id,
                true,
            ),
            PhysicalPlan::Exchange { .. } => {
                // a bare exchange reaching the compiler was not lowered by the
                // caller: a structural error
                Err(ErrorKind::Internal)
            },
        }
    }

    /// A single-input handler: compile the input subtree, then append one
    /// stage atop it.
    fn build_unary(&mut self, input: &PhysicalPlan, id: u32, close: bool) -> (r: Result<
        (),
        ErrorKind,
    >)
        ensures
            r matches Ok(_) ==> unary_node(*input, old(self)@, old(self).exchange_injector, id, close)
                == Ok::<BuildState, ErrorKind>(final(self)@),
            r matches Err(e) ==> unary_node(*input, old(self)@, old(self).exchange_injector, id, close)
                == Err::<BuildState, ErrorKind>(e),
            final(self).exchange_injector == old(self).exchange_injector,
        decreases *input, 6int,
    {
        match self.build_pipeline(input) {
            Err(e) => Err(e),
            Ok(_) => self.append_stage(id, close),
        }
    }

    /// Compiles the whole plan and hands out the result, after checking that
    /// every accumulated source pipeline satisfies the completeness
    /// invariant: an incomplete pipeline cannot be scheduled and is a fatal
    /// internal error.
    pub fn finalize(self, plan: &PhysicalPlan) -> (r: Result<PipelineBuildResult, ErrorKind>)
        requires
            self@.main.stages.len() == 0,
            sources_complete(self@),
            self.exchange_injector.receive_width > 0,
        ensures
            r matches Ok(res) ==> {
                let st2 = build_node(*plan, self@, self.exchange_injector)->Ok_0;
                &&& build_node(*plan, self@, self.exchange_injector) is Ok
                &&& res.main_pipeline@ == st2.main
                &&& res.sources_pipelines@.map_values(|p: Pipeline| p@) == st2.sources
                &&& res.cte_ids@ == st2.ctes
                &&& res.join_ids@ == st2.joins
                &&& res.exchange_injector == self.exchange_injector
                &&& forall|k: int|
                    0 <= k < res.sources_pipelines@.len() ==> complete_stages(
                        #[trigger] res.sources_pipelines@[k]@.stages,
                    )
                &&& closes_chain(*plan) ==> complete_stages(res.main_pipeline@.stages)
            },
            r matches Err(e) ==> build_node(*plan, self@, self.exchange_injector) == Err::<
                BuildState,
                ErrorKind,
            >(e),
    {
        let ghost st0 = self@;
        let ghost inj = self.exchange_injector;
        let mut this = self;
        proof {
            lemma_build_preserves_completeness(*plan, st0, inj);
        }
        match this.build_pipeline(plan) {
            Err(e) => Err(e),
            Ok(_) => {
                let mut i: usize = 0;
                while i < this.pipelines.len()
                    invariant
                        build_node(*plan, st0, inj) == Ok::<BuildState, ErrorKind>(this@),
                        sources_complete(this@),
                    decreases this.pipelines@.len() - i,
                {
                    if !this.pipelines[i].is_complete_pipeline() {
                        proof {
                            assert(this@.sources[i as int] == this.pipelines@[i as int]@);
                            assert(false);
                        }
                        return Err(ErrorKind::Internal);
                    }
                    i = i + 1;
                }
                proof {
                    assert forall|k: int|
                        0 <= k < this.pipelines@.len() implies complete_stages(
                        #[trigger] this.pipelines@[k]@.stages,
                    ) by {
                        assert(this@.sources[k] == this.pipelines@[k]@);
                        assert(complete_stages(this@.sources[k].stages));
                    }
                }
                Ok(PipelineBuildResult {
                    main_pipeline: this.main_pipeline,
                    sources_pipelines: this.pipelines,
                    exchange_injector: this.exchange_injector,
                    cte_ids: this.cte_ids,
                    join_ids: this.join_ids,
                })
            },
        }
    }
}

proof fn lemma_unary_node(
    input: PhysicalPlan,
    st: BuildState,
    inj: ExchangeInjector,
    id: u32,
    close: bool,
)
    requires
        st.main.stages.len() == 0,
        sources_complete(st),
        inj.receive_width > 0,
    ensures
        unary_node(input, st, inj, id, close) matches Ok(st2) ==> {
            &&& stages_linked(st2.main.stages)
            &&& st2.main.stages.len() > 0
            &&& st2.main.stages[0].in_ports == 0
            &&& (st2.main.stages.last().out_ports == 0 <==> close)
            &&& sources_complete(st2)
        },
    decreases input, 4int,
{
    lemma_build_preserves_completeness(input, st, inj);
    match build_node(input, st, inj) {
        Err(_) => {},
        Ok(st1) => {
            lemma_transform_step(st1, id, close, closes_chain(input));
        },
    }
}

} // verus!
