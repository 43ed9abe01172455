use exec_core::builder::PipelineBuilder;
use exec_core::error::ErrorKind;
use exec_core::pipeline::ScopeEvent;
use exec_core::plan::FragmentKind;
use exec_core::plan::PhysicalPlan;
use exec_core::plan::TableInfo;
use exec_core::plan::TableSnapshot;

fn table_scan(id: u32) -> PhysicalPlan {
    PhysicalPlan::TableScan { plan_id: id }
}

#[test]
fn filter_over_scan_builds_an_open_chain() {
    let plan = PhysicalPlan::Filter { plan_id: 0, input: Box::new(table_scan(1)) };
    let res = PipelineBuilder::create(Vec::new()).finalize(&plan).unwrap();
    assert_eq!(res.main_pipeline.stages.len(), 2);
    assert_eq!(res.main_pipeline.stages[0].in_ports, 0);
    assert_eq!(res.main_pipeline.stages[0].op, 1);
    assert_eq!(res.main_pipeline.stages[1].op, 0);
    // a non-sink root leaves the chain's outputs open
    assert!(!res.main_pipeline.is_complete_pipeline());
    assert!(res.sources_pipelines.is_empty());
}

#[test]
fn sink_rooted_plan_builds_a_complete_main_pipeline() {
    let plan = PhysicalPlan::CommitSink {
        plan_id: 0,
        input: Box::new(PhysicalPlan::CompactSource {
            plan_id: 1,
            parts: vec![],
            table_info: TableInfo { table_id: 1, version: 1 },
        }),
        table_info: TableInfo { table_id: 1, version: 1 },
        snapshot: TableSnapshot { snapshot_id: 1, segment_count: 0 },
    };
    let res = PipelineBuilder::create(Vec::new()).finalize(&plan).unwrap();
    assert!(res.main_pipeline.is_complete_pipeline());
    assert!(res.sources_pipelines.is_empty());
}

#[test]
fn bare_exchange_is_a_structural_error() {
    let plan = PhysicalPlan::Exchange {
        plan_id: 0,
        input: Box::new(table_scan(1)),
        kind: FragmentKind::Merge,
        keys: vec![],
        allow_adjust_parallelism: true,
        ignore_exchange: false,
    };
    let err = PipelineBuilder::create(Vec::new()).finalize(&plan).unwrap_err();
    assert_eq!(err, ErrorKind::Internal);
}

#[test]
fn cte_scan_without_materialization_is_a_structural_error() {
    let plan = PhysicalPlan::CteScan { plan_id: 0, cte_idx: 3 };
    let err = PipelineBuilder::create(Vec::new()).finalize(&plan).unwrap_err();
    assert_eq!(err, ErrorKind::Internal);
}

#[test]
fn materialized_cte_registers_state_for_its_readers() {
    let plan = PhysicalPlan::MaterializedCte {
        plan_id: 0,
        cte_idx: 3,
        definition: Box::new(table_scan(1)),
        body: Box::new(PhysicalPlan::Filter {
            plan_id: 2,
            input: Box::new(PhysicalPlan::CteScan { plan_id: 3, cte_idx: 3 }),
        }),
    };
    let res = PipelineBuilder::create(Vec::new()).finalize(&plan).unwrap();
    // the definition was compiled once, into its own complete source pipeline
    assert_eq!(res.sources_pipelines.len(), 1);
    assert!(res.sources_pipelines[0].is_complete_pipeline());
    assert_eq!(res.cte_ids, vec![3]);
    // the body's scan and filter form the main chain
    assert_eq!(res.main_pipeline.stages.len(), 2);
}

#[test]
fn hash_join_records_build_side_and_bridges_it() {
    let plan = PhysicalPlan::HashJoin {
        plan_id: 0,
        join_id: 17,
        build: Box::new(table_scan(1)),
        probe: Box::new(table_scan(2)),
    };
    let res = PipelineBuilder::create(Vec::new()).finalize(&plan).unwrap();
    assert_eq!(res.join_ids, vec![17]);
    assert_eq!(res.sources_pipelines.len(), 1);
    assert!(res.sources_pipelines[0].is_complete_pipeline());
    // probe chain: scan then the probe stage
    assert_eq!(res.main_pipeline.stages.len(), 2);
    assert_eq!(res.main_pipeline.stages[1].op, 0);
}

#[test]
fn union_all_bridges_its_right_input() {
    let plan = PhysicalPlan::UnionAll {
        plan_id: 0,
        left: Box::new(table_scan(1)),
        right: Box::new(table_scan(2)),
    };
    let res = PipelineBuilder::create(Vec::new()).finalize(&plan).unwrap();
    assert_eq!(res.sources_pipelines.len(), 1);
    assert!(res.sources_pipelines[0].is_complete_pipeline());
    assert_eq!(res.main_pipeline.stages.len(), 2);
}

#[test]
fn scope_nesting_mirrors_plan_nesting() {
    let plan = PhysicalPlan::Limit {
        plan_id: 0,
        limit: 10,
        offset: 0,
        input: Box::new(table_scan(1)),
    };
    let res = PipelineBuilder::create(Vec::new()).finalize(&plan).unwrap();
    assert_eq!(
        res.main_pipeline.scopes,
        vec![
            ScopeEvent::Enter { plan_id: 0 },
            ScopeEvent::Enter { plan_id: 1 },
            ScopeEvent::Exit,
            ScopeEvent::Exit,
        ]
    );
}

#[test]
fn exempt_kinds_get_no_scope() {
    // a no-op scalar evaluation and a chunk-merge reshape leave no scope
    let plan = PhysicalPlan::EvalScalar {
        plan_id: 0,
        num_exprs: 0,
        input: Box::new(PhysicalPlan::ChunkMerge {
            plan_id: 1,
            input: Box::new(table_scan(2)),
        }),
    };
    let res = PipelineBuilder::create(Vec::new()).finalize(&plan).unwrap();
    assert_eq!(
        res.main_pipeline.scopes,
        vec![ScopeEvent::Enter { plan_id: 2 }, ScopeEvent::Exit]
    );
    // the exemption is about profiling noise, not about stages: all three
    // nodes still compile
    assert_eq!(res.main_pipeline.stages.len(), 3);
}

#[test]
fn eval_scalar_with_expressions_gets_a_scope() {
    let plan = PhysicalPlan::EvalScalar {
        plan_id: 0,
        num_exprs: 2,
        input: Box::new(table_scan(1)),
    };
    let res = PipelineBuilder::create(Vec::new()).finalize(&plan).unwrap();
    assert_eq!(res.main_pipeline.scopes.len(), 4);
}

#[test]
fn source_under_a_source_is_rejected() {
    // a plan whose transform chain would restart mid-way is malformed
    let plan = PhysicalPlan::Filter {
        plan_id: 0,
        input: Box::new(PhysicalPlan::Filter {
            plan_id: 1,
            input: Box::new(PhysicalPlan::CommitSink {
                plan_id: 2,
                input: Box::new(table_scan(3)),
                table_info: TableInfo { table_id: 1, version: 1 },
                snapshot: TableSnapshot { snapshot_id: 1, segment_count: 0 },
            }),
        }),
    };
    // appending a transform onto a closed chain is a structural error
    let err = PipelineBuilder::create(Vec::new()).finalize(&plan).unwrap_err();
    assert_eq!(err, ErrorKind::Internal);
}
