use exec_core::plan::CompactPart;
use exec_core::plan::FragmentKind;
use exec_core::plan::PhysicalPlan;
use exec_core::plan::ReclusterTask;
use exec_core::plan::Statistics;
use exec_core::plan::TableInfo;
use exec_core::plan::TableSnapshot;
use exec_core::recluster::ReclusterTasks;
use exec_core::recluster::build_compact_physical_plan;
use exec_core::recluster::build_recluster_physical_plan;

fn table() -> TableInfo {
    TableInfo { table_id: 42, version: 7 }
}

fn snapshot() -> TableSnapshot {
    TableSnapshot { snapshot_id: 9, segment_count: 3 }
}

fn some_tasks() -> ReclusterTasks {
    ReclusterTasks::Recluster {
        tasks: vec![ReclusterTask { total_rows: 100, total_bytes: 4096, level: 1 }],
        remained_blocks: vec![],
        removed_segment_indexes: vec![2, 5],
        removed_segment_summary: Statistics {
            row_count: 100,
            block_count: 2,
            uncompressed_byte_size: 4096,
        },
    }
}

#[test]
fn local_recluster_plan_has_no_exchange() {
    let plan = build_recluster_physical_plan(some_tasks(), table(), snapshot(), false);
    match plan {
        PhysicalPlan::ReclusterSink { plan_id, input, table_info, snapshot: sn, .. } => {
            assert_eq!(plan_id, 0);
            assert_eq!(table_info.table_id, 42);
            assert_eq!(sn.snapshot_id, 9);
            match *input {
                PhysicalPlan::ReclusterSource { plan_id, ref tasks, table_info } => {
                    assert_eq!(plan_id, 1);
                    assert_eq!(tasks.len(), 1);
                    assert_eq!(tasks[0].total_rows, 100);
                    assert_eq!(table_info.table_id, 42);
                }
                other => panic!("expected a recluster source, got {:?}", other),
            }
        }
        other => panic!("expected a recluster sink root, got {:?}", other),
    }
}

#[test]
fn distributed_recluster_plan_has_one_exchange_between_source_and_sink() {
    let plan = build_recluster_physical_plan(some_tasks(), table(), snapshot(), true);
    match plan {
        PhysicalPlan::ReclusterSink { plan_id, input, .. } => {
            assert_eq!(plan_id, 0);
            match *input {
                PhysicalPlan::Exchange {
                    plan_id,
                    input: inner,
                    kind,
                    ref keys,
                    allow_adjust_parallelism,
                    ignore_exchange,
                } => {
                    assert_eq!(plan_id, 1);
                    assert_eq!(kind, FragmentKind::Merge);
                    assert!(keys.is_empty());
                    assert!(allow_adjust_parallelism);
                    assert!(!ignore_exchange);
                    match *inner {
                        PhysicalPlan::ReclusterSource { plan_id, .. } => assert_eq!(plan_id, 2),
                        other => panic!("expected a recluster source, got {:?}", other),
                    }
                }
                other => panic!("expected the exchange under the sink, got {:?}", other),
            }
        }
        other => panic!("expected a recluster sink root, got {:?}", other),
    }
}

fn compact_shape(plan: &PhysicalPlan, distributed: bool) -> (u32, u64, u64) {
    // returns (sink id, source part count, table id) after checking the shape
    match plan {
        PhysicalPlan::CommitSink { plan_id, input, table_info, snapshot: sn } => {
            assert_eq!(sn.snapshot_id, 9);
            let source: &PhysicalPlan = if distributed {
                match input.as_ref() {
                    PhysicalPlan::Exchange { plan_id, input: inner, kind, .. } => {
                        assert_eq!(*plan_id, 1);
                        assert_eq!(*kind, FragmentKind::Merge);
                        inner.as_ref()
                    }
                    other => panic!("expected an exchange, got {:?}", other),
                }
            } else {
                input.as_ref()
            };
            match source {
                PhysicalPlan::CompactSource { plan_id, parts, table_info: ti } => {
                    assert_eq!(*plan_id, if distributed { 2 } else { 1 });
                    assert_eq!(ti.table_id, table_info.table_id);
                    (*plan_id, parts.len() as u64, ti.table_id)
                }
                other => panic!("expected a compact source, got {:?}", other),
            }
        }
        other => panic!("expected a commit sink root, got {:?}", other),
    }
}

#[test]
fn compact_assembly_delegates_to_shared_builder() {
    let parts = vec![
        CompactPart { segment_index: 1, block_count: 4 },
        CompactPart { segment_index: 3, block_count: 2 },
    ];
    let via_assembler = build_recluster_physical_plan(
        ReclusterTasks::Compact(parts.clone()),
        table(),
        snapshot(),
        true,
    );
    let via_shared = build_compact_physical_plan(parts, table(), snapshot(), true);
    assert_eq!(compact_shape(&via_assembler, true), compact_shape(&via_shared, true));
}

#[test]
fn compact_assembly_without_distribution_has_no_exchange() {
    let parts = vec![CompactPart { segment_index: 1, block_count: 4 }];
    let plan = build_recluster_physical_plan(
        ReclusterTasks::Compact(parts),
        table(),
        snapshot(),
        false,
    );
    let (source_id, n_parts, table_id) = compact_shape(&plan, false);
    assert_eq!(source_id, 1);
    assert_eq!(n_parts, 1);
    assert_eq!(table_id, 42);
}

#[test]
fn empty_task_descriptions() {
    let empty = ReclusterTasks::Recluster {
        tasks: vec![],
        remained_blocks: vec![],
        removed_segment_indexes: vec![],
        removed_segment_summary: Statistics {
            row_count: 0,
            block_count: 0,
            uncompressed_byte_size: 0,
        },
    };
    assert!(empty.is_empty());
    assert!(ReclusterTasks::Compact(vec![]).is_empty());
    assert!(!some_tasks().is_empty());
}
