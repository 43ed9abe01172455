use exec_core::error::ErrorKind;
use exec_core::orchestrator::BatchDecision;
use exec_core::orchestrator::BatchOutcome;
use exec_core::orchestrator::FilterExpr;
use exec_core::orchestrator::IterationRecord;
use exec_core::orchestrator::LoopDecision;
use exec_core::orchestrator::ReclusterMutator;
use exec_core::orchestrator::ReclusterTablePlan;
use exec_core::orchestrator::ReclusterTableInterpreter;
use exec_core::orchestrator::classify_iteration;
use exec_core::orchestrator::drive_recluster_loop;
use exec_core::orchestrator::plan_recluster_batch;
use exec_core::plan::CompactPart;
use exec_core::plan::ReclusterTask;
use exec_core::plan::Statistics;
use exec_core::plan::TableInfo;
use exec_core::plan::TableSnapshot;
use exec_core::recluster::ReclusterTasks;

fn request(is_final: bool, push_downs: Option<u64>) -> ReclusterTablePlan {
    ReclusterTablePlan {
        catalog: String::from("default"),
        database: String::from("db"),
        table: String::from("t"),
        is_final,
        limit: Some(100),
        push_downs,
    }
}

fn ok_iteration(outcome: Result<BatchOutcome, ErrorKind>, elapsed_ms: u64) -> IterationRecord {
    IterationRecord { aborted: false, outcome, elapsed_ms }
}

#[test]
fn interpreter_identity() {
    let it = ReclusterTableInterpreter::try_create(request(false, None)).unwrap();
    assert_eq!(it.name(), "ReclusterTableInterpreter");
    assert!(it.is_ddl());
    assert_eq!(it.plan.table, "t");
}

#[test]
fn push_downs_build_the_filter_and_its_negation() {
    let it = ReclusterTableInterpreter::try_create(request(false, Some(11))).unwrap();
    let info = it.build_push_downs().unwrap();
    let filters = info.filters.unwrap();
    assert_eq!(filters.filter, FilterExpr::Pred { pred_id: 11 });
    assert_eq!(filters.inverted_filter, FilterExpr::NotPred { pred_id: 11 });

    let bare = ReclusterTableInterpreter::try_create(request(false, None)).unwrap();
    assert!(bare.build_push_downs().is_none());
}

fn mutator(blocks: u64, distributed: bool) -> ReclusterMutator {
    ReclusterMutator {
        tasks: ReclusterTasks::Recluster {
            tasks: vec![ReclusterTask { total_rows: 10, total_bytes: 100, level: 0 }],
            remained_blocks: vec![],
            removed_segment_indexes: vec![0],
            removed_segment_summary: Statistics {
                row_count: 10,
                block_count: blocks,
                uncompressed_byte_size: 100,
            },
        },
        snapshot: TableSnapshot { snapshot_id: 1, segment_count: 1 },
        is_distributed: distributed,
        recluster_blocks_count: blocks,
    }
}

#[test]
fn no_proposal_finishes_the_loop() {
    let table = TableInfo { table_id: 1, version: 1 };
    match plan_recluster_batch(None, table).unwrap() {
        BatchDecision::Finished => {}
        other => panic!("expected the loop to finish, got {:?}", other),
    }
}

#[test]
fn empty_tasks_finish_the_loop() {
    let table = TableInfo { table_id: 1, version: 1 };
    let m = ReclusterMutator {
        tasks: ReclusterTasks::Compact(vec![]),
        snapshot: TableSnapshot { snapshot_id: 1, segment_count: 1 },
        is_distributed: false,
        recluster_blocks_count: 0,
    };
    match plan_recluster_batch(Some(m), table).unwrap() {
        BatchDecision::Finished => {}
        other => panic!("expected the loop to finish, got {:?}", other),
    }
}

#[test]
fn proposed_batch_compiles_to_complete_pipelines() {
    let table = TableInfo { table_id: 1, version: 1 };
    for distributed in [false, true] {
        match plan_recluster_batch(Some(mutator(8, distributed)), table).unwrap() {
            BatchDecision::Execute { pipelines, block_count } => {
                assert_eq!(block_count, 8);
                assert_eq!(pipelines.len(), 1);
                for p in &pipelines {
                    assert!(p.is_complete_pipeline());
                }
            }
            other => panic!("expected an executable batch, got {:?}", other),
        }
    }
}

#[test]
fn distributed_compact_batch_compiles_to_complete_pipelines() {
    let table = TableInfo { table_id: 1, version: 1 };
    let m = ReclusterMutator {
        tasks: ReclusterTasks::Compact(vec![CompactPart { segment_index: 0, block_count: 3 }]),
        snapshot: TableSnapshot { snapshot_id: 1, segment_count: 1 },
        is_distributed: true,
        recluster_blocks_count: 3,
    };
    match plan_recluster_batch(Some(m), table).unwrap() {
        BatchDecision::Execute { pipelines, block_count } => {
            assert_eq!(block_count, 3);
            assert_eq!(pipelines.len(), 1);
            assert!(pipelines[0].is_complete_pipeline());
            // the exchange boundary became a receive stage feeding the sink
            assert_eq!(pipelines[0].stages.len(), 2);
            assert_eq!(pipelines[0].stages[0].in_ports, 0);
            assert_eq!(pipelines[0].stages[1].out_ports, 0);
        }
        other => panic!("expected an executable batch, got {:?}", other),
    }
}

#[test]
fn single_batch_conflict_returns_the_error_unchanged() {
    // single-batch mode, the lock is already held elsewhere: no retry
    let events = vec![ok_iteration(Err(ErrorKind::TableAlreadyLocked), 10)];
    let out = drive_recluster_loop(&events, false, 1_000_000);
    assert_eq!(out.result, Err(ErrorKind::TableAlreadyLocked));
    assert_eq!(out.iterations_run, 1);
    assert_eq!(out.times, 0);
    assert_eq!(out.block_count, 0);
    assert!(!out.history_written);
}

#[test]
fn exhaustion_mode_with_empty_first_batch_writes_no_history() {
    // run-to-exhaustion mode, a zero-task first batch: one iteration, zero
    // affected blocks, no history record
    let events = vec![ok_iteration(Ok(BatchOutcome::NoMoreWork), 10)];
    let out = drive_recluster_loop(&events, true, 1_000_000);
    assert_eq!(out.result, Ok(()));
    assert_eq!(out.iterations_run, 1);
    assert_eq!(out.block_count, 0);
    assert!(!out.history_written);
}

#[test]
fn exhaustion_mode_retries_conflicts_and_accumulates_blocks() {
    let events = vec![
        ok_iteration(Err(ErrorKind::TableVersionMismatched), 10),
        ok_iteration(Ok(BatchOutcome::Applied { blocks: 5 }), 20),
        ok_iteration(Ok(BatchOutcome::Applied { blocks: 7 }), 30),
        ok_iteration(Ok(BatchOutcome::NoMoreWork), 40),
    ];
    let out = drive_recluster_loop(&events, true, 1_000_000);
    assert_eq!(out.result, Ok(()));
    assert_eq!(out.iterations_run, 4);
    assert_eq!(out.times, 3);
    assert_eq!(out.block_count, 12);
    assert!(out.history_written);
}

#[test]
fn exhaustion_mode_fails_on_a_fatal_error() {
    let events = vec![
        ok_iteration(Ok(BatchOutcome::Applied { blocks: 5 }), 10),
        ok_iteration(Err(ErrorKind::StorageOther), 20),
    ];
    let out = drive_recluster_loop(&events, true, 1_000_000);
    assert_eq!(out.result, Err(ErrorKind::StorageOther));
    assert_eq!(out.iterations_run, 2);
    // the failing return path skips the history record
    assert!(!out.history_written);
}

#[test]
fn single_batch_mode_stops_after_one_batch() {
    let events = vec![
        ok_iteration(Ok(BatchOutcome::Applied { blocks: 5 }), 10),
        ok_iteration(Ok(BatchOutcome::Applied { blocks: 7 }), 20),
    ];
    let out = drive_recluster_loop(&events, false, 1_000_000);
    assert_eq!(out.result, Ok(()));
    assert_eq!(out.iterations_run, 1);
    assert_eq!(out.times, 1);
    assert_eq!(out.block_count, 5);
    assert!(out.history_written);
}

#[test]
fn timeout_is_a_clean_stop() {
    let events = vec![
        ok_iteration(Ok(BatchOutcome::Applied { blocks: 5 }), 10),
        ok_iteration(Ok(BatchOutcome::Applied { blocks: 7 }), 2_000),
        ok_iteration(Ok(BatchOutcome::Applied { blocks: 9 }), 3_000),
    ];
    let out = drive_recluster_loop(&events, true, 2_000);
    assert_eq!(out.result, Ok(()));
    assert_eq!(out.iterations_run, 2);
    assert_eq!(out.block_count, 12);
    assert!(out.history_written);
}

#[test]
fn cancellation_is_fatal_and_immediate() {
    let events = vec![
        ok_iteration(Ok(BatchOutcome::Applied { blocks: 5 }), 10),
        IterationRecord {
            aborted: true,
            outcome: Ok(BatchOutcome::NoMoreWork),
            elapsed_ms: 20,
        },
    ];
    let out = drive_recluster_loop(&events, true, 1_000_000);
    assert_eq!(out.result, Err(ErrorKind::AbortedQuery));
    assert_eq!(out.iterations_run, 2);
    assert_eq!(out.block_count, 5);
    assert!(!out.history_written);
}

#[test]
fn classification_table() {
    // conflicts retry only in run-to-exhaustion mode, inside the timeout
    let conflict = Err(ErrorKind::TableLockExpired);
    assert_eq!(classify_iteration(&conflict, true, 10, 100), LoopDecision::Continue);
    assert_eq!(classify_iteration(&conflict, true, 100, 100), LoopDecision::Stop);
    assert_eq!(
        classify_iteration(&conflict, false, 10, 100),
        LoopDecision::Fail { error: ErrorKind::TableLockExpired }
    );
    let fatal = Err(ErrorKind::UnresolvableConflict);
    assert_eq!(classify_iteration(&fatal, true, 10, 100), LoopDecision::Continue);
    let other = Err(ErrorKind::StorageOther);
    assert_eq!(
        classify_iteration(&other, true, 10, 100),
        LoopDecision::Fail { error: ErrorKind::StorageOther }
    );
    // a table that stopped accepting maintenance is no conflict: always fatal
    let frozen = Err(ErrorKind::TableNotWritable);
    assert_eq!(
        classify_iteration(&frozen, true, 10, 100),
        LoopDecision::Fail { error: ErrorKind::TableNotWritable }
    );
    assert_eq!(
        classify_iteration(&Ok(BatchOutcome::NoMoreWork), true, 10, 100),
        LoopDecision::Stop
    );
    assert_eq!(
        classify_iteration(&Ok(BatchOutcome::Applied { blocks: 1 }), true, 10, 100),
        LoopDecision::Continue
    );
    assert_eq!(
        classify_iteration(&Ok(BatchOutcome::Applied { blocks: 1 }), false, 10, 100),
        LoopDecision::Stop
    );
}
