use exec_core::vacuum::DEFAULT_RETAIN_MS;
use exec_core::vacuum::NamespaceEntry;
use exec_core::vacuum::RemovalPath;
use exec_core::vacuum::SubNamespace;
use exec_core::vacuum::TempFile;
use exec_core::vacuum::VacuumAction;
use exec_core::vacuum::do_vacuum_temporary_files;

const DAY_MS: u64 = 24 * 60 * 60 * 1000;

fn file(age_ms: u64, now: u64, bytes: u64) -> TempFile {
    TempFile { mtime_ms: now - age_ms, bytes }
}

fn batch_paths(actions: &[VacuumAction]) -> Vec<RemovalPath> {
    let mut out = Vec::new();
    for a in actions {
        if let VacuumAction::DeleteBatch { paths, .. } = a {
            out.extend(paths.iter().copied());
        }
    }
    out
}

fn deleted_dirs(actions: &[VacuumAction]) -> Vec<usize> {
    let mut out = Vec::new();
    for a in actions {
        if let VacuumAction::DeleteDir { entry } = a {
            out.push(*entry);
        }
    }
    out
}

#[test]
fn unfinished_dir_file_removed_dir_kept() {
    // a sub-namespace without the finished sentinel: its stale file goes,
    // the directory itself stays
    let now = 10 * DAY_MS;
    let ns = vec![NamespaceEntry::Dir(SubNamespace {
        finished: false,
        files: vec![file(4 * DAY_MS, now, 100)],
    })];
    let report = do_vacuum_temporary_files(&ns, Some(3 * DAY_MS), 100, now);
    assert_eq!(report.removed, 1);
    assert_eq!(report.cleaned_bytes, 100);
    assert_eq!(
        batch_paths(&report.actions),
        vec![RemovalPath::DirFile { entry: 0, file: 0 }]
    );
    assert!(deleted_dirs(&report.actions).is_empty());
}

#[test]
fn unfinished_dir_uses_zero_threshold() {
    // without the sentinel even a fresh file is reclaimed once listed
    let now = 10 * DAY_MS;
    let ns = vec![NamespaceEntry::Dir(SubNamespace {
        finished: false,
        files: vec![file(1000, now, 8)],
    })];
    let report = do_vacuum_temporary_files(&ns, Some(3 * DAY_MS), 100, now);
    assert_eq!(report.removed, 1);
    assert!(deleted_dirs(&report.actions).is_empty());
}

#[test]
fn finished_dir_fully_swept_is_deleted_sentinel_last() {
    let now = 10 * DAY_MS;
    let ns = vec![NamespaceEntry::Dir(SubNamespace {
        finished: true,
        files: vec![file(4 * DAY_MS, now, 10), file(5 * DAY_MS, now, 20)],
    })];
    let report = do_vacuum_temporary_files(&ns, Some(3 * DAY_MS), 100, now);
    assert_eq!(report.removed, 2);
    assert_eq!(report.cleaned_bytes, 30);
    assert_eq!(deleted_dirs(&report.actions), vec![0]);
    // the directory deletion is the last action, after its files' batch
    match report.actions.last().unwrap() {
        VacuumAction::DeleteDir { entry } => assert_eq!(*entry, 0),
        other => panic!("expected the directory deletion last, got {:?}", other),
    }
}

#[test]
fn finished_dir_with_fresh_file_is_kept() {
    let now = 10 * DAY_MS;
    let ns = vec![NamespaceEntry::Dir(SubNamespace {
        finished: true,
        files: vec![file(4 * DAY_MS, now, 10), file(DAY_MS, now, 20)],
    })];
    let report = do_vacuum_temporary_files(&ns, Some(3 * DAY_MS), 100, now);
    assert_eq!(report.removed, 1);
    assert!(deleted_dirs(&report.actions).is_empty());
}

#[test]
fn root_files_age_against_retention() {
    let now = 10 * DAY_MS;
    let ns = vec![
        NamespaceEntry::File(file(4 * DAY_MS, now, 7)),
        NamespaceEntry::File(file(2 * DAY_MS, now, 9)),
    ];
    let report = do_vacuum_temporary_files(&ns, Some(3 * DAY_MS), 100, now);
    assert_eq!(report.removed, 1);
    assert_eq!(report.cleaned_bytes, 7);
    assert_eq!(
        batch_paths(&report.actions),
        vec![RemovalPath::RootFile { entry: 0 }]
    );
}

#[test]
fn default_retention_is_three_days() {
    assert_eq!(DEFAULT_RETAIN_MS, 3 * DAY_MS);
    let now = 10 * DAY_MS;
    let ns = vec![
        NamespaceEntry::File(file(4 * DAY_MS, now, 1)),
        NamespaceEntry::File(file(2 * DAY_MS, now, 1)),
    ];
    let report = do_vacuum_temporary_files(&ns, None, 100, now);
    assert_eq!(report.removed, 1);
}

#[test]
fn zero_limit_returns_immediately() {
    let now = 10 * DAY_MS;
    let ns = vec![NamespaceEntry::File(file(4 * DAY_MS, now, 1))];
    let report = do_vacuum_temporary_files(&ns, Some(3 * DAY_MS), 0, now);
    assert_eq!(report.removed, 0);
    assert!(report.actions.is_empty());
}

#[test]
fn budget_caps_removals() {
    let now = 10 * DAY_MS;
    let mut entries = Vec::new();
    for _ in 0..5 {
        entries.push(NamespaceEntry::File(file(4 * DAY_MS, now, 2)));
    }
    let report = do_vacuum_temporary_files(&entries, Some(3 * DAY_MS), 3, now);
    assert_eq!(report.removed, 3);
    assert_eq!(report.cleaned_bytes, 6);
    // the first three files in listing order
    assert_eq!(
        batch_paths(&report.actions),
        vec![
            RemovalPath::RootFile { entry: 0 },
            RemovalPath::RootFile { entry: 1 },
            RemovalPath::RootFile { entry: 2 },
        ]
    );
}

#[test]
fn budget_spans_directories() {
    let now = 10 * DAY_MS;
    let ns = vec![
        NamespaceEntry::Dir(SubNamespace {
            finished: true,
            files: vec![file(4 * DAY_MS, now, 1), file(4 * DAY_MS, now, 1)],
        }),
        NamespaceEntry::File(file(4 * DAY_MS, now, 1)),
    ];
    // budget of 2 is used up inside the directory: it is fully swept, the
    // root file is spared, and the directory itself is deleted
    let report = do_vacuum_temporary_files(&ns, Some(3 * DAY_MS), 2, now);
    assert_eq!(report.removed, 2);
    assert_eq!(deleted_dirs(&report.actions), vec![0]);
    assert_eq!(
        batch_paths(&report.actions),
        vec![
            RemovalPath::DirFile { entry: 0, file: 0 },
            RemovalPath::DirFile { entry: 0, file: 1 },
        ]
    );
}

#[test]
fn deletions_are_batched_at_the_cap() {
    let now = 10 * DAY_MS;
    let mut entries = Vec::new();
    for _ in 0..1500 {
        entries.push(NamespaceEntry::File(file(4 * DAY_MS, now, 1)));
    }
    let report = do_vacuum_temporary_files(&entries, Some(3 * DAY_MS), 5000, now);
    assert_eq!(report.removed, 1500);
    let mut sizes = Vec::new();
    for a in &report.actions {
        if let VacuumAction::DeleteBatch { paths, .. } = a {
            sizes.push(paths.len());
        }
    }
    assert_eq!(sizes, vec![1000, 500]);
}

#[test]
fn second_sweep_removes_nothing() {
    // idempotence: apply the first sweep's plan, re-list, sweep again under
    // the same clock and retention
    let now = 10 * DAY_MS;
    let ns = vec![
        NamespaceEntry::File(file(4 * DAY_MS, now, 1)),
        NamespaceEntry::File(file(DAY_MS, now, 2)),
        NamespaceEntry::Dir(SubNamespace {
            finished: true,
            files: vec![file(4 * DAY_MS, now, 3), file(DAY_MS, now, 4)],
        }),
        NamespaceEntry::Dir(SubNamespace {
            finished: true,
            files: vec![file(4 * DAY_MS, now, 5)],
        }),
        NamespaceEntry::Dir(SubNamespace {
            finished: false,
            files: vec![file(DAY_MS, now, 6)],
        }),
    ];
    // the unfinished directory's fresh file is also reclaimed: its effective
    // threshold is zero
    let first = do_vacuum_temporary_files(&ns, Some(3 * DAY_MS), 10_000, now);
    assert_eq!(first.removed, 4);
    assert_eq!(deleted_dirs(&first.actions), vec![3]);

    // survivors: the fresh root file, the half-swept finished directory with
    // its fresh file, and the now-empty unfinished directory
    let survivors = vec![
        NamespaceEntry::File(file(DAY_MS, now, 2)),
        NamespaceEntry::Dir(SubNamespace {
            finished: true,
            files: vec![file(DAY_MS, now, 4)],
        }),
        NamespaceEntry::Dir(SubNamespace { finished: false, files: vec![] }),
    ];
    let second = do_vacuum_temporary_files(&survivors, Some(3 * DAY_MS), 10_000, now);
    assert_eq!(second.removed, 0);
    assert_eq!(second.cleaned_bytes, 0);
    assert!(deleted_dirs(&second.actions).is_empty());
    assert!(batch_paths(&second.actions).is_empty());
}

#[test]
fn bytes_accounting_matches_batches() {
    let now = 10 * DAY_MS;
    let ns = vec![
        NamespaceEntry::File(file(4 * DAY_MS, now, 11)),
        NamespaceEntry::Dir(SubNamespace {
            finished: false,
            files: vec![file(4 * DAY_MS, now, 22)],
        }),
    ];
    let report = do_vacuum_temporary_files(&ns, Some(3 * DAY_MS), 100, now);
    assert_eq!(report.cleaned_bytes, 33);
    let mut total = 0u64;
    for a in &report.actions {
        if let VacuumAction::DeleteBatch { bytes, .. } = a {
            total += bytes;
        }
    }
    assert_eq!(total, 33);
}
