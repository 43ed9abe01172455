//! Bounded reclamation sweep over a temporary-data namespace.
//!
//! The namespace is a listing of direct children: plain files (with
//! last-modified timestamp and byte size) and sub-namespaces (one temporary
//! query's working directory, optionally marked finished by a sentinel file).
//! The sweep applies an age-based retention policy, batches deletions, and
//! respects a global item-count budget. It is a pure planning function: it
//! decides what to delete and in which order; issuing the deletions against
//! the storage layer is the caller's concern.

use vstd::prelude::*;

verus! {

/// Default retention for temporary files: three days, in milliseconds.
pub const DEFAULT_RETAIN_MS: u64 = 1000 * 60 * 60 * 24 * 3;

/// Deletion batches are issued once this many paths have accumulated.
pub const DELETE_BATCH_CAP: usize = 1000;

/// A plain file in the namespace listing.
#[derive(Clone, Copy, Debug, PartialEq, Eq, Structural)]
pub struct TempFile {
    /// Last-modified time, milliseconds since the epoch.
    pub mtime_ms: u64,
    /// Content length in bytes.
    pub bytes: u64,
}

/// One temporary query's working directory: its files (the sentinel file
/// itself is not listed here) and whether the finished sentinel is present.
#[derive(Debug)]
pub struct SubNamespace {
    /// True when the sentinel file marking the owning query as finished exists.
    pub finished: bool,
    /// The directory's files, in listing order.
    pub files: Vec<TempFile>,
}

/// A direct child of the swept namespace.
#[derive(Debug)]
pub enum NamespaceEntry {
    File(TempFile),
    Dir(SubNamespace),
}

/// A path scheduled for deletion, identified by its position in the listing.
#[derive(Clone, Copy, Debug, PartialEq, Eq, Structural)]
pub enum RemovalPath {
    /// The `entry`-th child of the namespace, a plain file.
    RootFile { entry: usize },
    /// The `file`-th file of the sub-namespace at child position `entry`.
    DirFile { entry: usize, file: usize },
}

/// One step of the deletion plan, in issue order.
#[derive(Debug)]
pub enum VacuumAction {
    /// Issue one bulk-delete request for these paths; `bytes` is their total size.
    DeleteBatch { paths: Vec<RemovalPath>, bytes: u64 },
    /// Delete the sentinel file of the sub-namespace at child position `entry`,
    /// then the sub-namespace entry itself.
    DeleteDir { entry: usize },
}

/// The sweep's outcome: how many files were scheduled for removal, their total
/// size, and the ordered deletion plan.
#[derive(Debug)]
pub struct SweepReport {
    /// Files scheduled for removal; counted against the item budget.
    pub removed: usize,
    /// Total bytes of the removed files.
    pub cleaned_bytes: u64,
    /// The deletion plan, in issue order.
    pub actions: Vec<VacuumAction>,
}

/// A file is expired when its age at `now_ms` meets the threshold.
pub open spec fn expired(f: TempFile, now_ms: u64, threshold_ms: u64) -> bool {
    f.mtime_ms + threshold_ms <= now_ms
}

/// The effective age threshold of a sub-namespace: directories without the
/// finished sentinel are still in progress and use a threshold of zero, so
/// their contents are reclaimed as soon as they are listed; marked-finished
/// directories use the configured retention.
pub open spec fn dir_threshold(d: SubNamespace, retain_ms: u64) -> u64 {
    if d.finished {
        retain_ms
    } else {
        0
    }
}

/// The retention that applies when the caller gave none: the default.
pub open spec fn spec_effective_retention(retain_ms: Option<u64>) -> u64 {
    match retain_ms {
        Some(r) => r,
        None => DEFAULT_RETAIN_MS,
    }
}

/// How many of the first `j` files of a directory are expired.
pub open spec fn expired_before(files: Seq<TempFile>, now_ms: u64, thr_ms: u64, j: int) -> int
    decreases j,
{
    if j <= 0 {
        0
    } else {
        expired_before(files, now_ms, thr_ms, j - 1)
            + if expired(files[j - 1], now_ms, thr_ms) { 1int } else { 0int }
    }
}

/// Whether the `j`-th file of a directory is removed, given the item budget
/// left when the directory's sweep began: files are visited in listing order
/// and an expired file is removed as long as the budget is not yet used up.
pub open spec fn dir_file_removed(
    files: Seq<TempFile>,
    now_ms: u64,
    thr_ms: u64,
    budget: int,
    j: int,
) -> bool {
    &&& 0 <= j < files.len()
    &&& expired(files[j], now_ms, thr_ms)
    &&& expired_before(files, now_ms, thr_ms, j) < budget
}

/// How many files the sweep of one directory removes under `budget`.
pub open spec fn dir_removed_count(
    files: Seq<TempFile>,
    now_ms: u64,
    thr_ms: u64,
    budget: int,
) -> int {
    let c = expired_before(files, now_ms, thr_ms, files.len() as int);
    if budget <= 0 {
        0
    } else if c <= budget {
        c
    } else {
        budget
    }
}

/// Total bytes of the removed files among the first `j` files of a directory.
pub open spec fn dir_removed_bytes(
    files: Seq<TempFile>,
    now_ms: u64,
    thr_ms: u64,
    budget: int,
    j: int,
) -> int
    decreases j,
{
    if j <= 0 {
        0
    } else {
        dir_removed_bytes(files, now_ms, thr_ms, budget, j - 1)
            + if dir_file_removed(files, now_ms, thr_ms, budget, j - 1) {
                files[j - 1].bytes as int
            } else {
                0int
            }
    }
}

/// Every file of the directory was removed by this sweep.
pub open spec fn dir_all_removed(
    files: Seq<TempFile>,
    now_ms: u64,
    thr_ms: u64,
    budget: int,
) -> bool {
    forall|j: int| 0 <= j < files.len() ==> dir_file_removed(files, now_ms, thr_ms, budget, j)
}

/// How many removals one namespace child contributes, given the budget left
/// when it is reached.
pub open spec fn entry_removed_count(
    e: NamespaceEntry,
    now_ms: u64,
    retain_ms: u64,
    budget: int,
) -> int {
    match e {
        NamespaceEntry::File(f) => {
            if expired(f, now_ms, retain_ms) && budget > 0 {
                1
            } else {
                0
            }
        },
        NamespaceEntry::Dir(d) => dir_removed_count(
            d.files@,
            now_ms,
            dir_threshold(d, retain_ms),
            budget,
        ),
    }
}

/// Total bytes one namespace child contributes.
pub open spec fn entry_removed_bytes(
    e: NamespaceEntry,
    now_ms: u64,
    retain_ms: u64,
    budget: int,
) -> int {
    match e {
        NamespaceEntry::File(f) => {
            if expired(f, now_ms, retain_ms) && budget > 0 {
                f.bytes as int
            } else {
                0
            }
        },
        NamespaceEntry::Dir(d) => dir_removed_bytes(
            d.files@,
            now_ms,
            dir_threshold(d, retain_ms),
            budget,
            d.files@.len() as int,
        ),
    }
}

/// How much of the item budget is used after the first `i` children.
pub open spec fn used_after(
    ns: Seq<NamespaceEntry>,
    now_ms: u64,
    retain_ms: u64,
    limit: int,
    i: int,
) -> int
    decreases i,
{
    if i <= 0 {
        0
    } else {
        let u = used_after(ns, now_ms, retain_ms, limit, i - 1);
        u + entry_removed_count(ns[i - 1], now_ms, retain_ms, limit - u)
    }
}

/// Total bytes removed among the first `i` children.
pub open spec fn bytes_after(
    ns: Seq<NamespaceEntry>,
    now_ms: u64,
    retain_ms: u64,
    limit: int,
    i: int,
) -> int
    decreases i,
{
    if i <= 0 {
        0
    } else {
        let u = used_after(ns, now_ms, retain_ms, limit, i - 1);
        bytes_after(ns, now_ms, retain_ms, limit, i - 1)
            + entry_removed_bytes(ns[i - 1], now_ms, retain_ms, limit - u)
    }
}

/// How many files the whole sweep removes.
pub open spec fn total_removed(ns: Seq<NamespaceEntry>, now_ms: u64, retain_ms: u64, limit: int) -> int {
    used_after(ns, now_ms, retain_ms, limit, ns.len() as int)
}

/// Total bytes the whole sweep reclaims.
pub open spec fn total_cleaned_bytes(
    ns: Seq<NamespaceEntry>,
    now_ms: u64,
    retain_ms: u64,
    limit: int,
) -> int {
    bytes_after(ns, now_ms, retain_ms, limit, ns.len() as int)
}

/// Whether the root-level file at child position `i` is removed.
pub open spec fn root_file_removed(
    ns: Seq<NamespaceEntry>,
    now_ms: u64,
    retain_ms: u64,
    limit: int,
    i: int,
) -> bool {
    &&& 0 <= i < ns.len()
    &&& ns[i] is File
    &&& expired(ns[i]->File_0, now_ms, retain_ms)
    &&& used_after(ns, now_ms, retain_ms, limit, i) < limit
}

/// Whether a given path is removed by the sweep.
pub open spec fn path_removed(
    ns: Seq<NamespaceEntry>,
    now_ms: u64,
    retain_ms: u64,
    limit: int,
    p: RemovalPath,
) -> bool {
    match p {
        RemovalPath::RootFile { entry } => root_file_removed(
            ns,
            now_ms,
            retain_ms,
            limit,
            entry as int,
        ),
        RemovalPath::DirFile { entry, file } => {
            &&& 0 <= entry < ns.len()
            &&& ns[entry as int] is Dir
            &&& {
                let d = ns[entry as int]->Dir_0;
                dir_file_removed(
                    d.files@,
                    now_ms,
                    dir_threshold(d, retain_ms),
                    limit - used_after(ns, now_ms, retain_ms, limit, entry as int),
                    file as int,
                )
            }
        },
    }
}

/// Whether the sub-namespace at child position `i` is deleted: it must be
/// reached within the budget, be marked finished by its sentinel, and every
/// one of its files must have been removed by this sweep.
pub open spec fn dir_deleted(
    ns: Seq<NamespaceEntry>,
    now_ms: u64,
    retain_ms: u64,
    limit: int,
    i: int,
) -> bool {
    &&& 0 <= i < ns.len()
    &&& ns[i] is Dir
    &&& ns[i]->Dir_0.finished
    &&& used_after(ns, now_ms, retain_ms, limit, i) < limit
    &&& dir_all_removed(
        ns[i]->Dir_0.files@,
        now_ms,
        dir_threshold(ns[i]->Dir_0, retain_ms),
        limit - used_after(ns, now_ms, retain_ms, limit, i),
    )
}

/// Total bytes of all files of a directory (prefix of length `j`).
pub open spec fn files_bytes(files: Seq<TempFile>, j: int) -> int
    decreases j,
{
    if j <= 0 {
        0
    } else {
        files_bytes(files, j - 1) + files[j - 1].bytes as int
    }
}

/// Total bytes of every file in the namespace, files inside directories included.
pub open spec fn namespace_bytes(ns: Seq<NamespaceEntry>, i: int) -> int
    decreases i,
{
    if i <= 0 {
        0
    } else {
        namespace_bytes(ns, i - 1) + match ns[i - 1] {
            NamespaceEntry::File(f) => f.bytes as int,
            NamespaceEntry::Dir(d) => files_bytes(d.files@, d.files@.len() as int),
        }
    }
}

/// Number of files in the namespace, files inside directories included.
pub open spec fn namespace_file_count(ns: Seq<NamespaceEntry>, i: int) -> int
    decreases i,
{
    if i <= 0 {
        0
    } else {
        namespace_file_count(ns, i - 1) + match ns[i - 1] {
            NamespaceEntry::File(_) => 1int,
            NamespaceEntry::Dir(d) => d.files@.len() as int,
        }
    }
}

proof fn lemma_expired_before_bounds(files: Seq<TempFile>, now_ms: u64, thr_ms: u64, j: int)
    requires
        0 <= j <= files.len(),
    ensures
        0 <= expired_before(files, now_ms, thr_ms, j) <= j,
    decreases j,
{
    if j > 0 {
        lemma_expired_before_bounds(files, now_ms, thr_ms, j - 1);
    }
}

proof fn lemma_dir_removed_count_bounds(files: Seq<TempFile>, now_ms: u64, thr_ms: u64, budget: int)
    ensures
        0 <= dir_removed_count(files, now_ms, thr_ms, budget),
        budget >= 0 ==> dir_removed_count(files, now_ms, thr_ms, budget) <= budget,
        budget <= 0 ==> dir_removed_count(files, now_ms, thr_ms, budget) == 0,
{
    lemma_expired_before_bounds(files, now_ms, thr_ms, files.len() as int);
}

proof fn lemma_entry_removed_count_bounds(e: NamespaceEntry, now_ms: u64, retain_ms: u64, budget: int)
    ensures
        0 <= entry_removed_count(e, now_ms, retain_ms, budget),
        budget >= 0 ==> entry_removed_count(e, now_ms, retain_ms, budget) <= budget,
        budget <= 0 ==> entry_removed_count(e, now_ms, retain_ms, budget) == 0,
{
    match e {
        NamespaceEntry::File(_) => {},
        NamespaceEntry::Dir(d) => {
            lemma_dir_removed_count_bounds(d.files@, now_ms, dir_threshold(d, retain_ms), budget);
        },
    }
}

proof fn lemma_used_after_bounds(ns: Seq<NamespaceEntry>, now_ms: u64, retain_ms: u64, limit: int, i: int)
    requires
        limit >= 0,
    ensures
        0 <= used_after(ns, now_ms, retain_ms, limit, i) <= limit,
    decreases i,
{
    if i > 0 {
        lemma_used_after_bounds(ns, now_ms, retain_ms, limit, i - 1);
        let u = used_after(ns, now_ms, retain_ms, limit, i - 1);
        lemma_entry_removed_count_bounds(ns[i - 1], now_ms, retain_ms, limit - u);
    }
}

/// Law (budget respect): for any namespace and any item budget, the sweep
/// removes at most `limit` items, and never a negative number.
pub proof fn lemma_budget_respected(ns: Seq<NamespaceEntry>, now_ms: u64, retain_ms: u64, limit: int)
    requires
        limit >= 0,
    ensures
        0 <= total_removed(ns, now_ms, retain_ms, limit) <= limit,
{
    lemma_used_after_bounds(ns, now_ms, retain_ms, limit, ns.len() as int);
}

proof fn lemma_files_bytes_nonneg(files: Seq<TempFile>, j: int)
    ensures
        files_bytes(files, j) >= 0,
    decreases j,
{
    if j > 0 {
        lemma_files_bytes_nonneg(files, j - 1);
    }
}

proof fn lemma_dir_removed_bytes_le(files: Seq<TempFile>, now_ms: u64, thr_ms: u64, budget: int, j: int)
    ensures
        0 <= dir_removed_bytes(files, now_ms, thr_ms, budget, j) <= files_bytes(files, j),
    decreases j,
{
    if j > 0 {
        lemma_dir_removed_bytes_le(files, now_ms, thr_ms, budget, j - 1);
    }
}

proof fn lemma_bytes_after_le(ns: Seq<NamespaceEntry>, now_ms: u64, retain_ms: u64, limit: int, i: int)
    ensures
        0 <= bytes_after(ns, now_ms, retain_ms, limit, i) <= namespace_bytes(ns, i),
    decreases i,
{
    if i > 0 {
        lemma_bytes_after_le(ns, now_ms, retain_ms, limit, i - 1);
        let u = used_after(ns, now_ms, retain_ms, limit, i - 1);
        match ns[i - 1] {
            NamespaceEntry::File(_) => {},
            NamespaceEntry::Dir(d) => {
                lemma_dir_removed_bytes_le(
                    d.files@,
                    now_ms,
                    dir_threshold(d, retain_ms),
                    limit - u,
                    d.files@.len() as int,
                );
            },
        }
    }
}

/// Law (sentinel safety, policy level): a sub-namespace is deleted — and with
/// it its sentinel file — only when every file beneath it was removed by the
/// same sweep.
pub proof fn lemma_sentinel_safety(
    ns: Seq<NamespaceEntry>,
    now_ms: u64,
    retain_ms: u64,
    limit: int,
    i: usize,
    j: usize,
)
    requires
        dir_deleted(ns, now_ms, retain_ms, limit, i as int),
        j < ns[i as int]->Dir_0.files@.len(),
    ensures
        path_removed(ns, now_ms, retain_ms, limit, RemovalPath::DirFile { entry: i, file: j }),
{
}

/// The smaller of two integers.
pub open spec fn min_int(a: int, b: int) -> int {
    if a <= b {
        a
    } else {
        b
    }
}

/// A negative budget clipped to zero.
pub open spec fn clip0(b: int) -> int {
    if b < 0 {
        0
    } else {
        b
    }
}

/// How many files the sweep of one directory removes among its first `j` files.
pub open spec fn dir_removed_prefix_count(
    files: Seq<TempFile>,
    now_ms: u64,
    thr_ms: u64,
    budget: int,
    j: int,
) -> int {
    min_int(expired_before(files, now_ms, thr_ms, j), clip0(budget))
}

proof fn lemma_expired_before_mono(files: Seq<TempFile>, now_ms: u64, thr_ms: u64, j1: int, j2: int)
    requires
        0 <= j1 <= j2,
    ensures
        expired_before(files, now_ms, thr_ms, j1) <= expired_before(files, now_ms, thr_ms, j2),
    decreases j2,
{
    if j1 < j2 {
        lemma_expired_before_mono(files, now_ms, thr_ms, j1, j2 - 1);
    }
}

proof fn lemma_dir_removed_count_is_prefix_count(
    files: Seq<TempFile>,
    now_ms: u64,
    thr_ms: u64,
    budget: int,
)
    ensures
        dir_removed_count(files, now_ms, thr_ms, budget) == dir_removed_prefix_count(
            files,
            now_ms,
            thr_ms,
            budget,
            files.len() as int,
        ),
{
    lemma_expired_before_bounds(files, now_ms, thr_ms, files.len() as int);
}

proof fn lemma_files_bytes_mono(files: Seq<TempFile>, j1: int, j2: int)
    requires
        0 <= j1 <= j2,
    ensures
        files_bytes(files, j1) <= files_bytes(files, j2),
    decreases j2,
{
    if j1 < j2 {
        lemma_files_bytes_mono(files, j1, j2 - 1);
    }
}

proof fn lemma_namespace_bytes_mono(ns: Seq<NamespaceEntry>, i1: int, i2: int)
    requires
        0 <= i1 <= i2,
    ensures
        namespace_bytes(ns, i1) <= namespace_bytes(ns, i2),
    decreases i2,
{
    if i1 < i2 {
        lemma_namespace_bytes_mono(ns, i1, i2 - 1);
        match ns[i2 - 1] {
            NamespaceEntry::File(_) => {},
            NamespaceEntry::Dir(d) => {
                lemma_files_bytes_nonneg(d.files@, d.files@.len() as int);
            },
        }
    }
}

/// Whether one plan step is a batch containing the path.
pub open spec fn action_contains(a: VacuumAction, p: RemovalPath) -> bool {
    a matches VacuumAction::DeleteBatch { paths, .. } && paths@.contains(p)
}

/// Whether some batch of the plan contains the path.
pub open spec fn actions_contain(acts: Seq<VacuumAction>, p: RemovalPath) -> bool {
    exists|k: int| 0 <= k < acts.len() && action_contains(#[trigger] acts[k], p)
}

/// Number of paths a plan step schedules for bulk deletion.
pub open spec fn batch_len(a: VacuumAction) -> int {
    match a {
        VacuumAction::DeleteBatch { paths, .. } => paths@.len() as int,
        VacuumAction::DeleteDir { .. } => 0,
    }
}

/// Total number of paths scheduled by the first `k` plan steps.
pub open spec fn batch_total(acts: Seq<VacuumAction>, k: int) -> int
    decreases k,
{
    if k <= 0 {
        0
    } else {
        batch_total(acts, k - 1) + batch_len(acts[k - 1])
    }
}

/// A batch holds between one and `DELETE_BATCH_CAP` paths.
pub open spec fn batch_sized(a: VacuumAction) -> bool {
    a matches VacuumAction::DeleteBatch { paths, .. } ==> 1 <= paths@.len()
        <= DELETE_BATCH_CAP
}

/// Every file of the sub-namespace at child position `entry` is scheduled in
/// some batch before plan step `k`.
pub open spec fn dir_cleared_before(
    acts: Seq<VacuumAction>,
    k: int,
    entry: usize,
    nfiles: int,
) -> bool {
    forall|j: usize|
        0 <= j < nfiles ==> #[trigger] actions_contain(
            acts.take(k),
            RemovalPath::DirFile { entry, file: j },
        )
}

/// Sentinel safety of a plan: a sub-namespace's sentinel file (and the
/// sub-namespace itself) is deleted only after every file beneath it was
/// scheduled for deletion by an earlier step.
pub open spec fn sentinel_safe(acts: Seq<VacuumAction>, ns: Seq<NamespaceEntry>) -> bool {
    forall|k: int|
        (0 <= k < acts.len() && #[trigger] acts[k] is DeleteDir) ==> {
            let entry = acts[k]->DeleteDir_entry;
            &&& (entry as int) < ns.len()
            &&& ns[entry as int] is Dir
            &&& dir_cleared_before(acts, k, entry, ns[entry as int]->Dir_0.files@.len() as int)
        }
}

proof fn lemma_take_of_push(s: Seq<VacuumAction>, a: VacuumAction, n0: int)
    requires
        0 <= n0 <= s.len(),
    ensures
        s.push(a).len() == s.len() + 1,
        s.push(a).take(n0) =~= s.take(n0),
        s.push(a)[s.len() as int] == a,
        forall|k: int| 0 <= k < s.len() ==> s.push(a)[k] == s[k],
{
}

proof fn lemma_batch_total_push(acts: Seq<VacuumAction>, a: VacuumAction, k: int)
    requires
        0 <= k <= acts.len(),
    ensures
        batch_total(acts.push(a), k) == batch_total(acts, k),
    decreases k,
{
    if k > 0 {
        lemma_batch_total_push(acts, a, k - 1);
        assert(acts.push(a)[k - 1] == acts[k - 1]);
    }
}

/// Whether a file's age at `now_ms` meets the threshold.
pub fn is_expired(f: &TempFile, now_ms: u64, threshold_ms: u64) -> (r: bool)
    ensures
        r == expired(*f, now_ms, threshold_ms),
{
    threshold_ms <= now_ms && f.mtime_ms <= now_ms - threshold_ms
}

proof fn lemma_dir_removed_bytes_stable(
    files: Seq<TempFile>,
    now_ms: u64,
    thr_ms: u64,
    budget: int,
    j1: int,
    j2: int,
)
    requires
        0 <= j1 <= j2,
        expired_before(files, now_ms, thr_ms, j1) >= budget,
    ensures
        dir_removed_bytes(files, now_ms, thr_ms, budget, j2) == dir_removed_bytes(
            files,
            now_ms,
            thr_ms,
            budget,
            j1,
        ),
    decreases j2,
{
    if j1 < j2 {
        lemma_dir_removed_bytes_stable(files, now_ms, thr_ms, budget, j1, j2 - 1);
        lemma_expired_before_mono(files, now_ms, thr_ms, j1, j2 - 1);
    }
}

/// A bulk-delete step whose paths all belong to the sub-namespace at child
/// position `entry` and were removed by its sweep.
pub open spec fn dir_batch_paths_ok(
    a: VacuumAction,
    files: Seq<TempFile>,
    now_ms: u64,
    thr_ms: u64,
    budget: int,
    entry: usize,
) -> bool {
    &&& a is DeleteBatch
    &&& batch_sized(a)
    &&& forall|q: int|
        0 <= q < a->DeleteBatch_paths@.len() ==> {
            let p = #[trigger] a->DeleteBatch_paths@[q];
            &&& p is DirFile
            &&& p->DirFile_entry == entry
            &&& dir_file_removed(files, now_ms, thr_ms, budget, p->DirFile_file as int)
        }
}

/// Moves the accumulated paths into the plan as one bulk-delete step; an
/// empty accumulation issues nothing.
fn flush_batch(
    pending: Vec<RemovalPath>,
    pending_bytes: u64,
    cleaned_bytes: &mut u64,
    actions: &mut Vec<VacuumAction>,
) -> (fresh: Vec<RemovalPath>)
    requires
        *old(cleaned_bytes) + pending_bytes <= u64::MAX,
    ensures
        fresh@.len() == 0,
        pending@.len() == 0 ==> final(actions)@ == old(actions)@ && *final(cleaned_bytes) == *old(
            cleaned_bytes,
        ),
        pending@.len() > 0 ==> final(actions)@ == old(actions)@.push(
            (VacuumAction::DeleteBatch { paths: pending, bytes: pending_bytes }),
        ) && *final(cleaned_bytes) == *old(cleaned_bytes) + pending_bytes,
{
    if pending.len() > 0 {
        *cleaned_bytes = *cleaned_bytes + pending_bytes;
        actions.push(VacuumAction::DeleteBatch { paths: pending, bytes: pending_bytes });
        Vec::new()
    } else {
        pending
    }
}

/// Sweeps one sub-namespace (one temporary query's working directory):
/// removes its expired files in listing order while the global item budget
/// lasts, batching the deletions, and reports whether every file beneath it
/// was removed. The sentinel file itself is never part of the listing.
fn vacuum_finished_query(
    dir: &SubNamespace,
    entry: usize,
    now_ms: u64,
    thr_ms: u64,
    limit: usize,
    removed: &mut usize,
    cleaned_bytes: &mut u64,
    actions: &mut Vec<VacuumAction>,
) -> (all_removed: bool)
    requires
        *old(removed) <= limit,
        *old(cleaned_bytes) + files_bytes(dir.files@, dir.files@.len() as int) <= u64::MAX,
    ensures
        *final(removed) - *old(removed) == dir_removed_count(
            dir.files@,
            now_ms,
            thr_ms,
            limit - *old(removed),
        ),
        *old(removed) <= *final(removed) <= limit,
        *final(cleaned_bytes) - *old(cleaned_bytes) == dir_removed_bytes(
            dir.files@,
            now_ms,
            thr_ms,
            limit - *old(removed),
            dir.files@.len() as int,
        ),
        all_removed == dir_all_removed(dir.files@, now_ms, thr_ms, limit - *old(removed)),
        final(actions)@.len() >= old(actions)@.len(),
        final(actions)@.take(old(actions)@.len() as int) == old(actions)@,
        forall|k: int|
            old(actions)@.len() <= k < final(actions)@.len() ==> dir_batch_paths_ok(
                #[trigger] final(actions)@[k],
                dir.files@,
                now_ms,
                thr_ms,
                limit - *old(removed),
                entry,
            ),
        forall|j: usize|
            j < dir.files@.len() ==> (dir_file_removed(
                dir.files@,
                now_ms,
                thr_ms,
                limit - *old(removed),
                j as int,
            ) <==> actions_contain(
                final(actions)@.skip(old(actions)@.len() as int),
                RemovalPath::DirFile { entry, file: j },
            )),
        batch_total(final(actions)@, final(actions)@.len() as int) - batch_total(
            old(actions)@,
            old(actions)@.len() as int,
        ) == *final(removed) - *old(removed),
{
    let ghost files = dir.files@;
    let ghost n = files.len() as int;
    let ghost removed0 = *removed as int;
    let ghost cleaned0 = *cleaned_bytes as int;
    let ghost budget = limit - removed0;
    let ghost actions0 = actions@;
    let ghost n0 = actions0.len() as int;
    let mut pending: Vec<RemovalPath> = Vec::new();
    let mut pending_bytes: u64 = 0;
    let mut all_removed = true;
    let mut j: usize = 0;
    while j < dir.files.len() && *removed < limit
        invariant
            files == dir.files@,
            n == files.len() as int,
            j <= files.len(),
            budget == limit - removed0,
            removed0 <= *removed <= limit,
            cleaned0 <= *cleaned_bytes,
            cleaned0 + files_bytes(files, n) <= u64::MAX,
            *removed - removed0 == dir_removed_prefix_count(files, now_ms, thr_ms, budget, j as int),
            all_removed == (forall|jj: int|
                0 <= jj < j ==> dir_file_removed(files, now_ms, thr_ms, budget, jj)),
            *cleaned_bytes - cleaned0 + pending_bytes == dir_removed_bytes(
                files,
                now_ms,
                thr_ms,
                budget,
                j as int,
            ),
            n0 == actions0.len() as int,
            actions@.len() >= n0,
            actions@.take(n0) == actions0,
            forall|k: int|
                n0 <= k < actions@.len() ==> dir_batch_paths_ok(
                    #[trigger] actions@[k],
                    files,
                    now_ms,
                    thr_ms,
                    budget,
                    entry,
                ),
            forall|q: int|
                0 <= q < pending@.len() ==> {
                    let p = #[trigger] pending@[q];
                    &&& p is DirFile
                    &&& p->DirFile_entry == entry
                    &&& dir_file_removed(files, now_ms, thr_ms, budget, p->DirFile_file as int)
                },
            pending@.len() < DELETE_BATCH_CAP,
            pending@.len() == 0 ==> pending_bytes == 0,
            forall|jj: usize|
                jj < j && #[trigger] dir_file_removed(files, now_ms, thr_ms, budget, jj as int)
                    ==> pending@.contains(RemovalPath::DirFile { entry, file: jj })
                    || actions_contain(
                    actions@.skip(n0),
                    RemovalPath::DirFile { entry, file: jj },
                ),
            batch_total(actions@, actions@.len() as int) - batch_total(actions0, n0)
                + pending@.len() == *removed - removed0,
        decreases files.len() - j,
    {
        proof {
            lemma_expired_before_bounds(files, now_ms, thr_ms, j as int);
        }
        let f = dir.files[j];
        if is_expired(&f, now_ms, thr_ms) {
            proof {
                lemma_files_bytes_mono(files, j as int + 1, n);
                lemma_dir_removed_bytes_le(files, now_ms, thr_ms, budget, j as int);
                lemma_dir_removed_bytes_le(files, now_ms, thr_ms, budget, j as int + 1);
                lemma_files_bytes_nonneg(files, j as int);
                assert(files_bytes(files, j as int + 1) == files_bytes(files, j as int)
                    + f.bytes);
                assert(dir_file_removed(files, now_ms, thr_ms, budget, j as int));
                assert(dir_removed_bytes(files, now_ms, thr_ms, budget, j as int + 1)
                    == dir_removed_bytes(files, now_ms, thr_ms, budget, j as int) + f.bytes);
            }
            let ghost pend0 = pending@;
            pending.push(RemovalPath::DirFile { entry, file: j });
            proof {
                assert forall|p: RemovalPath| pend0.contains(p) implies pending@.contains(p) by {
                    let q = choose|q: int| 0 <= q < pend0.len() && pend0[q] == p;
                    assert(pending@[q] == p);
                }
                assert(pending@[pending@.len() - 1] == (RemovalPath::DirFile { entry, file: j }));
                assert(pending@.contains(RemovalPath::DirFile { entry, file: j }));
            }
            pending_bytes = pending_bytes + f.bytes;
            *removed = *removed + 1;
            if pending.len() >= DELETE_BATCH_CAP {
                let ghost acts_before = actions@;
                let ghost pend = pending@;
                pending = flush_batch(pending, pending_bytes, cleaned_bytes, actions);
                pending_bytes = 0;
                proof {
                    let a = actions@.last();
                    assert(acts_before.take(n0) =~= actions0);
                    assert(actions@ == acts_before.push(a));
                    lemma_take_of_push(acts_before, a, n0);
                    assert(actions@.len() == acts_before.len() + 1);
                    assert(actions@.take(n0) =~= actions0);
                    lemma_batch_total_push(acts_before, a, acts_before.len() as int);
                    assert(a->DeleteBatch_paths@ == pend);
                    assert forall|k: int|
                        n0 <= k < actions@.len() implies dir_batch_paths_ok(
                        #[trigger] actions@[k],
                        files,
                        now_ms,
                        thr_ms,
                        budget,
                        entry,
                    ) by {
                        if k < acts_before.len() {
                            assert(actions@[k] == acts_before[k]);
                        } else {
                            assert(actions@[k] == a);
                        }
                    }
                    assert forall|jj: usize|
                        jj < j + 1 && #[trigger] dir_file_removed(
                            files,
                            now_ms,
                            thr_ms,
                            budget,
                            jj as int,
                        ) implies actions_contain(
                        actions@.skip(n0),
                        RemovalPath::DirFile { entry, file: jj },
                    ) by {
                        let p = RemovalPath::DirFile { entry, file: jj };
                        if jj == j {
                            assert(pend[pend.len() - 1] == p);
                            assert(pend.contains(p));
                            let k = actions@.len() - 1;
                            assert(actions@.skip(n0)[k - n0] == actions@[k]);
                            assert(action_contains(actions@.skip(n0)[k - n0], p));
                        } else if pend0.contains(p) {
                            let q = choose|q: int| 0 <= q < pend0.len() && pend0[q] == p;
                            assert(pend[q] == p);
                            assert(pend.contains(p));
                            let k = actions@.len() - 1;
                            assert(actions@.skip(n0)[k - n0] == actions@[k]);
                            assert(action_contains(actions@.skip(n0)[k - n0], p));
                        } else {
                            assert(actions_contain(acts_before.skip(n0), p));
                            let k = choose|k: int|
                                0 <= k < acts_before.skip(n0).len() && action_contains(
                                    #[trigger] acts_before.skip(n0)[k],
                                    p,
                                );
                            assert(acts_before.skip(n0)[k] == acts_before[k + n0]);
                            assert(actions@[k + n0] == acts_before[k + n0]);
                            assert(actions@.skip(n0)[k] == actions@[k + n0]);
                            assert(action_contains(actions@.skip(n0)[k], p));
                        }
                    }
                }
            }
        } else {
            all_removed = false;
        }
        j = j + 1;
    }
    proof {
        lemma_expired_before_bounds(files, now_ms, thr_ms, j as int);
        lemma_dir_removed_count_is_prefix_count(files, now_ms, thr_ms, budget);
        if j < files.len() {
            // the budget ran out: nothing at or past position j is removed
            lemma_expired_before_mono(files, now_ms, thr_ms, j as int, n);
            lemma_dir_removed_bytes_stable(files, now_ms, thr_ms, budget, j as int, n);
            assert forall|jj: int| j <= jj < n implies !dir_file_removed(
                files,
                now_ms,
                thr_ms,
                budget,
                jj,
            ) by {
                lemma_expired_before_mono(files, now_ms, thr_ms, j as int, jj);
            }
        }
    }
    if j < dir.files.len() {
        all_removed = false;
    }
    proof {
        lemma_dir_removed_bytes_le(files, now_ms, thr_ms, budget, j as int);
        lemma_files_bytes_mono(files, j as int, n);
        lemma_files_bytes_nonneg(files, j as int);
    }
    let ghost acts_before = actions@;
    let ghost pend = pending@;
    pending = flush_batch(pending, pending_bytes, cleaned_bytes, actions);
    proof {
        if pend.len() > 0 {
            let a = actions@.last();
            assert(acts_before.take(n0) =~= actions0);
            assert(actions@ == acts_before.push(a));
            lemma_take_of_push(acts_before, a, n0);
            assert(actions@.len() == acts_before.len() + 1);
            assert(actions@.take(n0) =~= actions0);
            lemma_batch_total_push(acts_before, a, acts_before.len() as int);
            assert(a->DeleteBatch_paths@ == pend);
            assert forall|k: int|
                n0 <= k < actions@.len() implies dir_batch_paths_ok(
                #[trigger] actions@[k],
                files,
                now_ms,
                thr_ms,
                budget,
                entry,
            ) by {
                if k < acts_before.len() {
                    assert(actions@[k] == acts_before[k]);
                } else {
                    assert(actions@[k] == a);
                }
            }
        }
        assert forall|jj: usize|
            jj < files.len() && #[trigger] dir_file_removed(files, now_ms, thr_ms, budget, jj as int)
                implies actions_contain(
            actions@.skip(n0),
            RemovalPath::DirFile { entry, file: jj },
        ) by {
            let p = RemovalPath::DirFile { entry, file: jj };
            if jj >= j {
                lemma_expired_before_mono(files, now_ms, thr_ms, j as int, jj as int);
                assert(false);
            } else if pend.contains(p) {
                let k = actions@.len() - 1;
                assert(actions@.skip(n0)[k - n0] == actions@[k]);
                assert(action_contains(actions@.skip(n0)[k - n0], p));
            } else {
                assert(actions_contain(acts_before.skip(n0), p));
                let k = choose|k: int|
                    0 <= k < acts_before.skip(n0).len() && action_contains(
                        #[trigger] acts_before.skip(n0)[k],
                        p,
                    );
                assert(acts_before.skip(n0)[k] == acts_before[k + n0]);
                assert(actions@[k + n0] == acts_before[k + n0]);
                assert(actions@.skip(n0)[k] == actions@[k + n0]);
                assert(action_contains(actions@.skip(n0)[k], p));
            }
        }
        assert forall|jj: usize|
            jj < files.len() && actions_contain(
                actions@.skip(n0),
                RemovalPath::DirFile { entry, file: jj },
            ) implies dir_file_removed(files, now_ms, thr_ms, budget, jj as int) by {
            let p = RemovalPath::DirFile { entry, file: jj };
            let k = choose|k: int|
                0 <= k < actions@.skip(n0).len() && action_contains(
                    #[trigger] actions@.skip(n0)[k],
                    p,
                );
            assert(actions@.skip(n0)[k] == actions@[k + n0]);
            assert(dir_batch_paths_ok(actions@[k + n0], files, now_ms, thr_ms, budget, entry));
            let paths = actions@[k + n0]->DeleteBatch_paths@;
            let q = choose|q: int| 0 <= q < paths.len() && paths[q] == p;
            assert(dir_file_removed(files, now_ms, thr_ms, budget, paths[q]->DirFile_file as int));
        }
    }
    all_removed
}

/// The retention to apply: the caller's, or the default of three days.
pub fn effective_retention(retain_ms: Option<u64>) -> (r: u64)
    ensures
        r == spec_effective_retention(retain_ms),
{
    match retain_ms {
        Some(r) => r,
        None => DEFAULT_RETAIN_MS,
    }
}

proof fn lemma_dir_removed_bytes_zero_budget(
    files: Seq<TempFile>,
    now_ms: u64,
    thr_ms: u64,
    budget: int,
    j: int,
)
    requires
        budget <= 0,
    ensures
        dir_removed_bytes(files, now_ms, thr_ms, budget, j) == 0,
    decreases j,
{
    if j > 0 {
        lemma_dir_removed_bytes_zero_budget(files, now_ms, thr_ms, budget, j - 1);
        if dir_file_removed(files, now_ms, thr_ms, budget, j - 1) {
            lemma_expired_before_bounds(files, now_ms, thr_ms, j - 1);
        }
    }
}

proof fn lemma_sweep_saturated(
    ns: Seq<NamespaceEntry>,
    now_ms: u64,
    retain_ms: u64,
    limit: int,
    i1: int,
    i2: int,
)
    requires
        limit >= 0,
        0 <= i1 <= i2,
        used_after(ns, now_ms, retain_ms, limit, i1) == limit,
    ensures
        used_after(ns, now_ms, retain_ms, limit, i2) == limit,
        bytes_after(ns, now_ms, retain_ms, limit, i2) == bytes_after(ns, now_ms, retain_ms, limit, i1),
    decreases i2,
{
    if i1 < i2 {
        lemma_sweep_saturated(ns, now_ms, retain_ms, limit, i1, i2 - 1);
        lemma_entry_removed_count_bounds(ns[i2 - 1], now_ms, retain_ms, 0);
        match ns[i2 - 1] {
            NamespaceEntry::File(_) => {},
            NamespaceEntry::Dir(d) => {
                lemma_dir_removed_bytes_zero_budget(
                    d.files@,
                    now_ms,
                    dir_threshold(d, retain_ms),
                    0,
                    d.files@.len() as int,
                );
            },
        }
    }
}

/// Every path a bulk-delete step of the plan schedules is removed by the
/// sweep's policy.
pub open spec fn batch_paths_removed(
    a: VacuumAction,
    ns: Seq<NamespaceEntry>,
    now_ms: u64,
    retain_ms: u64,
    limit: int,
) -> bool {
    a is DeleteBatch ==> forall|q: int|
        0 <= q < a->DeleteBatch_paths@.len() ==> path_removed(
            ns,
            now_ms,
            retain_ms,
            limit,
            #[trigger] a->DeleteBatch_paths@[q],
        )
}

proof fn lemma_sentinel_safe_extend(
    acts: Seq<VacuumAction>,
    newacts: Seq<VacuumAction>,
    ns: Seq<NamespaceEntry>,
)
    requires
        sentinel_safe(acts, ns),
        newacts.len() >= acts.len(),
        newacts.take(acts.len() as int) == acts,
        forall|k: int| acts.len() <= k < newacts.len() ==> !(#[trigger] newacts[k] is DeleteDir),
    ensures
        sentinel_safe(newacts, ns),
{
    assert forall|k: int|
        (0 <= k < newacts.len() && #[trigger] newacts[k] is DeleteDir) implies {
        let entry = newacts[k]->DeleteDir_entry;
        &&& (entry as int) < ns.len()
        &&& ns[entry as int] is Dir
        &&& dir_cleared_before(newacts, k, entry, ns[entry as int]->Dir_0.files@.len() as int)
    } by {
        assert(newacts[k] == newacts.take(acts.len() as int)[k]);
        assert(acts[k] is DeleteDir);
        let entry = acts[k]->DeleteDir_entry;
        let nfiles = ns[entry as int]->Dir_0.files@.len() as int;
        assert forall|j: usize|
            0 <= j < nfiles implies #[trigger] actions_contain(
            newacts.take(k),
            RemovalPath::DirFile { entry, file: j },
        ) by {
            let p = RemovalPath::DirFile { entry, file: j };
            assert(actions_contain(acts.take(k), p));
            let b = choose|b: int|
                0 <= b < acts.take(k).len() && action_contains(#[trigger] acts.take(k)[b], p);
            assert(acts.take(k)[b] == acts[b]);
            assert(acts[b] == newacts.take(acts.len() as int)[b]);
            assert(newacts.take(k)[b] == newacts[b]);
            assert(action_contains(newacts.take(k)[b], p));
        }
    }
}

/// Sweeps a temporary-data namespace under an age-based retention policy and a
/// global item budget: plans the removal of every expired file (a sub-namespace
/// without its finished sentinel uses a threshold of zero for its contents) in
/// listing order until the budget is exhausted, batching bulk deletions, and
/// plans the deletion of a finished sub-namespace — sentinel last — exactly
/// when every file beneath it was removed. Returns the plan together with the
/// number of files removed and the bytes reclaimed; with a zero budget it
/// returns at once with an empty plan.
pub fn do_vacuum_temporary_files(
    entries: &Vec<NamespaceEntry>,
    retain_ms: Option<u64>,
    limit: usize,
    now_ms: u64,
) -> (r: SweepReport)
    requires
        namespace_bytes(entries@, entries@.len() as int) <= u64::MAX,
    ensures
        r.removed as int == total_removed(
            entries@,
            now_ms,
            spec_effective_retention(retain_ms),
            limit as int,
        ),
        r.removed <= limit,
        r.cleaned_bytes as int == total_cleaned_bytes(
            entries@,
            now_ms,
            spec_effective_retention(retain_ms),
            limit as int,
        ),
        forall|p: RemovalPath| #[trigger]
            actions_contain(r.actions@, p) <==> path_removed(
                entries@,
                now_ms,
                spec_effective_retention(retain_ms),
                limit as int,
                p,
            ),
        forall|k: int| 0 <= k < r.actions@.len() ==> batch_sized(#[trigger] r.actions@[k]),
        batch_total(r.actions@, r.actions@.len() as int) == r.removed as int,
        forall|k: int|
            (0 <= k < r.actions@.len() && #[trigger] r.actions@[k] is DeleteDir) ==> dir_deleted(
                entries@,
                now_ms,
                spec_effective_retention(retain_ms),
                limit as int,
                r.actions@[k]->DeleteDir_entry as int,
            ),
        forall|e: usize|
            e < entries@.len() && dir_deleted(
                entries@,
                now_ms,
                spec_effective_retention(retain_ms),
                limit as int,
                e as int,
            ) ==> exists|k: int|
                0 <= k < r.actions@.len() && #[trigger] r.actions@[k] == (VacuumAction::DeleteDir {
                    entry: e,
                }),
        sentinel_safe(r.actions@, entries@),
        limit == 0 ==> r.actions@.len() == 0,
{
    let retain = effective_retention(retain_ms);
    let ghost ns = entries@;
    let ghost nn = ns.len() as int;
    let ghost lim = limit as int;
    if limit == 0 {
        proof {
            lemma_sweep_saturated(ns, now_ms, retain, 0, 0, nn);
            assert forall|p: RemovalPath| !path_removed(ns, now_ms, retain, 0, p) by {
                match p {
                    RemovalPath::RootFile { entry } => {
                        if 0 <= entry < ns.len() {
                            lemma_used_after_bounds(ns, now_ms, retain, 0, entry as int);
                        }
                    },
                    RemovalPath::DirFile { entry, file } => {
                        if 0 <= entry < ns.len() && ns[entry as int] is Dir
                            && (file as int) < ns[entry as int]->Dir_0.files@.len() {
                            lemma_used_after_bounds(ns, now_ms, retain, 0, entry as int);
                            lemma_expired_before_bounds(
                                ns[entry as int]->Dir_0.files@,
                                now_ms,
                                dir_threshold(ns[entry as int]->Dir_0, retain),
                                file as int,
                            );
                        }
                    },
                }
            }
            assert forall|e: usize| !dir_deleted(ns, now_ms, retain, 0, e as int) by {
                if e < ns.len() {
                    lemma_used_after_bounds(ns, now_ms, retain, 0, e as int);
                }
            }
        }
        return SweepReport { removed: 0, cleaned_bytes: 0, actions: Vec::new() };
    }
    let mut removed: usize = 0;
    let mut cleaned_bytes: u64 = 0;
    let mut actions: Vec<VacuumAction> = Vec::new();
    let mut pending: Vec<RemovalPath> = Vec::new();
    let mut pending_bytes: u64 = 0;
    let mut i: usize = 0;
    while i < entries.len() && removed < limit
        invariant
            ns == entries@,
            nn == ns.len() as int,
            lim == limit as int,
            retain == spec_effective_retention(retain_ms),
            namespace_bytes(ns, nn) <= u64::MAX,
            i <= entries@.len(),
            removed <= limit,
            removed as int == used_after(ns, now_ms, retain, lim, i as int),
            cleaned_bytes + pending_bytes == bytes_after(ns, now_ms, retain, lim, i as int),
            forall|q: int|
                0 <= q < pending@.len() ==> path_removed(
                    ns,
                    now_ms,
                    retain,
                    lim,
                    #[trigger] pending@[q],
                ),
            pending@.len() < DELETE_BATCH_CAP,
            pending@.len() == 0 ==> pending_bytes == 0,
            forall|k: int| 0 <= k < actions@.len() ==> batch_sized(#[trigger] actions@[k]),
            forall|k: int|
                0 <= k < actions@.len() ==> batch_paths_removed(
                    #[trigger] actions@[k],
                    ns,
                    now_ms,
                    retain,
                    lim,
                ),
            forall|p: RemovalPath|
                #[trigger] path_removed(ns, now_ms, retain, lim, p) && path_entry(p) < i
                    ==> pending@.contains(p) || actions_contain(actions@, p),
            batch_total(actions@, actions@.len() as int) + pending@.len() == removed as int,
            forall|k: int|
                (0 <= k < actions@.len() && #[trigger] actions@[k] is DeleteDir) ==> dir_deleted(
                    ns,
                    now_ms,
                    retain,
                    lim,
                    actions@[k]->DeleteDir_entry as int,
                ) && actions@[k]->DeleteDir_entry < i,
            forall|e: usize|
                e < i && dir_deleted(ns, now_ms, retain, lim, e as int) ==> exists|k: int|
                    0 <= k < actions@.len() && #[trigger] actions@[k]
                        == (VacuumAction::DeleteDir { entry: e }),
            sentinel_safe(actions@, ns),
        decreases entries@.len() - i,
    {
        let ghost u = used_after(ns, now_ms, retain, lim, i as int);
        let ghost by0 = bytes_after(ns, now_ms, retain, lim, i as int);
        proof {
            lemma_bytes_after_le(ns, now_ms, retain, lim, i as int);
            lemma_bytes_after_le(ns, now_ms, retain, lim, i as int + 1);
            lemma_namespace_bytes_mono(ns, i as int + 1, nn);
            assert(used_after(ns, now_ms, retain, lim, i as int + 1) == u + entry_removed_count(
                ns[i as int],
                now_ms,
                retain,
                lim - u,
            ));
            assert(bytes_after(ns, now_ms, retain, lim, i as int + 1) == by0 + entry_removed_bytes(
                ns[i as int],
                now_ms,
                retain,
                lim - u,
            ));
        }
        match &entries[i] {
            NamespaceEntry::File(f) => {
                if is_expired(f, now_ms, retain) {
                    let ghost pend0 = pending@;
                    pending.push(RemovalPath::RootFile { entry: i });
                    proof {
                        assert forall|p: RemovalPath| pend0.contains(p) implies pending@.contains(
                            p,
                        ) by {
                            let q = choose|q: int| 0 <= q < pend0.len() && pend0[q] == p;
                            assert(pending@[q] == p);
                        }
                        assert(pending@[pending@.len() - 1] == (RemovalPath::RootFile {
                            entry: i,
                        }));
                        assert(pending@.contains(RemovalPath::RootFile { entry: i }));
                        assert(root_file_removed(ns, now_ms, retain, lim, i as int));
                    }
                    pending_bytes = pending_bytes + f.bytes;
                    removed = removed + 1;
                    if pending.len() >= DELETE_BATCH_CAP {
                        let ghost acts_before = actions@;
                        let ghost pend = pending@;
                        pending = flush_batch(pending, pending_bytes, &mut cleaned_bytes, &mut actions);
                        pending_bytes = 0;
                        proof {
                            let a = actions@.last();
                            assert(actions@ == acts_before.push(a));
                            lemma_take_of_push(acts_before, a, acts_before.len() as int);
                            assert(actions@.len() == acts_before.len() + 1);
                            assert(acts_before.take(acts_before.len() as int) =~= acts_before);
                            assert(actions@.take(acts_before.len() as int) =~= acts_before);
                            lemma_batch_total_push(acts_before, a, acts_before.len() as int);
                            assert(a->DeleteBatch_paths@ == pend);
                            assert(batch_sized(a));
                            assert(batch_paths_removed(a, ns, now_ms, retain, lim));
                            assert forall|k: int|
                                0 <= k < actions@.len() implies batch_sized(#[trigger] actions@[k])
                                && batch_paths_removed(actions@[k], ns, now_ms, retain, lim) by {
                                if k < acts_before.len() {
                                    assert(actions@[k] == acts_before[k]);
                                } else {
                                    assert(actions@[k] == a);
                                }
                            }
                            assert forall|p: RemovalPath|
                                pend.contains(p) implies actions_contain(actions@, p) by {
                                let k = actions@.len() - 1;
                                assert(action_contains(actions@[k], p));
                            }
                            assert forall|p: RemovalPath|
                                actions_contain(acts_before, p) implies actions_contain(
                                actions@,
                                p,
                            ) by {
                                let k = choose|k: int|
                                    0 <= k < acts_before.len() && action_contains(
                                        #[trigger] acts_before[k],
                                        p,
                                    );
                                assert(actions@[k] == acts_before[k]);
                                assert(action_contains(actions@[k], p));
                            }
                            lemma_sentinel_safe_extend(acts_before, actions@, ns);
                            assert forall|k: int|
                                (0 <= k < actions@.len() && #[trigger] actions@[k] is DeleteDir)
                                    implies dir_deleted(
                                    ns,
                                    now_ms,
                                    retain,
                                    lim,
                                    actions@[k]->DeleteDir_entry as int,
                                ) && actions@[k]->DeleteDir_entry < i + 1 by {
                                if k == acts_before.len() {
                                    assert(actions@[k] == a);
                                    assert(!(a is DeleteDir));
                                } else {
                                    assert(actions@[k] == acts_before[k]);
                                }
                            }
                            assert forall|e: usize|
                                e < i && dir_deleted(ns, now_ms, retain, lim, e as int) implies
                                exists|k: int|
                                    0 <= k < actions@.len() && #[trigger] actions@[k]
                                        == (VacuumAction::DeleteDir { entry: e }) by {
                                let k = choose|k: int|
                                    0 <= k < acts_before.len() && #[trigger] acts_before[k]
                                        == (VacuumAction::DeleteDir { entry: e });
                                assert(actions@[k] == (VacuumAction::DeleteDir { entry: e }));
                            }
                        }
                    }
                }
                i = i + 1;
            },
            NamespaceEntry::Dir(d) => {
                let thr = if d.finished {
                    retain
                } else {
                    0
                };
                let ghost acts_before = actions@;
                let ghost removed_before = removed as int;
                proof {
                    assert(files_bytes(d.files@, d.files@.len() as int) <= namespace_bytes(
                        ns,
                        i as int + 1,
                    ) - namespace_bytes(ns, i as int));
                    lemma_namespace_bytes_mono(ns, 0, i as int);
                    lemma_files_bytes_nonneg(d.files@, d.files@.len() as int);
                }
                let all_removed = vacuum_finished_query(
                    d,
                    i,
                    now_ms,
                    thr,
                    limit,
                    &mut removed,
                    &mut cleaned_bytes,
                    &mut actions,
                );
                proof {
                    let budget = lim - removed_before;
                    assert(thr == dir_threshold(*d, retain));
                    lemma_dir_removed_count_is_prefix_count(d.files@, now_ms, thr, budget);
                    assert(acts_before.take(acts_before.len() as int) =~= acts_before);
                    // paths queued by the sub-namespace sweep are removed paths
                    assert forall|k: int|
                        acts_before.len() <= k < actions@.len() implies batch_paths_removed(
                        #[trigger] actions@[k],
                        ns,
                        now_ms,
                        retain,
                        lim,
                    ) && batch_sized(actions@[k]) by {
                        assert(dir_batch_paths_ok(actions@[k], d.files@, now_ms, thr, budget, i));
                        assert forall|q: int|
                            0 <= q < actions@[k]->DeleteBatch_paths@.len() implies path_removed(
                            ns,
                            now_ms,
                            retain,
                            lim,
                            #[trigger] actions@[k]->DeleteBatch_paths@[q],
                        ) by {
                            let p = actions@[k]->DeleteBatch_paths@[q];
                            assert(dir_file_removed(
                                d.files@,
                                now_ms,
                                thr,
                                budget,
                                p->DirFile_file as int,
                            ));
                            assert(ns[i as int] is Dir && ns[i as int]->Dir_0 == *d);
                        }
                    }
                    // everything previously planned stays planned
                    assert forall|k: int|
                        0 <= k < acts_before.len() implies actions@[k] == acts_before[k] by {
                        assert(actions@.take(acts_before.len() as int)[k] == actions@[k]);
                    }
                    assert forall|p: RemovalPath|
                        actions_contain(acts_before, p) implies actions_contain(actions@, p) by {
                        let k = choose|k: int|
                            0 <= k < acts_before.len() && action_contains(
                                #[trigger] acts_before[k],
                                p,
                            );
                        assert(action_contains(actions@[k], p));
                    }
                    // newly planned sub-namespace paths are reachable
                    assert forall|jj: usize|
                        jj < d.files@.len() && #[trigger] dir_file_removed(
                            d.files@,
                            now_ms,
                            thr,
                            budget,
                            jj as int,
                        ) implies actions_contain(
                        actions@,
                        RemovalPath::DirFile { entry: i, file: jj },
                    ) by {
                        let p = RemovalPath::DirFile { entry: i, file: jj };
                        assert(actions_contain(actions@.skip(acts_before.len() as int), p));
                        let k = choose|k: int|
                            0 <= k < actions@.skip(acts_before.len() as int).len()
                                && action_contains(
                                #[trigger] actions@.skip(acts_before.len() as int)[k],
                                p,
                            );
                        assert(actions@.skip(acts_before.len() as int)[k] == actions@[k
                            + acts_before.len()]);
                        assert(action_contains(actions@[k + acts_before.len()], p));
                    }
                    lemma_sentinel_safe_extend(acts_before, actions@, ns);
                }
                if all_removed && d.finished {
                    let ghost acts_mid = actions@;
                    actions.push(VacuumAction::DeleteDir { entry: i });
                    proof {
                        let budget = lim - removed_before;
                        let a = VacuumAction::DeleteDir { entry: i };
                        assert(actions@ == acts_mid.push(a));
                        lemma_take_of_push(acts_mid, a, acts_mid.len() as int);
                        lemma_batch_total_push(acts_mid, a, acts_mid.len() as int);
                        assert(dir_deleted(ns, now_ms, retain, lim, i as int));
                        assert forall|p: RemovalPath|
                            actions_contain(acts_mid, p) implies actions_contain(actions@, p) by {
                            let k = choose|k: int|
                                0 <= k < acts_mid.len() && action_contains(
                                    #[trigger] acts_mid[k],
                                    p,
                                );
                            assert(actions@[k] == acts_mid[k]);
                            assert(action_contains(actions@[k], p));
                        }
                        // the new step deletes the sub-namespace only after all
                        // of its files were scheduled in earlier steps
                        let kd = actions@.len() - 1;
                        assert(actions@.take(kd) =~= acts_mid);
                        assert forall|jj: usize|
                            0 <= jj < d.files@.len() implies #[trigger] actions_contain(
                            actions@.take(kd),
                            RemovalPath::DirFile { entry: i, file: jj },
                        ) by {
                            assert(dir_file_removed(d.files@, now_ms, thr, budget, jj as int));
                            assert(actions_contain(acts_mid, RemovalPath::DirFile {
                                entry: i,
                                file: jj,
                            }));
                        }
                        assert(dir_cleared_before(actions@, kd, i, d.files@.len() as int));
                        assert forall|k: int|
                            (0 <= k < actions@.len() && #[trigger] actions@[k] is DeleteDir)
                                implies {
                            let entry = actions@[k]->DeleteDir_entry;
                            &&& (entry as int) < ns.len()
                            &&& ns[entry as int] is Dir
                            &&& dir_cleared_before(
                                actions@,
                                k,
                                entry,
                                ns[entry as int]->Dir_0.files@.len() as int,
                            )
                        } by {
                            if k < acts_mid.len() {
                                assert(actions@[k] == acts_mid[k]);
                                let entry = acts_mid[k]->DeleteDir_entry;
                                let nfiles = ns[entry as int]->Dir_0.files@.len() as int;
                                assert forall|jj: usize|
                                    0 <= jj < nfiles implies #[trigger] actions_contain(
                                    actions@.take(k),
                                    RemovalPath::DirFile { entry, file: jj },
                                ) by {
                                    let p = RemovalPath::DirFile { entry, file: jj };
                                    assert(actions_contain(acts_mid.take(k), p));
                                    let b = choose|b: int|
                                        0 <= b < acts_mid.take(k).len() && action_contains(
                                            #[trigger] acts_mid.take(k)[b],
                                            p,
                                        );
                                    assert(acts_mid.take(k)[b] == acts_mid[b]);
                                    assert(actions@[b] == acts_mid[b]);
                                    assert(actions@.take(k)[b] == actions@[b]);
                                    assert(action_contains(actions@.take(k)[b], p));
                                }
                            } else {
                                assert(actions@[k] == a);
                            }
                        }
                        assert(sentinel_safe(actions@, ns));
                    }
                }
                proof {
                    if !(all_removed && d.finished) {
                        assert(!dir_deleted(ns, now_ms, retain, lim, i as int));
                    }
                    let budget = lim - removed_before;
                    assert forall|k: int|
                        0 <= k < actions@.len() implies batch_sized(#[trigger] actions@[k])
                        && batch_paths_removed(actions@[k], ns, now_ms, retain, lim)
                        && ((actions@[k] is DeleteDir) ==> dir_deleted(
                            ns,
                            now_ms,
                            retain,
                            lim,
                            actions@[k]->DeleteDir_entry as int,
                        ) && actions@[k]->DeleteDir_entry < i + 1) by {
                        if k < acts_before.len() {
                            assert(actions@[k] == acts_before[k]);
                        } else if all_removed && d.finished && k == actions@.len() - 1 {
                            assert(actions@[k] == (VacuumAction::DeleteDir { entry: i }));
                        } else {
                            assert(dir_batch_paths_ok(
                                actions@[k],
                                d.files@,
                                now_ms,
                                thr,
                                budget,
                                i,
                            ));
                        }
                    }
                    assert forall|e: usize|
                        e < i + 1 && dir_deleted(ns, now_ms, retain, lim, e as int) implies exists|
                            k: int,
                        |
                            0 <= k < actions@.len() && #[trigger] actions@[k]
                                == (VacuumAction::DeleteDir { entry: e }) by {
                        if e == i {
                            let k = actions@.len() - 1;
                            assert(actions@[k] == (VacuumAction::DeleteDir { entry: e }));
                        } else {
                            let k = choose|k: int|
                                0 <= k < acts_before.len() && #[trigger] acts_before[k]
                                    == (VacuumAction::DeleteDir { entry: e });
                            assert(actions@[k] == acts_before[k]);
                        }
                    }
                }
                i = i + 1;
            },
        }
    }
    proof {
        if i < entries@.len() {
            lemma_sweep_saturated(ns, now_ms, retain, lim, i as int, nn);
        }
        lemma_bytes_after_le(ns, now_ms, retain, lim, i as int);
        lemma_namespace_bytes_mono(ns, i as int, nn);
    }
    let ghost acts_before = actions@;
    let ghost pend = pending@;
    pending = flush_batch(pending, pending_bytes, &mut cleaned_bytes, &mut actions);
    proof {
        if pend.len() > 0 {
            let a = actions@.last();
            assert(actions@ == acts_before.push(a));
            lemma_take_of_push(acts_before, a, acts_before.len() as int);
            assert(acts_before.take(acts_before.len() as int) =~= acts_before);
            assert(actions@.take(acts_before.len() as int) =~= acts_before);
            lemma_batch_total_push(acts_before, a, acts_before.len() as int);
            assert(a->DeleteBatch_paths@ == pend);
            assert(batch_sized(a));
            assert(batch_paths_removed(a, ns, now_ms, retain, lim));
            assert forall|k: int|
                0 <= k < actions@.len() implies batch_sized(#[trigger] actions@[k])
                && batch_paths_removed(actions@[k], ns, now_ms, retain, lim) by {
                if k < acts_before.len() {
                    assert(actions@[k] == acts_before[k]);
                } else {
                    assert(actions@[k] == a);
                }
            }
            assert forall|p: RemovalPath| pend.contains(p) implies actions_contain(actions@, p) by {
                let k = actions@.len() - 1;
                assert(action_contains(actions@[k], p));
            }
            assert forall|p: RemovalPath|
                actions_contain(acts_before, p) implies actions_contain(actions@, p) by {
                let k = choose|k: int|
                    0 <= k < acts_before.len() && action_contains(#[trigger] acts_before[k], p);
                assert(actions@[k] == acts_before[k]);
                assert(action_contains(actions@[k], p));
            }
            lemma_sentinel_safe_extend(acts_before, actions@, ns);
            assert forall|k: int|
                (0 <= k < actions@.len() && #[trigger] actions@[k] is DeleteDir) implies
                dir_deleted(ns, now_ms, retain, lim, actions@[k]->DeleteDir_entry as int) by {
                assert(k < acts_before.len());
                assert(actions@[k] == acts_before[k]);
            }
        }
        // every planned path is a removed path; every removed path is planned
        assert forall|p: RemovalPath|
            #[trigger] actions_contain(actions@, p) implies path_removed(
            ns,
            now_ms,
            retain,
            lim,
            p,
        ) by {
            let k = choose|k: int|
                0 <= k < actions@.len() && action_contains(#[trigger] actions@[k], p);
            assert(batch_paths_removed(actions@[k], ns, now_ms, retain, lim));
            let paths = actions@[k]->DeleteBatch_paths@;
            let q = choose|q: int| 0 <= q < paths.len() && paths[q] == p;
            assert(path_removed(ns, now_ms, retain, lim, paths[q]));
        }
        assert forall|p: RemovalPath|
            #[trigger] path_removed(ns, now_ms, retain, lim, p) implies actions_contain(
            actions@,
            p,
        ) by {
            if path_entry(p) >= i {
                lemma_used_after_bounds(ns, now_ms, retain, lim, path_entry(p) as int);
                match p {
                    RemovalPath::RootFile { entry } => {
                        lemma_sweep_saturated(ns, now_ms, retain, lim, i as int, entry as int);
                    },
                    RemovalPath::DirFile { entry, file } => {
                        lemma_sweep_saturated(ns, now_ms, retain, lim, i as int, entry as int);
                        lemma_expired_before_bounds(
                            ns[entry as int]->Dir_0.files@,
                            now_ms,
                            dir_threshold(ns[entry as int]->Dir_0, retain),
                            file as int,
                        );
                    },
                }
                assert(false);
            }
        }
        assert forall|e: usize|
            e < entries@.len() && dir_deleted(ns, now_ms, retain, lim, e as int) implies exists|
                k: int,
            |
                0 <= k < actions@.len() && #[trigger] actions@[k] == (VacuumAction::DeleteDir {
                    entry: e,
                }) by {
            if e >= i {
                lemma_sweep_saturated(ns, now_ms, retain, lim, i as int, e as int);
                assert(false);
            } else {
                let k = choose|k: int|
                    0 <= k < acts_before.len() && #[trigger] acts_before[k]
                        == (VacuumAction::DeleteDir { entry: e });
                assert(actions@[k] == (VacuumAction::DeleteDir { entry: e }));
            }
        }
    }
    SweepReport { removed, cleaned_bytes, actions }
}

/// The child position a removal path belongs to.
pub open spec fn path_entry(p: RemovalPath) -> usize {
    match p {
        RemovalPath::RootFile { entry } => entry,
        RemovalPath::DirFile { entry, .. } => entry,
    }
}

proof fn lemma_file_count_mono(ns: Seq<NamespaceEntry>, i1: int, i2: int)
    requires
        0 <= i1 <= i2,
    ensures
        namespace_file_count(ns, i1) <= namespace_file_count(ns, i2),
    decreases i2,
{
    if i1 < i2 {
        lemma_file_count_mono(ns, i1, i2 - 1);
    }
}

proof fn lemma_used_le_file_count(
    ns: Seq<NamespaceEntry>,
    now_ms: u64,
    retain_ms: u64,
    limit: int,
    i: int,
)
    ensures
        used_after(ns, now_ms, retain_ms, limit, i) <= namespace_file_count(ns, i),
    decreases i,
{
    if i > 0 {
        lemma_used_le_file_count(ns, now_ms, retain_ms, limit, i - 1);
        let u = used_after(ns, now_ms, retain_ms, limit, i - 1);
        match ns[i - 1] {
            NamespaceEntry::File(_) => {},
            NamespaceEntry::Dir(d) => {
                lemma_expired_before_bounds(
                    d.files@,
                    now_ms,
                    dir_threshold(d, retain_ms),
                    d.files@.len() as int,
                );
            },
        }
    }
}

/// Law (unlimited sweep reclaims everything due): with a budget larger than
/// the number of files in the namespace, a path is removed exactly when its
/// file is expired under its entry's threshold, and a sub-namespace is
/// deleted exactly when it is marked finished and every file beneath it is
/// expired. The survivors of such a sweep are therefore exactly the
/// unexpired files, with every finished flag unchanged.
pub proof fn lemma_unlimited_sweep_exhaustive(
    ns: Seq<NamespaceEntry>,
    now_ms: u64,
    retain_ms: u64,
    limit: int,
)
    requires
        limit > namespace_file_count(ns, ns.len() as int),
    ensures
        forall|i: int|
            0 <= i < ns.len() && ns[i] is File ==> (root_file_removed(
                ns,
                now_ms,
                retain_ms,
                limit,
                i,
            ) <==> expired(ns[i]->File_0, now_ms, retain_ms)),
        forall|i: int, j: int|
            0 <= i < ns.len() && ns[i] is Dir && 0 <= j < ns[i]->Dir_0.files@.len()
                ==> (dir_file_removed(
                ns[i]->Dir_0.files@,
                now_ms,
                dir_threshold(ns[i]->Dir_0, retain_ms),
                limit - used_after(ns, now_ms, retain_ms, limit, i),
                j,
            ) <==> expired(
                ns[i]->Dir_0.files@[j],
                now_ms,
                dir_threshold(ns[i]->Dir_0, retain_ms),
            )),
        forall|i: int|
            0 <= i < ns.len() ==> (dir_deleted(ns, now_ms, retain_ms, limit, i) <==> (ns[i] is Dir
                && ns[i]->Dir_0.finished && forall|j: int|
                0 <= j < ns[i]->Dir_0.files@.len() ==> expired(
                    ns[i]->Dir_0.files@[j],
                    now_ms,
                    dir_threshold(ns[i]->Dir_0, retain_ms),
                ))),
{
    assert forall|i: int| 0 <= i < ns.len() implies limit - used_after(
        ns,
        now_ms,
        retain_ms,
        limit,
        i,
    ) > namespace_file_count(ns, i + 1) - namespace_file_count(ns, i) by {
        lemma_used_le_file_count(ns, now_ms, retain_ms, limit, i);
        lemma_file_count_mono(ns, i + 1, ns.len() as int);
    }
    assert forall|i: int, j: int|
        0 <= i < ns.len() && ns[i] is Dir && 0 <= j < ns[i]->Dir_0.files@.len() implies (
    dir_file_removed(
        ns[i]->Dir_0.files@,
        now_ms,
        dir_threshold(ns[i]->Dir_0, retain_ms),
        limit - used_after(ns, now_ms, retain_ms, limit, i),
        j,
    ) <==> expired(ns[i]->Dir_0.files@[j], now_ms, dir_threshold(ns[i]->Dir_0, retain_ms))) by {
        lemma_expired_before_bounds(
            ns[i]->Dir_0.files@,
            now_ms,
            dir_threshold(ns[i]->Dir_0, retain_ms),
            j,
        );
    }
}

proof fn lemma_expired_before_zero(files: Seq<TempFile>, now_ms: u64, thr_ms: u64, j: int)
    requires
        0 <= j <= files.len(),
        forall|q: int| 0 <= q < files.len() ==> !expired(#[trigger] files[q], now_ms, thr_ms),
    ensures
        expired_before(files, now_ms, thr_ms, j) == 0,
    decreases j,
{
    if j > 0 {
        lemma_expired_before_zero(files, now_ms, thr_ms, j - 1);
    }
}

proof fn lemma_clean_used_zero(
    ns: Seq<NamespaceEntry>,
    now_ms: u64,
    retain_ms: u64,
    limit: int,
    i: int,
)
    requires
        0 <= i <= ns.len(),
        forall|q: int|
            0 <= q < ns.len() && ns[q] is File ==> !expired(
                #[trigger] ns[q]->File_0,
                now_ms,
                retain_ms,
            ),
        forall|q: int, j: int|
            0 <= q < ns.len() && ns[q] is Dir && 0 <= j < ns[q]->Dir_0.files@.len() ==> !expired(
                #[trigger] ns[q]->Dir_0.files@[j],
                now_ms,
                dir_threshold(ns[q]->Dir_0, retain_ms),
            ),
    ensures
        used_after(ns, now_ms, retain_ms, limit, i) == 0,
        bytes_after(ns, now_ms, retain_ms, limit, i) == 0,
    decreases i,
{
    if i > 0 {
        lemma_clean_used_zero(ns, now_ms, retain_ms, limit, i - 1);
        match ns[i - 1] {
            NamespaceEntry::File(_) => {},
            NamespaceEntry::Dir(d) => {
                let thr = dir_threshold(d, retain_ms);
                lemma_expired_before_zero(d.files@, now_ms, thr, d.files@.len() as int);
                assert forall|j: int|
                    0 <= j < d.files@.len() implies !dir_file_removed(
                    d.files@,
                    now_ms,
                    thr,
                    limit,
                    j,
                ) by {
                    assert(!expired(d.files@[j], now_ms, thr));
                }
                lemma_dir_removed_bytes_none(d.files@, now_ms, thr, limit, d.files@.len() as int);
            },
        }
    }
}

proof fn lemma_dir_removed_bytes_none(
    files: Seq<TempFile>,
    now_ms: u64,
    thr_ms: u64,
    budget: int,
    j: int,
)
    requires
        0 <= j <= files.len(),
        forall|q: int| 0 <= q < files.len() ==> !expired(#[trigger] files[q], now_ms, thr_ms),
    ensures
        dir_removed_bytes(files, now_ms, thr_ms, budget, j) == 0,
    decreases j,
{
    if j > 0 {
        lemma_dir_removed_bytes_none(files, now_ms, thr_ms, budget, j - 1);
    }
}

/// Law (idempotence): sweeping a namespace in which no file is expired —
/// which, by `lemma_unlimited_sweep_exhaustive`, is exactly the state an
/// unlimited sweep leaves behind under the same clock and retention, with
/// every surviving finished sub-namespace still holding at least one file —
/// removes nothing and deletes no sub-namespace. A second sweep run straight
/// after an unlimited first one therefore removes zero additional items.
pub proof fn lemma_sweep_idempotent(
    ns: Seq<NamespaceEntry>,
    now_ms: u64,
    retain_ms: u64,
    limit: int,
)
    requires
        forall|q: int|
            0 <= q < ns.len() && ns[q] is File ==> !expired(
                #[trigger] ns[q]->File_0,
                now_ms,
                retain_ms,
            ),
        forall|q: int, j: int|
            0 <= q < ns.len() && ns[q] is Dir && 0 <= j < ns[q]->Dir_0.files@.len() ==> !expired(
                #[trigger] ns[q]->Dir_0.files@[j],
                now_ms,
                dir_threshold(ns[q]->Dir_0, retain_ms),
            ),
        forall|q: int|
            0 <= q < ns.len() && ns[q] is Dir && ns[q]->Dir_0.finished
                ==> ns[q]->Dir_0.files@.len() > 0,
    ensures
        total_removed(ns, now_ms, retain_ms, limit) == 0,
        total_cleaned_bytes(ns, now_ms, retain_ms, limit) == 0,
        forall|p: RemovalPath| !path_removed(ns, now_ms, retain_ms, limit, p),
        forall|e: int| 0 <= e < ns.len() ==> !dir_deleted(ns, now_ms, retain_ms, limit, e),
{
    lemma_clean_used_zero(ns, now_ms, retain_ms, limit, ns.len() as int);
    assert forall|p: RemovalPath| !path_removed(ns, now_ms, retain_ms, limit, p) by {
        match p {
            RemovalPath::RootFile { entry } => {
                if 0 <= entry < ns.len() && ns[entry as int] is File {
                    assert(!expired(ns[entry as int]->File_0, now_ms, retain_ms));
                }
            },
            RemovalPath::DirFile { entry, file } => {
                if 0 <= entry < ns.len() && ns[entry as int] is Dir && (file as int) < ns[entry
                    as int]->Dir_0.files@.len() {
                    assert(!expired(
                        ns[entry as int]->Dir_0.files@[file as int],
                        now_ms,
                        dir_threshold(ns[entry as int]->Dir_0, retain_ms),
                    ));
                }
            },
        }
    }
    assert forall|e: int| 0 <= e < ns.len() implies !dir_deleted(
        ns,
        now_ms,
        retain_ms,
        limit,
        e,
    ) by {
        if ns[e] is Dir && ns[e]->Dir_0.finished {
            let d = ns[e]->Dir_0;
            assert(ns[e]->Dir_0.files@.len() > 0);
            assert(!expired(d.files@[0], now_ms, dir_threshold(d, retain_ms)));
            assert(!dir_file_removed(
                d.files@,
                now_ms,
                dir_threshold(d, retain_ms),
                limit - used_after(ns, now_ms, retain_ms, limit, e),
                0,
            ));
        }
    }
}

} // verus!
