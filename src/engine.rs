//! The engine: the cache of one root directory and the operations on it.
//! Reading, deleting and walking files is done by the caller, who hands the
//! outcomes over as plain values.
use vstd::prelude::*;
use vstd::string::*;
use crate::cache::{DocumentCache, WalkEntry, docs_view, eligible_docs};
use crate::clock::{Timestamp, now};
use crate::format::{decimal, decimal_string};
use crate::scorer::chars_of;
use crate::search::{Document, SearchScan};
use crate::scorer::lower_of;

verus! {

/// The outcome of adding a document.
#[derive(Debug)]
pub struct IndexResult {
    pub success: bool,
    pub document_id: String,
    pub path: String,
    pub indexed_at: Timestamp,
    pub message: String,
}

/// Size and freshness of the cache.
#[derive(Debug)]
pub struct Stats {
    pub total_documents: usize,
    pub index_size_bytes: u64,
    pub last_updated: Timestamp,
    pub index_path: String,
}

/// Health of the root directory with the figures of `Stats`.
#[derive(Debug)]
pub struct Status {
    pub index_exists: bool,
    pub index_healthy: bool,
    pub total_documents: usize,
    pub index_size_bytes: u64,
    pub last_updated: Timestamp,
}

/// The outcome of a maintenance task.
#[derive(Debug)]
pub struct MaintenanceResult {
    pub task: String,
    pub success: bool,
    pub message: String,
    pub executed_at: Timestamp,
}

/// A maintenance task, recognised by its name.
#[derive(Debug)]
pub enum Task {
    Cleanup,
    UpdateStats,
    ClearAll,
    Unknown(String),
}

pub open spec fn cleanup_name() -> Seq<char> {
    seq!['c', 'l', 'e', 'a', 'n', 'u', 'p']
}

pub open spec fn update_stats_name() -> Seq<char> {
    seq!['u', 'p', 'd', 'a', 't', 'e', '-', 's', 't', 'a', 't', 's']
}

pub open spec fn clear_all_name() -> Seq<char> {
    seq!['c', 'l', 'e', 'a', 'r', '-', 'a', 'l', 'l']
}

/// The kind of task a name stands for: 0 cleanup, 1 update-stats, 2 clear-all, 3 unknown.
pub open spec fn task_kind(name: Seq<char>) -> int {
    if name == cleanup_name() {
        0
    } else if name == update_stats_name() {
        1
    } else if name == clear_all_name() {
        2
    } else {
        3
    }
}

pub open spec fn kind_of(t: Task) -> int {
    match t {
        Task::Cleanup => 0,
        Task::UpdateStats => 1,
        Task::ClearAll => 2,
        Task::Unknown(_) => 3,
    }
}

fn same_chars(a: &Vec<char>, b: &Vec<char>) -> (r: bool)
    ensures
        r == (a@ == b@),
{
    if a.len() != b.len() {
        return false;
    }
    let mut i: usize = 0;
    while i < a.len()
        invariant
            a@.len() == b@.len(),
            i <= a@.len(),
            forall|j: int| 0 <= j < i ==> a@[j] == b@[j],
        decreases a@.len() - i,
    {
        if a[i] != b[i] {
            return false;
        }
        i = i + 1;
    }
    assert(a@ =~= b@);
    true
}

impl Task {
    /// The task named `name`; any other name is `Unknown`, carrying it.
    pub fn parse(name: &str) -> (r: Task)
        ensures
            kind_of(r) == task_kind(name@),
            r matches Task::Unknown(s) ==> s@ == name@,
    {
        let c = chars_of(name);
        let cleanup = vec!['c', 'l', 'e', 'a', 'n', 'u', 'p'];
        let update = vec!['u', 'p', 'd', 'a', 't', 'e', '-', 's', 't', 'a', 't', 's'];
        let clear = vec!['c', 'l', 'e', 'a', 'r', '-', 'a', 'l', 'l'];
        assert(cleanup@ =~= cleanup_name());
        assert(update@ =~= update_stats_name());
        assert(clear@ =~= clear_all_name());
        if same_chars(&c, &cleanup) {
            Task::Cleanup
        } else if same_chars(&c, &update) {
            Task::UpdateStats
        } else if same_chars(&c, &clear) {
            Task::ClearAll
        } else {
            Task::Unknown(String::from_str(name))
        }
    }

    /// Whether the task was recognised.
    pub fn is_known(&self) -> (r: bool)
        ensures
            r == (kind_of(*self) != 3),
    {
        !matches!(self, Task::Unknown(_))
    }
}

/// The number of `true` outcomes.
pub open spec fn count_true(s: Seq<bool>) -> nat
    decreases s.len(),
{
    if s.len() == 0 {
        0
    } else {
        count_true(s.drop_last()) + if s.last() {
            1nat
        } else {
            0nat
        }
    }
}

/// The sum of the known sizes, unknown ones counting zero.
pub open spec fn total_size(sizes: Seq<Option<u64>>) -> nat
    decreases sizes.len(),
{
    if sizes.len() == 0 {
        0
    } else {
        total_size(sizes.drop_last()) + match sizes.last() {
            Some(n) => n as nat,
            None => 0nat,
        }
    }
}

/// Adds up the sizes of the documents, an unreadable size counting zero; the sum
/// stops at the largest `u64`.
pub fn sum_sizes(sizes: &Vec<Option<u64>>) -> (r: u64)
    ensures
        r == if total_size(sizes@) < u64::MAX { total_size(sizes@) } else { u64::MAX as nat },
{
    let mut sum: u64 = 0;
    let mut i: usize = 0;
    while i < sizes.len()
        invariant
            i <= sizes@.len(),
            sum == if total_size(sizes@.subrange(0, i as int)) < u64::MAX {
                total_size(sizes@.subrange(0, i as int))
            } else {
                u64::MAX as nat
            },
        decreases sizes@.len() - i,
    {
        proof {
            assert(sizes@.subrange(0, i + 1).drop_last() =~= sizes@.subrange(0, i as int));
        }
        match sizes[i] {
            Some(n) => {
                sum = sum.saturating_add(n);
            },
            None => {},
        }
        i = i + 1;
    }
    proof {
        assert(sizes@.subrange(0, sizes@.len() as int) =~= sizes@);
    }
    sum
}

/// Relies on `uuid::Uuid::new_v4` and its `Display`: a fresh random identifier.
#[verifier::external_body]
fn new_document_id() -> (r: String) {
    uuid::Uuid::new_v4().to_string()
}

/// A search engine over the documents of one root directory.
pub struct SearchEngine {
    pub search_path: String,
    pub cache: DocumentCache,
}

/// What `run_maintenance` does: the result it reports and the engine it leaves.
pub open spec fn maintenance_post(
    before: SearchEngine,
    task: Seq<char>,
    deletions: Seq<bool>,
    entries: Seq<WalkEntry>,
    after: SearchEngine,
    r: MaintenanceResult,
) -> bool {
    &&& r.task@ == task
    &&& r.success == (task_kind(task) != 3)
    &&& task_kind(task) == 3 ==> after == before
    &&& task_kind(task) != 3 ==> after.search_path == before.search_path && docs_view(
        after.cache.documents@,
    ) == eligible_docs(entries)
    &&& (task_kind(task) == 0 || task_kind(task) == 1) ==> r.message@ == "File cache refreshed successfully"@
    &&& task_kind(task) == 2 ==> r.message@ == "Removed "@ + decimal(count_true(deletions)) + " files from search directory"@
    &&& task_kind(task) == 3 ==> r.message@ == "Unknown maintenance task: "@ + task
}

impl SearchEngine {
    /// An engine over `search_path`, its cache built from the walk `entries`
    /// of that directory (none where it does not exist).
    pub fn new(search_path: &str, entries: &Vec<WalkEntry>) -> (r: SearchEngine)
        ensures
            r.search_path@ == search_path@,
            docs_view(r.cache.documents@) == eligible_docs(entries@),
    {
        let mut cache = DocumentCache { documents: Vec::new(), last_scanned: now() };
        cache.refresh(entries);
        SearchEngine { search_path: String::from_str(search_path), cache }
    }

    /// Rebuilds the cache from a fresh walk of the root.
    pub fn refresh_file_cache(&mut self, entries: &Vec<WalkEntry>)
        ensures
            final(self).search_path == old(self).search_path,
            docs_view(final(self).cache.documents@) == eligible_docs(entries@),
    {
        self.cache.refresh(entries);
    }

    /// The cached documents, in walk order.
    pub fn cached_files(&self) -> (r: &Vec<Document>)
        ensures
            r == &self.cache.documents,
    {
        &self.cache.documents
    }

    /// Starts a search of the cached documents; the caller reads each document
    /// in cache order and hands its text to the scan until it is complete.
    pub fn search(&self, query: &str, limit: usize, offset: usize) -> (r: SearchScan)
        ensures
            r.wf(),
            r.query_text() == query@,
            r.lowered_query() == lower_of(query@),
            r.page_limit() == limit,
            r.page_offset() == offset,
            r.found().len() == 0,
            r.scanned().len() == 0,
    {
        SearchScan::new(query, limit, offset)
    }

    /// Records the outcome of adding `file_path`: where it does not exist
    /// nothing changes; else, the file having been copied under the root, the
    /// cache is rebuilt from the walk `entries`.
    pub fn index_document(&mut self, file_path: &str, exists: bool, entries: &Vec<WalkEntry>) -> (r: IndexResult)
        ensures
            r.success == exists,
            r.path@ == file_path@,
            !exists ==> *final(self) == *old(self),
            !exists ==> r.document_id@ == Seq::<char>::empty(),
            !exists ==> r.message@ == "File does not exist"@,
            exists ==> final(self).search_path == old(self).search_path,
            exists ==> docs_view(final(self).cache.documents@) == eligible_docs(entries@),
            exists ==> r.message@ == "File added to search directory"@,
    {
        if !exists {
            return IndexResult {
                success: false,
                document_id: String::new(),
                path: String::from_str(file_path),
                indexed_at: now(),
                message: String::from_str("File does not exist"),
            };
        }
        self.refresh_file_cache(entries);
        IndexResult {
            success: true,
            document_id: new_document_id(),
            path: String::from_str(file_path),
            indexed_at: now(),
            message: String::from_str("File added to search directory"),
        }
    }

    /// Size and freshness of the cache; `sizes` holds the size of each cached
    /// document that could be read.
    pub fn get_stats(&self, sizes: &Vec<Option<u64>>) -> (r: Stats)
        ensures
            r.total_documents == self.cache.documents@.len(),
            r.index_size_bytes == if total_size(sizes@) < u64::MAX { total_size(sizes@) } else { u64::MAX as nat },
            r.last_updated == self.cache.last_scanned,
            r.index_path@ == self.search_path@,
    {
        Stats {
            total_documents: self.cache.documents.len(),
            index_size_bytes: sum_sizes(sizes),
            last_updated: self.cache.last_scanned,
            index_path: self.search_path.clone(),
        }
    }

    /// Health and figures; `healthy` tells whether the root is a directory now.
    pub fn get_status(&self, healthy: bool, sizes: &Vec<Option<u64>>) -> (r: Status)
        ensures
            r.index_exists == healthy,
            r.index_healthy == healthy,
            r.total_documents == self.cache.documents@.len(),
            r.index_size_bytes == if total_size(sizes@) < u64::MAX { total_size(sizes@) } else { u64::MAX as nat },
            r.last_updated == self.cache.last_scanned,
    {
        Status {
            index_exists: healthy,
            index_healthy: healthy,
            total_documents: self.cache.documents.len(),
            index_size_bytes: sum_sizes(sizes),
            last_updated: self.cache.last_scanned,
        }
    }

    /// Completes the maintenance task named `task`. For `clear-all`,
    /// `deletions` holds whether each cached file was removed; for a recognised
    /// task, `entries` is the walk of the root made afterwards.
    pub fn run_maintenance(&mut self, task: &str, deletions: &Vec<bool>, entries: &Vec<WalkEntry>) -> (r: MaintenanceResult)
        ensures
            maintenance_post(*old(self), task@, deletions@, entries@, *final(self), r),
    {
        let kind = Task::parse(task);
        match kind {
            Task::Cleanup | Task::UpdateStats => {
                self.refresh_file_cache(entries);
                MaintenanceResult {
                    task: String::from_str(task),
                    success: true,
                    message: String::from_str("File cache refreshed successfully"),
                    executed_at: now(),
                }
            },
            Task::ClearAll => {
                let removed = count_removed(deletions);
                self.refresh_file_cache(entries);
                let mut message = String::from_str("Removed ");
                let n = decimal_string(removed);
                message.append(n.as_str());
                message.append(" files from search directory");
                MaintenanceResult {
                    task: String::from_str(task),
                    success: true,
                    message,
                    executed_at: now(),
                }
            },
            Task::Unknown(_) => {
                let mut message = String::from_str("Unknown maintenance task: ");
                message.append(task);
                MaintenanceResult {
                    task: String::from_str(task),
                    success: false,
                    message,
                    executed_at: now(),
                }
            },
        }
    }
}

/// Running `cleanup` twice with the same walk gives two successful results and
/// leaves the cache as the first run left it.
pub proof fn lemma_cleanup_idempotent(
    e0: SearchEngine,
    e1: SearchEngine,
    e2: SearchEngine,
    entries: Seq<WalkEntry>,
    d1: Seq<bool>,
    d2: Seq<bool>,
    r1: MaintenanceResult,
    r2: MaintenanceResult,
)
    requires
        maintenance_post(e0, cleanup_name(), d1, entries, e1, r1),
        maintenance_post(e1, cleanup_name(), d2, entries, e2, r2),
    ensures
        r1.success && r2.success,
        docs_view(e2.cache.documents@) == docs_view(e1.cache.documents@),
        e2.search_path == e1.search_path,
{
}

/// An unrecognised task name is reported as a failure and leaves the engine,
/// cache included, exactly as it was.
pub proof fn lemma_unknown_task_safe(
    before: SearchEngine,
    after: SearchEngine,
    task: Seq<char>,
    deletions: Seq<bool>,
    entries: Seq<WalkEntry>,
    r: MaintenanceResult,
)
    requires
        task != cleanup_name(),
        task != update_stats_name(),
        task != clear_all_name(),
        maintenance_post(before, task, deletions, entries, after, r),
    ensures
        !r.success,
        after == before,
{
}

/// The number of files removed.
pub fn count_removed(deletions: &Vec<bool>) -> (r: usize)
    ensures
        r == count_true(deletions@),
{
    let mut n: usize = 0;
    let mut i: usize = 0;
    while i < deletions.len()
        invariant
            i <= deletions@.len(),
            n <= i,
            n == count_true(deletions@.subrange(0, i as int)),
        decreases deletions@.len() - i,
    {
        proof {
            assert(deletions@.subrange(0, i + 1).drop_last() =~= deletions@.subrange(0, i as int));
        }
        if deletions[i] {
            n = n + 1;
        }
        i = i + 1;
    }
    proof {
        assert(deletions@.subrange(0, deletions@.len() as int) =~= deletions@);
    }
    n
}

} // verus!
