use search_engine::cache::{has_accepted_extension, WalkEntry};
use search_engine::engine::{count_removed, sum_sizes, SearchEngine, Task};
use search_engine::format::decimal_string;

fn entry(path: &str, name: &str, is_file: bool) -> WalkEntry {
    WalkEntry { path: path.to_string(), file_name: name.to_string(), is_file }
}

fn walk() -> Vec<WalkEntry> {
    vec![
        entry("/r/a.txt", "a.txt", true),
        entry("/r/sub/B.TXT", "B.TXT", true),
        entry("/r/sub/deep/c.Txt", "c.Txt", true),
        entry("/r/notes.md", "notes.md", true),
        entry("/r/.txt", ".txt", true),
        entry("/r/dir.txt", "dir.txt", false),
        entry("/r/d.tar.txt", "d.tar.txt", true),
        entry("/r/txt", "txt", true),
    ]
}

fn paths(e: &SearchEngine) -> Vec<String> {
    e.cached_files().iter().map(|d| d.path.clone()).collect()
}

#[test]
fn refresh_keeps_only_text_files() {
    let e = SearchEngine::new("/r", &walk());
    assert_eq!(
        paths(&e),
        vec!["/r/a.txt", "/r/sub/B.TXT", "/r/sub/deep/c.Txt", "/r/d.tar.txt"]
    );
    assert_eq!(e.cached_files()[1].file_name, "B.TXT");
}

#[test]
fn missing_root_gives_empty_cache() {
    let e = SearchEngine::new("/nowhere", &Vec::new());
    assert!(e.cached_files().is_empty());
}

#[test]
fn extension_rules() {
    assert!(has_accepted_extension("x.txt"));
    assert!(has_accepted_extension("x.TxT"));
    assert!(has_accepted_extension("a.b.txt"));
    assert!(!has_accepted_extension(".txt"));
    assert!(!has_accepted_extension("x.txt.bak"));
    assert!(!has_accepted_extension("x.text"));
    assert!(!has_accepted_extension("xtxt"));
}

#[test]
fn task_names() {
    assert!(matches!(Task::parse("cleanup"), Task::Cleanup));
    assert!(matches!(Task::parse("update-stats"), Task::UpdateStats));
    assert!(matches!(Task::parse("clear-all"), Task::ClearAll));
    match Task::parse("Cleanup") {
        Task::Unknown(s) => assert_eq!(s, "Cleanup"),
        _ => panic!("expected an unknown task"),
    }
    assert!(!Task::parse("").is_known());
    assert!(Task::parse("clear-all").is_known());
}

#[test]
fn cleanup_twice_is_idempotent() {
    let mut e = SearchEngine::new("/r", &Vec::new());
    let r1 = e.run_maintenance("cleanup", &Vec::new(), &walk());
    let first = paths(&e);
    let r2 = e.run_maintenance("cleanup", &Vec::new(), &walk());
    assert!(r1.success && r2.success);
    assert_eq!(paths(&e), first);
    assert_eq!(first.len(), 4);
    assert_eq!(r1.message, "File cache refreshed successfully");
    assert_eq!(r1.task, "cleanup");
}

#[test]
fn update_stats_refreshes() {
    let mut e = SearchEngine::new("/r", &Vec::new());
    let r = e.run_maintenance("update-stats", &Vec::new(), &walk());
    assert!(r.success);
    assert_eq!(paths(&e).len(), 4);
}

#[test]
fn clear_all_reports_removed_count() {
    let mut e = SearchEngine::new("/r", &walk());
    let r = e.run_maintenance("clear-all", &vec![true, false, true, true], &vec![entry("/r/sub/B.TXT", "B.TXT", true)]);
    assert!(r.success);
    assert_eq!(r.message, "Removed 3 files from search directory");
    assert_eq!(paths(&e), vec!["/r/sub/B.TXT"]);
    let r = e.run_maintenance("clear-all", &vec![true], &Vec::new());
    assert_eq!(r.message, "Removed 1 files from search directory");
    assert!(e.cached_files().is_empty());
}

#[test]
fn unknown_task_changes_nothing() {
    let mut e = SearchEngine::new("/r", &walk());
    let before = paths(&e);
    let stamp = e.cache.last_scanned;
    let r = e.run_maintenance("defrag", &vec![true], &Vec::new());
    assert!(!r.success);
    assert_eq!(r.message, "Unknown maintenance task: defrag");
    assert_eq!(r.task, "defrag");
    assert_eq!(paths(&e), before);
    assert_eq!(e.cache.last_scanned, stamp);
}

#[test]
fn stats_and_status_sum_sizes() {
    let e = SearchEngine::new("/r", &walk());
    let sizes = vec![Some(10), None, Some(5), Some(0)];
    let s = e.get_stats(&sizes);
    assert_eq!(s.total_documents, 4);
    assert_eq!(s.index_size_bytes, 15);
    assert_eq!(s.index_path, "/r");
    assert_eq!(s.last_updated, e.cache.last_scanned);
    let st = e.get_status(true, &sizes);
    assert!(st.index_exists && st.index_healthy);
    assert_eq!(st.index_size_bytes, 15);
    let st = e.get_status(false, &Vec::new());
    assert!(!st.index_healthy);
    assert_eq!(st.index_size_bytes, 0);
}

#[test]
fn size_sum_saturates() {
    assert_eq!(sum_sizes(&vec![Some(u64::MAX), Some(1)]), u64::MAX);
    assert_eq!(sum_sizes(&Vec::new()), 0);
}

#[test]
fn removed_counts() {
    assert_eq!(count_removed(&vec![true, false, true]), 2);
    assert_eq!(count_removed(&Vec::new()), 0);
}

#[test]
fn index_document_outcomes() {
    let mut e = SearchEngine::new("/r", &Vec::new());
    let r = e.index_document("/tmp/missing.txt", false, &walk());
    assert!(!r.success);
    assert_eq!(r.message, "File does not exist");
    assert_eq!(r.document_id, "");
    assert!(e.cached_files().is_empty());
    let r = e.index_document("/tmp/a.txt", true, &walk());
    assert!(r.success);
    assert_eq!(r.message, "File added to search directory");
    assert_eq!(r.path, "/tmp/a.txt");
    assert_eq!(r.document_id.len(), 36);
    assert_eq!(paths(&e).len(), 4);
}

#[test]
fn decimal_rendering() {
    assert_eq!(decimal_string(0), "0");
    assert_eq!(decimal_string(407), "407");
}
