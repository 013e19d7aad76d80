use search_engine::cache::WalkEntry;
use search_engine::engine::SearchEngine;
use search_engine::scorer::calculate_score;
use search_engine::search::{early_stop_threshold, SearchResponse};
use search_engine::text::{contains_chars, count_occurrences};

fn file(path: &str, name: &str) -> WalkEntry {
    WalkEntry { path: path.to_string(), file_name: name.to_string(), is_file: true }
}

fn run(docs: &[(&str, &str)], query: &str, limit: usize, offset: usize) -> SearchResponse {
    let entries: Vec<WalkEntry> = docs
        .iter()
        .map(|(name, _)| file(&format!("/root/{}", name), name))
        .collect();
    let engine = SearchEngine::new("/root", &entries);
    let mut scan = engine.search(query, limit, offset);
    for (i, doc) in engine.cached_files().iter().enumerate() {
        if scan.is_complete() {
            break;
        }
        scan.scan_document(i, doc, docs[i].1);
    }
    scan.finish()
}

fn chars(s: &str) -> Vec<char> {
    s.chars().collect()
}

#[test]
fn short_query_whole_word_scenario() {
    let r = run(&[("a.txt", "ab ab\nxyz")], "ab", 10, 0);
    assert_eq!(r.total, 1);
    assert_eq!(r.limit, 10);
    assert_eq!(r.offset, 0);
    assert_eq!(r.query, "ab");
    assert_eq!(r.results.len(), 1);
    let h = &r.results[0];
    assert_eq!(h.score, 27);
    assert_eq!(h.content, "ab ab");
    assert_eq!(h.id, "0-0");
    assert_eq!(h.title, "a.txt (line 1)");
    assert_eq!(h.path, "/root/a.txt");
    assert_eq!(h.line_number, 0);
}

#[test]
fn equal_scores_keep_document_order() {
    let r = run(&[("f.txt", "apple\nbanana apple\nApple pie")], "apple", 10, 0);
    assert_eq!(r.total, 3);
    let contents: Vec<&str> = r.results.iter().map(|h| h.content.as_str()).collect();
    assert_eq!(contents, vec!["apple", "banana apple", "Apple pie"]);
    assert!(r.results.iter().all(|h| h.score == 15));
}

#[test]
fn uppercase_query_matches_lowercase_lines() {
    let r = run(&[("f.txt", "apple\nbanana")], "APPLE", 10, 0);
    assert_eq!(r.total, 1);
    assert_eq!(r.results[0].content, "apple");
    assert_eq!(r.query, "APPLE");
}

#[test]
fn results_sorted_by_score_descending() {
    let r = run(&[("a.txt", "cat\ncat cat\nconcat"), ("b.txt", "cat cat cat")], "cat", 10, 0);
    assert_eq!(r.total, 4);
    let scores: Vec<u128> = r.results.iter().map(|h| h.score).collect();
    assert_eq!(scores, vec![37, 27, 17, 12]);
    for w in r.results.windows(2) {
        assert!(w[0].score >= w[1].score);
    }
    assert_eq!(r.results[0].id, "1-0");
    assert_eq!(r.results[3].content, "concat");
}

#[test]
fn pagination_windows() {
    let text = "x1\nx2\nx3\nx4\nx5";
    let r = run(&[("a.txt", text)], "x", 2, 1);
    assert_eq!(r.total, 5);
    let contents: Vec<&str> = r.results.iter().map(|h| h.content.as_str()).collect();
    assert_eq!(contents, vec!["x2", "x3"]);
    let r = run(&[("a.txt", text)], "x", 10, 4);
    assert_eq!(r.results.len(), 1);
    let r = run(&[("a.txt", text)], "x", 10, 9);
    assert_eq!(r.results.len(), 0);
    assert_eq!(r.total, 5);
    let r = run(&[("a.txt", text)], "x", 0, 0);
    assert_eq!(r.results.len(), 0);
}

#[test]
fn early_stop_caps_total() {
    let text = "k\nk\nk\nk\nk";
    let r = run(&[("a.txt", text), ("b.txt", text)], "k", 1, 0);
    assert_eq!(r.total, 3);
    assert_eq!(r.results.len(), 1);
    let r = run(&[("a.txt", text), ("b.txt", text)], "k", 2, 0);
    assert_eq!(r.total, 6);
}

#[test]
fn total_exact_below_threshold() {
    let r = run(&[("a.txt", "Dog\ncat\ndogs"), ("b.txt", "hotdog")], "dog", 10, 0);
    assert_eq!(r.total, 3);
}

#[test]
fn threshold_formula() {
    assert_eq!(early_stop_threshold(10, 0), 30);
    assert_eq!(early_stop_threshold(5000, 5000), 30000);
    assert_eq!(early_stop_threshold(5000, 5001), 30001);
    assert_eq!(early_stop_threshold(0, 0), 0);
}

#[test]
fn score_values() {
    assert_eq!(calculate_score("ab ab", "ab"), 27);
    assert_eq!(calculate_score("xyz", "ab"), 2);
    assert_eq!(calculate_score("apple", "apple"), 15);
    assert_eq!(calculate_score("aaaa", "aa"), 22);
    assert_eq!(calculate_score("a.b", "."), 12);
    assert_eq!(calculate_score("a-b c", "a-b"), 17);
    assert_eq!(calculate_score("axb", "a.b"), 2);
    assert_eq!(calculate_score("abc", ""), 42);
    assert_eq!(calculate_score("pineapple", "apple"), 10);
}

#[test]
fn score_is_deterministic() {
    let a = calculate_score("banana apple", "apple");
    let b = calculate_score("banana apple", "apple");
    assert_eq!(a, b);
}

#[test]
fn occurrence_counting() {
    assert_eq!(count_occurrences(&chars("aaaa"), &chars("aa")), 2);
    assert_eq!(count_occurrences(&chars("aaa"), &chars("aa")), 1);
    assert_eq!(count_occurrences(&chars("abc"), &chars("")), 4);
    assert_eq!(count_occurrences(&chars("ab"), &chars("abc")), 0);
    assert!(contains_chars(&chars("hello"), &chars("ll")));
    assert!(!contains_chars(&chars("hello"), &chars("lo!")));
    assert!(contains_chars(&chars(""), &chars("")));
}
