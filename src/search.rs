//! Query execution: scanning documents line by line under a bounded-work
//! policy, ranking the hits and cutting out the requested page.
use vstd::prelude::*;
use vstd::string::*;
use crate::clock::{Timestamp, now};
use crate::format::{decimal, decimal_string};
use crate::scorer::{lower_of, score_of, lowercase, chars_of, calculate_score};
use crate::text::{contains, contains_chars};

verus! {

/// A document of the cache: its path and its file name.
#[derive(Debug)]
pub struct Document {
    pub path: String,
    pub file_name: String,
}

/// One matching line.
#[derive(Debug)]
pub struct SearchResult {
    pub id: String,
    pub title: String,
    pub content: String,
    pub score: u128,
    pub path: String,
    pub line_number: usize,
    pub indexed_at: Timestamp,
}

/// One page of ranked hits.
#[derive(Debug)]
pub struct SearchResponse {
    pub query: String,
    pub results: Vec<SearchResult>,
    pub total: usize,
    pub limit: usize,
    pub offset: usize,
}

/// The lines of a text, as `str::lines` splits it.
pub uninterp spec fn lines_of(s: Seq<char>) -> Seq<Seq<char>>;

/// Relies on `str::lines`: the lines of `s`, in order.
#[verifier::external_body]
fn split_lines(s: &str) -> (r: Vec<String>)
    ensures
        r@.len() == lines_of(s@).len(),
        forall|i: int| 0 <= i < r@.len() ==> #[trigger] r@[i]@ == lines_of(s@)[i],
{
    s.lines().map(|l| l.to_string()).collect()
}

/// The number of hits after which scanning stops, for a page at `offset` of
/// `limit` hits.
pub open spec fn threshold_of(limit: int, offset: int) -> int {
    let target = offset + limit;
    if target > 10000 {
        target + 20000
    } else {
        target * 3
    }
}

/// Computes the early-stop threshold of a page.
pub fn early_stop_threshold(limit: usize, offset: usize) -> (r: u128)
    ensures
        r == threshold_of(limit as int, offset as int),
{
    let target: u128 = offset as u128 + limit as u128;
    if target > 10000 {
        target + 20000
    } else {
        target * 3
    }
}

/// The number of lines of `lines` whose lowercase contains `q`.
pub open spec fn matching_lines(lines: Seq<Seq<char>>, q: Seq<char>) -> nat
    decreases lines.len(),
{
    if lines.len() == 0 {
        0
    } else {
        matching_lines(lines.drop_last(), q) + if contains(lower_of(lines.last()), q) {
            1nat
        } else {
            0nat
        }
    }
}

/// The number of matching lines over all documents, each given by its lines.
pub open spec fn corpus_matches(docs: Seq<Seq<Seq<char>>>, q: Seq<char>) -> nat
    decreases docs.len(),
{
    if docs.len() == 0 {
        0
    } else {
        corpus_matches(docs.drop_last(), q) + matching_lines(docs.last(), q)
    }
}

pub open spec fn min_int(a: int, b: int) -> int {
    if a <= b {
        a
    } else {
        b
    }
}

/// A hit for query `q` (lowercased): its line matches and it carries the line's score.
pub open spec fn hit_for(h: SearchResult, q: Seq<char>) -> bool {
    contains(lower_of(h.content@), q) && h.score == score_of(lower_of(h.content@), q)
}

proof fn lemma_matching_lines_prefix(lines: Seq<Seq<char>>, q: Seq<char>, i: int)
    requires
        0 <= i <= lines.len(),
    ensures
        matching_lines(lines.subrange(0, i), q) <= matching_lines(lines, q),
    decreases lines.len() - i,
{
    if i < lines.len() {
        lemma_matching_lines_prefix(lines, q, i + 1);
        assert(lines.subrange(0, i + 1).drop_last() =~= lines.subrange(0, i));
    } else {
        assert(lines.subrange(0, i) =~= lines);
    }
}

/// `h` is the hit for line `n` (counted from zero) of document number `k`, `d`,
/// whose lines are `ls`.
pub open spec fn hit_at(h: SearchResult, k: nat, d: Document, ls: Seq<Seq<char>>, n: nat) -> bool {
    &&& n < ls.len()
    &&& h.line_number == n
    &&& h.content@ == ls[n as int]
    &&& h.path@ == d.path@
    &&& h.id@ == decimal(k) + seq!['-'] + decimal(n)
    &&& h.title@ == d.file_name@ + " (line "@ + decimal(n + 1) + ")"@
}

/// `order` lists each position of `hits` exactly once, higher scores first and
/// equal scores in the order they were found.
pub open spec fn stably_ranked(hits: Seq<SearchResult>, order: Seq<int>) -> bool {
    &&& order.len() == hits.len()
    &&& forall|i: int| 0 <= i < order.len() ==> 0 <= #[trigger] order[i] < hits.len()
    &&& forall|i: int, j: int| 0 <= i < j < order.len() ==> order[i] != order[j]
    &&& forall|i: int, j: int|
        0 <= i < j < order.len() ==> (hits[order[i]].score > hits[order[j]].score || (
        hits[order[i]].score == hits[order[j]].score && order[i] < order[j]))
}

/// `ranked` is `hits` rearranged by `order`.
pub open spec fn arranged(hits: Seq<SearchResult>, order: Seq<int>, ranked: Seq<SearchResult>) -> bool {
    &&& ranked.len() == order.len()
    &&& forall|i: int| 0 <= i < ranked.len() ==> #[trigger] ranked[i] == hits[order[i]]
}

/// Sorts hits by score, highest first; hits of equal score keep their order.
pub fn rank_hits(hits: Vec<SearchResult>) -> (r: Vec<SearchResult>)
    ensures
        exists|order: Seq<int>| stably_ranked(hits@, order) && arranged(hits@, order, r@),
{
    let ghost all = hits@;
    let n = hits.len();
    let mut rest = hits;
    let mut out: Vec<SearchResult> = Vec::new();
    let ghost mut order: Seq<int> = Seq::empty();
    while rest.len() > 0
        invariant
            n == all.len(),
            rest@.len() <= n,
            rest@ == all.subrange(0, rest@.len() as int),
            out@.len() == order.len(),
            order.len() == n - rest@.len(),
            forall|i: int| 0 <= i < order.len() ==> rest@.len() <= #[trigger] order[i] < n,
            forall|i: int| 0 <= i < out@.len() ==> #[trigger] out@[i] == all[order[i]],
            forall|i: int, j: int| 0 <= i < j < order.len() ==> order[i] != order[j],
            forall|i: int, j: int|
                0 <= i < j < order.len() ==> (all[order[i]].score > all[order[j]].score || (
                all[order[i]].score == all[order[j]].score && order[i] < order[j])),
        decreases rest@.len(),
    {
        let ghost k: int = rest@.len() - 1;
        let h = rest.pop().unwrap();
        assert(h == all[k]);
        assert(rest@ =~= all.subrange(0, rest@.len() as int));
        let s = h.score;
        let mut p: usize = 0;
        while p < out.len() && out[p].score > s
            invariant
                p <= out@.len(),
                forall|i: int| 0 <= i < p ==> #[trigger] out@[i].score > s,
            decreases out@.len() - p,
        {
            p = p + 1;
        }
        let ghost old_order = order;
        let ghost old_out = out@;
        out.insert(p, h);
        proof {
            order = order.insert(p as int, k);
            assert forall|i: int| 0 <= i < order.len() implies rest@.len() <= #[trigger] order[i] < n by {
                if i < p {
                    assert(order[i] == old_order[i]);
                } else if i > p {
                    assert(order[i] == old_order[i - 1]);
                }
            }
            assert forall|i: int| 0 <= i < out@.len() implies #[trigger] out@[i] == all[order[i]] by {
                if i < p {
                    assert(out@[i] == old_out[i]);
                } else if i > p {
                    assert(out@[i] == old_out[i - 1]);
                }
            }
            assert forall|i: int, j: int| 0 <= i < j < order.len() implies order[i] != order[j] && (
            all[order[i]].score > all[order[j]].score || (all[order[i]].score == all[order[j]].score
                && order[i] < order[j])) by {
                if j < p {
                    assert(order[i] == old_order[i] && order[j] == old_order[j]);
                } else if j == p {
                    assert(order[i] == old_order[i]);
                    assert(old_out[i].score > s);
                } else if i > p {
                    assert(order[i] == old_order[i - 1] && order[j] == old_order[j - 1]);
                } else if i == p {
                    assert(order[j] == old_order[j - 1]);
                    assert(old_out[p as int].score <= s);
                    if j - 1 > p {
                        assert(all[old_order[p as int]].score >= all[old_order[j - 1]].score);
                    }
                } else {
                    assert(order[i] == old_order[i] && order[j] == old_order[j - 1]);
                }
            }
        }
    }
    assert(stably_ranked(all, order));
    assert(arranged(all, order, out@));
    out
}

/// The window `[offset, offset + limit)` of `s`, clipped to its length.
pub open spec fn window<A>(s: Seq<A>, offset: int, limit: int) -> Seq<A> {
    let start = if offset < s.len() { offset } else { s.len() as int };
    let end = if start + limit < s.len() { start + limit } else { s.len() as int };
    s.subrange(start, end)
}

/// Keeps the hits of the page at `offset` of `limit` hits.
pub fn paginate(ranked: Vec<SearchResult>, limit: usize, offset: usize) -> (r: Vec<SearchResult>)
    ensures
        r@ == window(ranked@, offset as int, limit as int),
        r@.len() <= limit,
{
    let mut all = ranked;
    let start = if offset < all.len() {
        offset
    } else {
        all.len()
    };
    let mut page = all.split_off(start);
    page.truncate(limit);
    page
}

/// A search in progress: the query, the page asked for, and the hits found so
/// far in the documents handed to it, in the order they were found.
pub struct SearchScan {
    query: String,
    query_lower: String,
    query_chars: Vec<char>,
    limit: usize,
    offset: usize,
    threshold: u128,
    hits: Vec<SearchResult>,
    scanned: Ghost<Seq<Seq<Seq<char>>>>,
}

impl SearchScan {
    /// The query as given.
    pub closed spec fn query_text(&self) -> Seq<char> {
        self.query@
    }

    /// The lowercased query that lines are matched against.
    pub closed spec fn lowered_query(&self) -> Seq<char> {
        self.query_lower@
    }

    pub closed spec fn page_limit(&self) -> usize {
        self.limit
    }

    pub closed spec fn page_offset(&self) -> usize {
        self.offset
    }

    /// The hits found so far, in discovery order.
    pub closed spec fn found(&self) -> Seq<SearchResult> {
        self.hits@
    }

    /// The lines of each document handed to the scan, in order.
    pub closed spec fn scanned(&self) -> Seq<Seq<Seq<char>>> {
        self.scanned@
    }

    /// The early-stop threshold of this search.
    pub open spec fn stop_at(&self) -> int {
        threshold_of(self.page_limit() as int, self.page_offset() as int)
    }

    /// The scan's invariant: the hits are the matching lines found before the
    /// threshold was reached.
    pub closed spec fn wf(&self) -> bool {
        &&& self.threshold == self.stop_at()
        &&& self.query_lower@ == lower_of(self.query@)
        &&& self.query_chars@ == self.query_lower@
        &&& self.hits@.len() == min_int(
            self.stop_at(),
            corpus_matches(self.scanned@, self.query_lower@) as int,
        )
        &&& forall|i: int| 0 <= i < self.hits@.len() ==> hit_for(#[trigger] self.hits@[i], self.query_lower@)
    }

    /// Starts a search for `query`, for the page at `offset` of `limit` hits.
    pub fn new(query: &str, limit: usize, offset: usize) -> (r: SearchScan)
        ensures
            r.wf(),
            r.query_text() == query@,
            r.lowered_query() == lower_of(query@),
            r.page_limit() == limit,
            r.page_offset() == offset,
            r.found().len() == 0,
            r.scanned().len() == 0,
    {
        let query_lower = lowercase(query);
        let query_chars = chars_of(query_lower.as_str());
        let r = SearchScan {
            query: String::from_str(query),
            query_lower,
            query_chars,
            limit,
            offset,
            threshold: early_stop_threshold(limit, offset),
            hits: Vec::new(),
            scanned: Ghost(Seq::empty()),
        };
        assert(threshold_of(limit as int, offset as int) >= 0);
        r
    }

    /// Whether the threshold has been reached: no further document needs to be read.
    pub fn is_complete(&self) -> (r: bool)
        requires
            self.wf(),
        ensures
            r == (self.found().len() >= self.stop_at()),
    {
        self.hits.len() as u128 >= self.threshold
    }

    /// Scans document number `doc_index` of the cache, whose text is `content`,
    /// adding a hit for each line whose lowercase contains the lowercased query,
    /// until the threshold is reached.
    pub fn scan_document(&mut self, doc_index: usize, doc: &Document, content: &str)
        requires
            old(self).wf(),
        ensures
            final(self).wf(),
            final(self).query_text() == old(self).query_text(),
            final(self).lowered_query() == old(self).lowered_query(),
            final(self).page_limit() == old(self).page_limit(),
            final(self).page_offset() == old(self).page_offset(),
            final(self).scanned() == old(self).scanned().push(lines_of(content@)),
            final(self).found().subrange(0, old(self).found().len() as int) == old(self).found(),
            forall|j: int|
                old(self).found().len() <= j < final(self).found().len() ==> hit_at(
                    #[trigger] final(self).found()[j],
                    doc_index as nat,
                    *doc,
                    lines_of(content@),
                    final(self).found()[j].line_number as nat,
                ),
            forall|j: int, m: int|
                old(self).found().len() <= j < m < final(self).found().len()
                    ==> #[trigger] final(self).found()[j].line_number < #[trigger] final(self).found()[m].line_number,
    {
        let ghost q = self.query_lower@;
        let ghost base = corpus_matches(self.scanned@, q);
        let ghost old_hits = self.hits@;
        let ghost ls = lines_of(content@);
        let lines = split_lines(content);
        let n = lines.len();
        let mut i: usize = 0;
        proof {
            assert(ls.subrange(0, 0) =~= Seq::<Seq<char>>::empty());
        }
        while i < n && (self.hits.len() as u128) < self.threshold
            invariant
                n == lines@.len(),
                n == ls.len(),
                forall|j: int| 0 <= j < n ==> #[trigger] lines@[j]@ == ls[j],
                i <= n,
                self.threshold == self.stop_at(),
                self.threshold == old(self).threshold,
                self.query@ == old(self).query@,
                self.query_lower@ == q,
                self.query_chars@ == q,
                self.query_lower@ == lower_of(self.query@),
                self.limit == old(self).limit,
                self.offset == old(self).offset,
                self.scanned@ == old(self).scanned@,
                base == corpus_matches(self.scanned@, q),
                old_hits == old(self).hits@,
                self.hits@.len() >= old_hits.len(),
                self.hits@.subrange(0, old_hits.len() as int) == old_hits,
                self.hits@.len() == min_int(
                    self.stop_at(),
                    (base + matching_lines(ls.subrange(0, i as int), q)) as int,
                ),
                forall|j: int| 0 <= j < self.hits@.len() ==> hit_for(#[trigger] self.hits@[j], q),
                forall|j: int|
                    old_hits.len() <= j < self.hits@.len() ==> hit_at(
                        #[trigger] self.hits@[j],
                        doc_index as nat,
                        *doc,
                        ls,
                        self.hits@[j].line_number as nat,
                    ) && self.hits@[j].line_number < i,
                forall|j: int, m: int|
                    old_hits.len() <= j < m < self.hits@.len()
                        ==> #[trigger] self.hits@[j].line_number < #[trigger] self.hits@[m].line_number,
            decreases n - i,
        {
            let line = &lines[i];
            let lower = lowercase(line.as_str());
            let lower_chars = chars_of(lower.as_str());
            proof {
                assert(ls.subrange(0, i + 1).drop_last() =~= ls.subrange(0, i as int));
                assert(ls.subrange(0, i + 1).last() == ls[i as int]);
            }
            if contains_chars(&lower_chars, &self.query_chars) {
                let score = calculate_score(lower.as_str(), self.query_lower.as_str());
                let mut id = decimal_string(doc_index);
                id.append("-");
                proof {
                    reveal_strlit("-");
                }
                let num = decimal_string(i);
                id.append(num.as_str());
                let mut title = doc.file_name.clone();
                title.append(" (line ");
                let shown = decimal_string(i + 1);
                title.append(shown.as_str());
                title.append(")");
                assert(id@ == decimal(doc_index as nat) + seq!['-'] + decimal(i as nat));
                assert(title@ == doc.file_name@ + " (line "@ + decimal(i as nat + 1) + ")"@);
                let hit = SearchResult {
                    id,
                    title,
                    content: line.clone(),
                    score,
                    path: doc.path.clone(),
                    line_number: i,
                    indexed_at: now(),
                };
                assert(hit_at(hit, doc_index as nat, *doc, ls, i as nat));
                self.hits.push(hit);
                proof {
                    assert(self.hits@.subrange(0, old_hits.len() as int) =~= old_hits);
                }
            }
            i = i + 1;
        }
        proof {
            if i == n {
                assert(ls.subrange(0, n as int) =~= ls);
            } else {
                lemma_matching_lines_prefix(ls, q, i as int);
            }
            let s2 = self.scanned@.push(ls);
            assert(s2.drop_last() =~= self.scanned@);
            assert(s2.last() == ls);
        }
        self.scanned = Ghost(self.scanned@.push(ls));
    }
    /// Ends the search: ranks all hits found and returns the page asked for,
    /// with the number of hits found as the total.
    pub fn finish(self) -> (r: SearchResponse)
        requires
            self.wf(),
        ensures
            r.query@ == self.query_text(),
            r.limit == self.page_limit(),
            r.offset == self.page_offset(),
            r.total == self.found().len(),
            r.total == min_int(self.stop_at(), corpus_matches(self.scanned(), self.lowered_query()) as int),
            r.total < self.stop_at() ==> r.total == corpus_matches(self.scanned(), self.lowered_query()),
            forall|i: int| 0 <= i < self.found().len() ==> hit_for(#[trigger] self.found()[i], self.lowered_query()),
            r.results@.len() <= r.limit,
            exists|order: Seq<int>|
                stably_ranked(self.found(), order) && #[trigger] r.results@ == window(
                    order.map_values(|k: int| self.found()[k]),
                    self.page_offset() as int,
                    self.page_limit() as int,
                ),
            forall|i: int| 0 <= i < r.results@.len() - 1 ==> #[trigger] r.results@[i].score >= r.results@[i + 1].score,
    {
        let ghost found = self.hits@;
        let total = self.hits.len();
        let ranked = rank_hits(self.hits);
        let ghost order = choose|order: Seq<int>| stably_ranked(found, order) && arranged(found, order, ranked@);
        proof {
            assert(ranked@ =~= order.map_values(|k: int| found[k]));
        }
        let results = paginate(ranked, self.limit, self.offset);
        proof {
            let w = window(ranked@, self.offset as int, self.limit as int);
            let start = if (self.offset as int) < ranked@.len() { self.offset as int } else { ranked@.len() as int };
            assert forall|i: int| 0 <= i < results@.len() - 1 implies #[trigger] results@[i].score >= results@[i + 1].score by {
                assert(results@[i] == ranked@[start + i]);
                assert(results@[i + 1] == ranked@[start + i + 1]);
                assert(ranked@[start + i] == found[order[start + i]]);
                assert(ranked@[start + i + 1] == found[order[start + i + 1]]);
            }
        }
        SearchResponse { query: self.query, results, total, limit: self.limit, offset: self.offset }
    }
}

} // verus!
