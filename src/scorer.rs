//! The relevance score of a matching line.
use vstd::prelude::*;
use vstd::string::*;
use vstd::utf8::encode_utf8;
use crate::text::{occurrences, count_occurrences};

verus! {

/// The lowercase mapping of a text, as `str::to_lowercase` computes it.
pub uninterp spec fn lower_of(s: Seq<char>) -> Seq<char>;

/// Whether `pattern` compiles as a regular expression of the `regex` crate and
/// then matches somewhere in `haystack` (false where it does not compile).
pub uninterp spec fn regex_finds(pattern: Seq<char>, haystack: Seq<char>) -> bool;

/// The characters that `regex::escape` prefixes with a backslash.
pub open spec fn is_meta_character(c: char) -> bool {
    c == '\\' || c == '.' || c == '+' || c == '*' || c == '?' || c == '(' || c == ')' || c == '|'
        || c == '[' || c == ']' || c == '{' || c == '}' || c == '^' || c == '$' || c == '#'
        || c == '&' || c == '-' || c == '~'
}

/// `s` with a backslash before each meta character.
pub open spec fn escaped(s: Seq<char>) -> Seq<char>
    decreases s.len(),
{
    if s.len() == 0 {
        Seq::empty()
    } else {
        escaped(s.drop_last()) + if is_meta_character(s.last()) {
            seq!['\\', s.last()]
        } else {
            seq![s.last()]
        }
    }
}

/// The pattern that finds `q` as a whole word: the escaped literal between two word boundaries.
pub open spec fn word_pattern(q: Seq<char>) -> Seq<char> {
    seq!['\\', 'b'] + escaped(q) + seq!['\\', 'b']
}

/// The length in bytes of the UTF-8 encoding of `q`.
pub open spec fn byte_len(q: Seq<char>) -> nat {
    encode_utf8(q).len()
}

/// The score of line `t` for query `q` (both already lowercased): ten per
/// non-overlapping occurrence, five more where a query of at least two bytes
/// occurs as a whole word, and two more for a query of at most four bytes.
pub open spec fn score_of(t: Seq<char>, q: Seq<char>) -> int {
    10 * occurrences(t, q)
        + (if byte_len(q) >= 2 && regex_finds(word_pattern(q), t) { 5int } else { 0int })
        + (if byte_len(q) <= 4 { 2int } else { 0int })
}

/// Relies on `str::to_lowercase`: the result depends on the characters alone.
#[verifier::external_body]
pub(crate) fn lowercase(s: &str) -> (r: String)
    ensures
        r@ == lower_of(s@),
{
    s.to_lowercase()
}

/// Relies on `str::chars`: the characters of `s`, in order.
#[verifier::external_body]
pub(crate) fn chars_of(s: &str) -> (r: Vec<char>)
    ensures
        r@ == s@,
{
    s.chars().collect()
}

/// Relies on `regex::escape`: a backslash is put before each meta character.
#[verifier::external_body]
fn escape(s: &str) -> (r: String)
    ensures
        r@ == escaped(s@),
{
    regex::escape(s)
}

/// Relies on `regex::Regex::new` and `regex::Regex::is_match`: whether the
/// compiled pattern matches somewhere in `haystack`; a pattern that does not
/// compile matches nothing.
#[verifier::external_body]
fn regex_is_match(pattern: &str, haystack: &str) -> (r: bool)
    ensures
        r == regex_finds(pattern@, haystack@),
{
    match regex::Regex::new(pattern) {
        Ok(re) => re.is_match(haystack),
        Err(_) => false,
    }
}

/// Builds the whole-word pattern for `q`.
pub fn build_word_pattern(q: &str) -> (r: String)
    ensures
        r@ == word_pattern(q@),
{
    let mut p = String::from_str("\\b");
    let e = escape(q);
    p.append(e.as_str());
    p.append("\\b");
    proof {
        reveal_strlit("\\b");
    }
    assert(p@ =~= word_pattern(q@));
    p
}

/// The score of the lowercased line `text` for the lowercased query `query`.
pub fn calculate_score(text: &str, query: &str) -> (r: u128)
    ensures
        r == score_of(text@, query@),
{
    let t = chars_of(text);
    let q = chars_of(query);
    let tl = t.len();
    assert(tl as int <= u64::MAX) by {
        assert(usize::MAX as int <= u64::MAX);
    }
    let occ = count_occurrences(&t, &q);
    let mut score: u128 = occ * 10;
    let qlen = query.as_bytes().len();
    assert(qlen == byte_len(query@));
    if qlen >= 2 {
        let pattern = build_word_pattern(query);
        if regex_is_match(pattern.as_str(), text) {
            score = score + 5;
        }
    }
    if qlen <= 4 {
        score = score + 2;
    }
    score
}

/// The score is a function of the line and the query alone: two calls on the
/// same line and query give the same score.
pub proof fn lemma_score_deterministic(t: Seq<char>, q: Seq<char>, first: u128, second: u128)
    requires
        first == score_of(t, q),
        second == score_of(t, q),
    ensures
        first == second,
{
}

} // verus!
