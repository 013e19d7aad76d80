//! Substring matching over character sequences.
use vstd::prelude::*;

verus! {

/// `q` occurs in `t` starting at position `i`.
pub open spec fn occurs_at(t: Seq<char>, q: Seq<char>, i: int) -> bool {
    0 <= i && i + q.len() <= t.len() && t.subrange(i, i + q.len()) == q
}

/// `q` is a substring of `t`.
pub open spec fn contains(t: Seq<char>, q: Seq<char>) -> bool {
    exists|i: int| occurs_at(t, q, i)
}

/// Occurrences of a non-empty `q` in `t`, searched left to right from position `i`,
/// each search resuming after the end of the previous occurrence.
pub open spec fn occurrences_from(t: Seq<char>, q: Seq<char>, i: int) -> nat
    decreases t.len() - i,
{
    if q.len() == 0 || i < 0 || i + q.len() > t.len() {
        0
    } else if occurs_at(t, q, i) {
        1 + occurrences_from(t, q, i + q.len())
    } else {
        occurrences_from(t, q, i + 1)
    }
}

/// The number of non-overlapping occurrences of `q` in `t`. The empty pattern
/// matches once at each position, before every character and at the end.
pub open spec fn occurrences(t: Seq<char>, q: Seq<char>) -> nat {
    if q.len() == 0 {
        t.len() + 1
    } else {
        occurrences_from(t, q, 0)
    }
}

fn occurs_at_exec(t: &Vec<char>, q: &Vec<char>, i: usize) -> (r: bool)
    requires
        i <= t@.len(),
    ensures
        r == occurs_at(t@, q@, i as int),
{
    if q.len() > t.len() - i {
        return false;
    }
    let tl = t.len();
    let mut k: usize = 0;
    while k < q.len()
        invariant
            tl == t@.len(),
            i + q@.len() <= t@.len(),
            k <= q@.len(),
            forall|j: int| 0 <= j < k ==> t@[i + j] == q@[j],
        decreases q@.len() - k,
    {
        assert(i + k < tl);
        if t[i + k] != q[k] {
            assert(t@.subrange(i as int, i + q@.len())[k as int] != q@[k as int]);
            return false;
        }
        k = k + 1;
    }
    assert(t@.subrange(i as int, i + q@.len()) =~= q@);
    true
}

/// Whether `q` is a substring of `t`.
pub fn contains_chars(t: &Vec<char>, q: &Vec<char>) -> (r: bool)
    ensures
        r == contains(t@, q@),
{
    let mut i: usize = 0;
    while i < t.len()
        invariant
            i <= t@.len(),
            forall|j: int| 0 <= j < i ==> !occurs_at(t@, q@, j),
        decreases t@.len() - i,
    {
        if occurs_at_exec(t, q, i) {
            return true;
        }
        i = i + 1;
    }
    if occurs_at_exec(t, q, t.len()) {
        return true;
    }
    assert forall|j: int| !occurs_at(t@, q@, j) by {
        if 0 <= j < t@.len() {
            assert(j < i);
        }
    }
    false
}

/// The number of non-overlapping occurrences of `q` in `t`, found left to right.
pub fn count_occurrences(t: &Vec<char>, q: &Vec<char>) -> (r: u128)
    ensures
        r == occurrences(t@, q@),
        r <= t@.len() + 1,
{
    if q.len() == 0 {
        return t.len() as u128 + 1;
    }
    let mut i: usize = 0;
    let mut n: u128 = 0;
    while q.len() <= t.len() - i
        invariant
            q@.len() > 0,
            i <= t@.len(),
            n <= i,
            n + occurrences_from(t@, q@, i as int) == occurrences_from(t@, q@, 0),
        decreases t@.len() - i,
    {
        if occurs_at_exec(t, q, i) {
            n = n + 1;
            i = i + q.len();
        } else {
            i = i + 1;
        }
    }
    n
}

} // verus!
