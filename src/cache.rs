//! The document cache: the eligible files found by a walk of the root directory.
use vstd::prelude::*;
use crate::clock::{Timestamp, now};
use crate::scorer::chars_of;
use crate::search::Document;

verus! {

/// One entry met by the directory walk: its path, its file name, and whether
/// it is a regular file.
#[derive(Debug)]
pub struct WalkEntry {
    pub path: String,
    pub file_name: String,
    pub is_file: bool,
}

/// `e` is the accepted extension, `txt`, in any mix of ASCII case.
pub open spec fn is_accepted_extension(e: Seq<char>) -> bool {
    &&& e.len() == 3
    &&& (e[0] == 't' || e[0] == 'T')
    &&& (e[1] == 'x' || e[1] == 'X')
    &&& (e[2] == 't' || e[2] == 'T')
}

/// The extension of a file name: what follows its last dot, where that dot is
/// not the first character.
pub open spec fn has_extension(name: Seq<char>, e: Seq<char>) -> bool {
    exists|i: int|
        0 < i < name.len() && name[i] == '.' && (forall|j: int| i < j < name.len() ==> name[j] != '.')
            && e == name.subrange(i + 1, name.len() as int)
}

/// A walk entry that belongs in the cache: a regular file with the accepted extension.
pub open spec fn eligible(e: WalkEntry) -> bool {
    e.is_file && exists|x: Seq<char>| has_extension(e.file_name@, x) && is_accepted_extension(x)
}

/// The documents that a walk yields: the eligible entries, as (path, file name), in walk order.
pub open spec fn eligible_docs(entries: Seq<WalkEntry>) -> Seq<(Seq<char>, Seq<char>)>
    decreases entries.len(),
{
    if entries.len() == 0 {
        Seq::empty()
    } else {
        eligible_docs(entries.drop_last()) + if eligible(entries.last()) {
            seq![(entries.last().path@, entries.last().file_name@)]
        } else {
            Seq::empty()
        }
    }
}

/// The documents, as (path, file name).
pub open spec fn docs_view(docs: Seq<Document>) -> Seq<(Seq<char>, Seq<char>)> {
    docs.map_values(|d: Document| (d.path@, d.file_name@))
}

/// Whether a file of this name has the accepted extension.
pub fn has_accepted_extension(name: &str) -> (r: bool)
    ensures
        r == exists|x: Seq<char>| has_extension(name@, x) && is_accepted_extension(x),
{
    let c = chars_of(name);
    let n = c.len();
    if n < 5 {
        proof {
            assert forall|x: Seq<char>| !(has_extension(name@, x) && is_accepted_extension(x)) by {
                if has_extension(name@, x) && is_accepted_extension(x) {
                    let i = choose|i: int|
                        0 < i < name@.len() && name@[i] == '.' && (forall|j: int|
                            i < j < name@.len() ==> name@[j] != '.') && x == name@.subrange(
                            i + 1,
                            name@.len() as int,
                        );
                    assert(x.len() == n - i - 1);
                }
            }
        }
        return false;
    }
    let ok = c[n - 4] == '.' && (c[n - 3] == 't' || c[n - 3] == 'T') && (c[n - 2] == 'x' || c[n
        - 2] == 'X') && (c[n - 1] == 't' || c[n - 1] == 'T');
    proof {
        let ext = name@.subrange(n - 3, n as int);
        if ok {
            assert(has_extension(name@, ext));
            assert(is_accepted_extension(ext));
        } else {
            assert forall|x: Seq<char>| !(has_extension(name@, x) && is_accepted_extension(x)) by {
                if has_extension(name@, x) && is_accepted_extension(x) {
                    let i = choose|i: int|
                        0 < i < name@.len() && name@[i] == '.' && (forall|j: int|
                            i < j < name@.len() ==> name@[j] != '.') && x == name@.subrange(
                            i + 1,
                            name@.len() as int,
                        );
                    assert(x.len() == n - i - 1);
                    assert(i == n - 4);
                    assert(x[0] == name@[n - 3]);
                    assert(x[1] == name@[n - 2]);
                    assert(x[2] == name@[n - 1]);
                }
            }
        }
    }
    ok
}

/// The cached documents and the time of the last refresh.
pub struct DocumentCache {
    pub documents: Vec<Document>,
    pub last_scanned: Timestamp,
}

impl DocumentCache {
    /// Rebuilds the cache from the entries of a fresh walk of the root, in walk
    /// order, and records the time.
    pub fn refresh(&mut self, entries: &Vec<WalkEntry>)
        ensures
            docs_view(final(self).documents@) == eligible_docs(entries@),
    {
        let mut docs: Vec<Document> = Vec::new();
        let mut i: usize = 0;
        while i < entries.len()
            invariant
                i <= entries@.len(),
                docs_view(docs@) == eligible_docs(entries@.subrange(0, i as int)),
            decreases entries@.len() - i,
        {
            let e = &entries[i];
            let ghost before = docs@;
            proof {
                assert(entries@.subrange(0, i + 1).drop_last() =~= entries@.subrange(0, i as int));
            }
            if e.is_file && has_accepted_extension(e.file_name.as_str()) {
                docs.push(Document { path: e.path.clone(), file_name: e.file_name.clone() });
                proof {
                    assert(docs_view(docs@) =~= docs_view(before).push((e.path@, e.file_name@)));
                }
            }
            i = i + 1;
        }
        proof {
            assert(entries@.subrange(0, entries@.len() as int) =~= entries@);
        }
        self.documents = docs;
        self.last_scanned = now();
    }
}

} // verus!
