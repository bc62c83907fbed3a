//! The revision index: a map from a revision identifier (the exact text of
//! one line of the revision-list file) to its 0-based line position, the
//! revision's age rank.
//!
//! A line that could not be decoded is passed in as `None`: it is not
//! inserted, but it still occupies a line position, so it consumes a rank.
//! When the same identifier occurs on several lines the last occurrence
//! wins, as repeated map insertion overwrites.

use vstd::hash_map::StringHashMap;
use vstd::prelude::*;
use vstd::set::axiom_set_insert_len;

verus! {

/// The revision index of a sequence of revision-list lines: each `Some`
/// line maps its text to its position, later lines overwriting earlier
/// ones; `None` lines are skipped.
pub open spec fn rev_map(rev: Seq<Option<Seq<char>>>) -> Map<Seq<char>, usize>
    decreases rev.len(),
{
    if rev.len() == 0 {
        Map::empty()
    } else {
        let m = rev_map(rev.drop_last());
        match rev.last() {
            None => m,
            Some(s) => m.insert(s, (rev.len() - 1) as usize),
        }
    }
}

/// The revision index has a finite domain and no more entries than the
/// file has lines.
pub proof fn lemma_rev_map_len(rev: Seq<Option<Seq<char>>>)
    ensures
        rev_map(rev).dom().finite(),
        rev_map(rev).len() <= rev.len(),
    decreases rev.len(),
{
    if rev.len() > 0 {
        lemma_rev_map_len(rev.drop_last());
        let m = rev_map(rev.drop_last());
        match rev.last() {
            None => {},
            Some(s) => {
                axiom_set_insert_len(m.dom(), s);
            },
        }
    }
}

/// A key is in the revision index exactly when some decoded line holds its
/// text, and its rank is then the position of the last such line.
pub proof fn lemma_rev_map_is_last_occurrence(rev: Seq<Option<Seq<char>>>, h: Seq<char>)
    requires
        rev.len() <= usize::MAX,
    ensures
        rev_map(rev).contains_key(h) <==> (exists|i: int| 0 <= i < rev.len() && rev[i] == Some(h)),
        rev_map(rev).contains_key(h) ==> 0 <= rev_map(rev)[h] < rev.len(),
        rev_map(rev).contains_key(h) ==> rev[rev_map(rev)[h] as int] == Some(h),
        rev_map(rev).contains_key(h) ==> (forall|j: int|
            rev_map(rev)[h] < j < rev.len() ==> rev[j] != Some(h)),
    decreases rev.len(),
{
    if rev.len() > 0 {
        lemma_rev_map_is_last_occurrence(rev.drop_last(), h);
        let prior = rev.drop_last();
        assert(forall|i: int| 0 <= i < prior.len() ==> prior[i] == rev[i]);
        match rev.last() {
            None => {
                if rev_map(rev).contains_key(h) {
                    let r = rev_map(rev)[h] as int;
                    assert(rev[r] == Some(h));
                }
                if exists|i: int| 0 <= i < rev.len() && rev[i] == Some(h) {
                    let i = choose|i: int| 0 <= i < rev.len() && rev[i] == Some(h);
                    assert(rev[i] == Some(h));
                    assert(i < rev.len() - 1);
                    assert(prior[i] == Some(h));
                }
            },
            Some(s) => {
                if s == h {
                    assert(rev[rev.len() - 1] == Some(h));
                } else {
                    if rev_map(rev).contains_key(h) {
                        let r = rev_map(rev)[h] as int;
                        assert(rev[r] == Some(h));
                    }
                    if exists|i: int| 0 <= i < rev.len() && rev[i] == Some(h) {
                        let i = choose|i: int| 0 <= i < rev.len() && rev[i] == Some(h);
                        assert(i < rev.len() - 1);
                        assert(prior[i] == Some(h));
                    }
                }
            },
        }
    }
}

/// Builds the revision index of the given revision-list lines, exactly as
/// [`rev_map`] gives it. A `None` stands for a line that could not be
/// decoded: it is skipped, but its position still counts.
pub fn build_rev_index(lines: &Vec<Option<String>>) -> (index: StringHashMap<usize>)
    ensures
        index@ == rev_map(lines.deep_view()),
{
    let mut index = StringHashMap::<usize>::new();
    let mut i: usize = 0;
    proof {
        assert(lines.deep_view().take(0) =~= Seq::<Option<Seq<char>>>::empty());
    }
    while i < lines.len()
        invariant
            i <= lines.len(),
            lines.deep_view().len() == lines.len(),
            index@ == rev_map(lines.deep_view().take(i as int)),
        decreases lines.len() - i,
    {
        let ghost pre = lines.deep_view().take(i as int);
        let ghost cur = lines.deep_view().take(i + 1);
        proof {
            assert(cur.drop_last() =~= pre);
            assert(cur.last() == lines.deep_view()[i as int]);
        }
        match &lines[i] {
            Some(line) => {
                index.insert(line.clone(), i);
            },
            None => {},
        }
        i = i + 1;
    }
    proof {
        assert(lines.deep_view().take(lines.len() as int) =~= lines.deep_view());
    }
    index
}

/// The age rank that a blame hash resolves to against a revision index
/// with map `m`: the recorded rank on a hit; on a miss, the last rank
/// `m.len() - 1` (an unknown revision counts as newest), or 0 when the
/// index is empty.
pub open spec fn spec_resolve_rank(m: Map<Seq<char>, usize>, h: Seq<char>) -> usize {
    if m.contains_key(h) {
        m[h]
    } else if m.len() == 0 {
        0
    } else {
        (m.len() - 1) as usize
    }
}

/// Resolves `hash` against the revision index, exactly as
/// [`spec_resolve_rank`] says: a hit yields the recorded rank, a miss the
/// index's last rank (0 when the index is empty).
pub fn resolve_rank(index: &StringHashMap<usize>, hash: &str) -> (rank: usize)
    ensures
        rank == spec_resolve_rank(index@, hash@),
{
    match index.get(hash) {
        Some(v) => *v,
        None => {
            let n = index.len();
            if n == 0 {
                0
            } else {
                n - 1
            }
        },
    }
}

} // verus!
