//! Text helpers: character-exact string comparison, and splitting a blame
//! line into its change-identifier and revision-hash parts at the last
//! space character.

use vstd::prelude::*;

verus! {

/// The position of the last space character of `s`, or -1 when `s` holds
/// no space.
pub open spec fn last_space(s: Seq<char>) -> int
    decreases s.len(),
{
    if s.len() == 0 {
        -1
    } else if s.last() == ' ' {
        s.len() - 1
    } else {
        last_space(s.drop_last())
    }
}

/// `last_space` is what its name says: -1 exactly when there is no space,
/// and otherwise the index of a space that no later space follows.
pub proof fn lemma_last_space(s: Seq<char>)
    ensures
        -1 <= last_space(s) < s.len(),
        last_space(s) == -1 <==> (forall|i: int| 0 <= i < s.len() ==> s[i] != ' '),
        last_space(s) >= 0 ==> s[last_space(s)] == ' ',
        forall|j: int| last_space(s) < j < s.len() ==> s[j] != ' ',
    decreases s.len(),
{
    if s.len() > 0 {
        lemma_last_space(s.drop_last());
        assert(forall|i: int| 0 <= i < s.len() - 1 ==> s.drop_last()[i] == s[i]);
    }
}

/// The change-identifier part of a blame line: everything before the last
/// space, or empty when the line holds no space.
pub open spec fn spec_change_part(s: Seq<char>) -> Seq<char> {
    if last_space(s) >= 0 {
        s.take(last_space(s))
    } else {
        Seq::empty()
    }
}

/// The revision-hash part of a blame line: everything after the last
/// space, or the whole line when it holds no space.
pub open spec fn spec_hash_part(s: Seq<char>) -> Seq<char> {
    if last_space(s) >= 0 {
        s.subrange(last_space(s) + 1, s.len() as int)
    } else {
        s
    }
}

/// Whether two strings hold the same characters.
pub fn str_eq(a: &str, b: &str) -> (r: bool)
    ensures
        r == (a@ == b@),
{
    let la = a.unicode_len();
    let lb = b.unicode_len();
    if la != lb {
        return false;
    }
    let mut i: usize = 0;
    while i < la
        invariant
            i <= la,
            la == a@.len(),
            la == b@.len(),
            forall|j: int| 0 <= j < i ==> a@[j] == b@[j],
        decreases la - i,
    {
        let ca = a.get_char(i);
        let cb = b.get_char(i);
        if ca != cb {
            return false;
        }
        i = i + 1;
    }
    proof {
        assert(a@ =~= b@);
    }
    true
}

/// Splits a blame line at its last space character into the
/// change-identifier part and the revision-hash part, exactly as
/// [`spec_change_part`] and [`spec_hash_part`] give them. A line with no
/// space yields an empty change identifier and the whole line as hash.
pub fn split_blame_line<'a>(line: &'a str) -> (r: (&'a str, &'a str))
    ensures
        r.0@ == spec_change_part(line@),
        r.1@ == spec_hash_part(line@),
{
    let len = line.unicode_len();
    let mut found: bool = false;
    let mut pos: usize = 0;
    let mut i: usize = 0;
    proof {
        assert(line@.take(0) =~= Seq::<char>::empty());
    }
    while i < len
        invariant
            i <= len,
            len == line@.len(),
            found == (last_space(line@.take(i as int)) >= 0),
            found ==> pos == last_space(line@.take(i as int)) && pos < i,
        decreases len - i,
    {
        let c = line.get_char(i);
        proof {
            let cur = line@.take(i + 1);
            assert(cur.drop_last() =~= line@.take(i as int));
            assert(cur.last() == line@[i as int]);
        }
        if c == ' ' {
            found = true;
            pos = i;
        }
        i = i + 1;
    }
    proof {
        assert(line@.take(len as int) =~= line@);
    }
    if found {
        let change = line.substring_char(0, pos);
        let hash = line.substring_char(pos + 1, len);
        proof {
            assert(change@ =~= spec_change_part(line@));
            assert(hash@ =~= spec_hash_part(line@));
        }
        (change, hash)
    } else {
        proof {
            reveal_strlit("");
            assert(""@ =~= spec_change_part(line@));
        }
        ("", line)
    }
}

} // verus!
