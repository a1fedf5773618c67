//! Searching byte strings for byte patterns.

use vstd::prelude::*;

verus! {

/// `pat` occurs in `hay` starting at position `i`.
pub open spec fn occurs_at(hay: Seq<u8>, pat: Seq<u8>, i: int) -> bool {
    0 <= i && i + pat.len() <= hay.len() && hay.subrange(i, i + pat.len()) == pat
}

/// `pat` occurs somewhere in `hay`.
pub open spec fn contains_seq(hay: Seq<u8>, pat: Seq<u8>) -> bool {
    exists|i: int| occurs_at(hay, pat, i)
}

/// Whether `pat` occurs in `hay` at position `i`.
pub fn matches_at(hay: &[u8], pat: &[u8], i: usize) -> (r: bool)
    ensures
        r == occurs_at(hay@, pat@, i as int),
{
    if i > hay.len() || pat.len() > hay.len() - i {
        return false;
    }
    let n = hay.len();
    let mut k: usize = 0;
    while k < pat.len()
        invariant
            n == hay@.len(),
            i + pat@.len() <= hay@.len(),
            k <= pat@.len(),
            forall|j: int| 0 <= j < k ==> hay@[i + j] == pat@[j],
        decreases pat@.len() - k,
    {
        if hay[i + k] != pat[k] {
            assert(hay@.subrange(i as int, i + pat@.len())[k as int] != pat@[k as int]);
            return false;
        }
        k = k + 1;
    }
    assert(hay@.subrange(i as int, i + pat@.len()) =~= pat@);
    true
}

/// The first position at or after `from` where `pat` occurs in `hay`.
pub fn find_from(hay: &[u8], pat: &[u8], from: usize) -> (r: Option<usize>)
    ensures
        match r {
            Some(i) => from <= i && occurs_at(hay@, pat@, i as int) && forall|j: int|
                from <= j < i ==> !occurs_at(hay@, pat@, j),
            None => forall|j: int| from <= j ==> !occurs_at(hay@, pat@, j),
        },
{
    if pat.len() > hay.len() || from > hay.len() - pat.len() {
        return None;
    }
    let last = hay.len() - pat.len();
    let mut i = from;
    while i <= last
        invariant
            from <= i,
            last == hay@.len() - pat@.len(),
            forall|j: int| from <= j < i ==> !occurs_at(hay@, pat@, j),
        decreases last + 1 - i,
    {
        if matches_at(hay, pat, i) {
            return Some(i);
        }
        if i == last {
            return None;
        }
        i = i + 1;
    }
    None
}

/// Whether `pat` occurs anywhere in `hay`.
pub fn contains(hay: &[u8], pat: &[u8]) -> (r: bool)
    ensures
        r == contains_seq(hay@, pat@),
{
    match find_from(hay, pat, 0) {
        Some(i) => true,
        None => {
            assert forall|j: int| !occurs_at(hay@, pat@, j) by {
                if j < 0 {
                }
            }
            false
        },
    }
}

/// `pat` occurs at `i` and at no earlier position of `hay`.
pub open spec fn is_first_occurrence(hay: Seq<u8>, pat: Seq<u8>, i: int) -> bool {
    occurs_at(hay, pat, i) && forall|j: int| 0 <= j < i ==> !occurs_at(hay, pat, j)
}

/// `pat` occurs at `i` and at no later position of `hay`.
pub open spec fn is_last_occurrence(hay: Seq<u8>, pat: Seq<u8>, i: int) -> bool {
    occurs_at(hay, pat, i) && forall|j: int| i < j ==> !occurs_at(hay, pat, j)
}

/// The last position where `pat` occurs in `hay`.
pub fn find_last(hay: &[u8], pat: &[u8]) -> (r: Option<usize>)
    ensures
        match r {
            Some(i) => is_last_occurrence(hay@, pat@, i as int),
            None => forall|j: int| !occurs_at(hay@, pat@, j),
        },
{
    if pat.len() > hay.len() {
        return None;
    }
    let mut i = hay.len() - pat.len();
    loop
        invariant
            i + pat@.len() <= hay@.len(),
            forall|j: int| i < j ==> !occurs_at(hay@, pat@, j),
        decreases i,
    {
        if matches_at(hay, pat, i) {
            return Some(i);
        }
        if i == 0 {
            assert forall|j: int| !occurs_at(hay@, pat@, j) by {
                if j < 0 {
                }
            }
            return None;
        }
        i = i - 1;
    }
}

} // verus!
