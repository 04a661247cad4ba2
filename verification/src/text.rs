//! Character-sequence scanning primitives: substring search and substring
//! removal, with executable counterparts proved against the spec-level
//! definitions.

use vstd::prelude::*;

verus! {

/// The pattern `pat` occurs in `text` starting at position `i`.
pub open spec fn occurs_at(text: Seq<char>, pat: Seq<char>, i: int) -> bool {
    &&& 0 <= i
    &&& i + pat.len() <= text.len()
    &&& forall|k: int| 0 <= k < pat.len() ==> text[i + k] == pat[k]
}

/// `text` contains `pat` somewhere.
pub open spec fn contains_pat(text: Seq<char>, pat: Seq<char>) -> bool {
    exists|i: int| occurs_at(text, pat, i)
}

/// Position of the leftmost occurrence of `pat` in `text`, if any.
pub open spec fn find_pat(text: Seq<char>, pat: Seq<char>) -> Option<int>
    decreases text.len(),
{
    if occurs_at(text, pat, 0) {
        Some(0)
    } else if text.len() == 0 {
        None
    } else {
        match find_pat(text.drop_first(), pat) {
            None => None,
            Some(i) => Some(i + 1),
        }
    }
}

/// `find_pat` returns exactly the leftmost occurrence: a returned position is
/// an occurrence with none before it, and `None` means no occurrence at all.
pub proof fn lemma_find_pat_characterization(text: Seq<char>, pat: Seq<char>)
    ensures
        match find_pat(text, pat) {
            Some(i) => occurs_at(text, pat, i) && forall|j: int| 0 <= j < i ==> !occurs_at(
                text,
                pat,
                j,
            ),
            None => forall|j: int| !occurs_at(text, pat, j),
        },
    decreases text.len(),
{
    if occurs_at(text, pat, 0) {
    } else if text.len() == 0 {
        assert forall|j: int| !occurs_at(text, pat, j) by {
            if 0 <= j && j + pat.len() <= text.len() {
                assert(j == 0 && pat.len() == 0);
            }
        }
    } else {
        let rest = text.drop_first();
        lemma_find_pat_characterization(rest, pat);
        assert forall|j: int| 1 <= j implies occurs_at(text, pat, j) == occurs_at(
            rest,
            pat,
            j - 1,
        ) by {
            if occurs_at(text, pat, j) {
                assert forall|k: int| 0 <= k < pat.len() implies rest[j - 1 + k] == pat[k] by {
                    assert(rest[j - 1 + k] == text[j + k]);
                }
            }
            if occurs_at(rest, pat, j - 1) {
                assert forall|k: int| 0 <= k < pat.len() implies text[j + k] == pat[k] by {
                    assert(rest[j - 1 + k] == text[j + k]);
                }
            }
        }
    }
}

/// An occurrence found by `find_pat` lies within the text.
pub proof fn lemma_find_pat_in_range(text: Seq<char>, pat: Seq<char>)
    ensures
        match find_pat(text, pat) {
            Some(i) => 0 <= i && i + pat.len() <= text.len(),
            None => true,
        },
{
    lemma_find_pat_characterization(text, pat);
}

/// Whether `pat` occurs in `text` at position `start`.
fn match_at(text: &str, pat: &str, start: usize) -> (r: bool)
    requires
        start + pat@.len() <= text@.len() <= usize::MAX,
    ensures
        r == occurs_at(text@, pat@, start as int),
{
    let m = pat.unicode_len();
    let mut k: usize = 0;
    while k < m
        invariant
            k <= m,
            m == pat@.len(),
            start + m <= text@.len() <= usize::MAX,
            forall|kk: int| 0 <= kk < k ==> text@[start + kk] == pat@[kk],
        decreases m - k,
    {
        if text.get_char(start + k) != pat.get_char(k) {
            return false;
        }
        k += 1;
    }
    true
}

/// Position of the leftmost occurrence of `pat` in `text`, if any.
pub fn find_sub(text: &str, pat: &str) -> (r: Option<usize>)
    ensures
        match r {
            Some(i) => find_pat(text@, pat@) == Some(i as int),
            None => find_pat(text@, pat@) is None,
        },
{
    let n = text.unicode_len();
    let m = pat.unicode_len();
    proof {
        lemma_find_pat_characterization(text@, pat@);
    }
    if m == 0 {
        return Some(0);
    }
    if m > n {
        return None;
    }
    let mut i: usize = 0;
    while i <= n - m
        invariant
            n == text@.len(),
            m == pat@.len(),
            0 < m <= n,
            i <= n - m + 1,
            forall|j: int| 0 <= j < i ==> !occurs_at(text@, pat@, j),
        decreases n - m - i + 1,
    {
        if match_at(text, pat, i) {
            proof {
                lemma_find_pat_characterization(text@, pat@);
                if let Some(i0) = find_pat(text@, pat@) {
                    assert(i0 == i as int);
                }
            }
            return Some(i);
        }
        i += 1;
    }
    proof {
        lemma_find_pat_characterization(text@, pat@);
        assert forall|j: int| !occurs_at(text@, pat@, j) by {
            if 0 <= j && j + pat@.len() <= text@.len() {
                assert(j < i);
            }
        }
    }
    None
}

/// Whether `a` and `b` hold the same characters.
pub fn str_eq(a: &str, b: &str) -> (r: bool)
    ensures
        r == (a@ == b@),
{
    let n = a.unicode_len();
    if n != b.unicode_len() {
        return false;
    }
    let mut i: usize = 0;
    while i < n
        invariant
            n == a@.len(),
            n == b@.len(),
            i <= n,
            forall|j: int| 0 <= j < i ==> a@[j] == b@[j],
        decreases n - i,
    {
        if a.get_char(i) != b.get_char(i) {
            return false;
        }
        i += 1;
    }
    proof {
        assert(a@ =~= b@);
    }
    true
}

} // verus!
