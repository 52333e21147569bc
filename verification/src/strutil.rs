//! Character-level building blocks shared by the version canonicalizers and
//! the catalog lookups: locating characters and substrings, counting, exact
//! string comparison and suffix tests.

use vstd::prelude::*;

verus! {

/// The position of the first element of `s` equal to `x`, if any.
pub open spec fn seq_first_idx<A>(s: Seq<A>, x: A) -> Option<int>
    decreases s.len(),
{
    if s.len() == 0 {
        None
    } else if s[0] == x {
        Some(0)
    } else {
        match seq_first_idx(s.drop_first(), x) {
            Some(i) => Some(i + 1),
            None => None,
        }
    }
}

/// The position of the last element of `s` equal to `x`, if any.
pub open spec fn seq_last_idx<A>(s: Seq<A>, x: A) -> Option<int>
    decreases s.len(),
{
    if s.len() == 0 {
        None
    } else if s.last() == x {
        Some(s.len() - 1)
    } else {
        seq_last_idx(s.drop_last(), x)
    }
}

/// How many elements of `s` equal `x`.
pub open spec fn seq_count<A>(s: Seq<A>, x: A) -> nat
    decreases s.len(),
{
    if s.len() == 0 {
        0
    } else {
        seq_count(s.drop_last(), x) + if s.last() == x {
            1nat
        } else {
            0nat
        }
    }
}

/// `seq_first_idx` returns exactly the least position holding `x`, or `None`
/// when no position does.
pub proof fn lemma_seq_first_idx<A>(s: Seq<A>, x: A)
    ensures
        match seq_first_idx(s, x) {
            Some(i) => 0 <= i < s.len() && s[i] == x && forall|j: int| 0 <= j < i ==> s[j] != x,
            None => forall|j: int| 0 <= j < s.len() ==> s[j] != x,
        },
    decreases s.len(),
{
    if s.len() > 0 && s[0] != x {
        let t = s.drop_first();
        lemma_seq_first_idx(t, x);
        assert(forall|j: int| 0 <= j < t.len() ==> t[j] == s[j + 1]);
        match seq_first_idx(t, x) {
            Some(i) => {
                assert(s[i + 1] == t[i]);
                assert forall|j: int| 0 <= j < i + 1 implies s[j] != x by {
                    if j > 0 {
                        assert(s[j] == t[j - 1]);
                    }
                }
            },
            None => {
                assert forall|j: int| 0 <= j < s.len() implies s[j] != x by {
                    if j > 0 {
                        assert(s[j] == t[j - 1]);
                    }
                }
            },
        }
    }
}

/// `seq_last_idx` returns exactly the greatest position holding `x`, or
/// `None` when no position does.
pub proof fn lemma_seq_last_idx<A>(s: Seq<A>, x: A)
    ensures
        match seq_last_idx(s, x) {
            Some(i) => 0 <= i < s.len() && s[i] == x && forall|j: int| i < j < s.len() ==> s[j] != x,
            None => forall|j: int| 0 <= j < s.len() ==> s[j] != x,
        },
    decreases s.len(),
{
    if s.len() > 0 && s.last() != x {
        let t = s.drop_last();
        lemma_seq_last_idx(t, x);
        assert(forall|j: int| 0 <= j < t.len() ==> t[j] == s[j]);
        match seq_last_idx(t, x) {
            Some(i) => {
                assert forall|j: int| i < j < s.len() implies s[j] != x by {
                    if j < s.len() - 1 {
                        assert(s[j] == t[j]);
                    }
                }
            },
            None => {
                assert forall|j: int| 0 <= j < s.len() implies s[j] != x by {
                    if j < s.len() - 1 {
                        assert(s[j] == t[j]);
                    }
                }
            },
        }
    }
}

/// Counting over a sequence can also be unfolded from the front.
pub proof fn lemma_seq_count_drop_first<A>(s: Seq<A>, x: A)
    requires
        s.len() > 0,
    ensures
        seq_count(s, x) == seq_count(s.drop_first(), x) + if s[0] == x {
            1nat
        } else {
            0nat
        },
    decreases s.len(),
{
    if s.len() == 1 {
        assert(s.drop_first() =~= s.drop_last());
    } else {
        lemma_seq_count_drop_first(s.drop_last(), x);
        assert(s.drop_last().drop_first() =~= s.drop_first().drop_last());
        assert(s.drop_first().last() == s.last());
    }
}

/// A count of zero means no element equals `x`, and conversely.
pub proof fn lemma_seq_count_zero<A>(s: Seq<A>, x: A)
    ensures
        (seq_count(s, x) == 0) <==> (forall|j: int| 0 <= j < s.len() ==> s[j] != x),
    decreases s.len(),
{
    if s.len() > 0 {
        let t = s.drop_last();
        lemma_seq_count_zero(t, x);
        assert(forall|j: int| 0 <= j < t.len() ==> t[j] == s[j]);
        if s.last() != x && seq_count(t, x) == 0 {
            assert forall|j: int| 0 <= j < s.len() implies s[j] != x by {
                if j < s.len() - 1 {
                    assert(s[j] == t[j]);
                }
            }
        }
        if forall|j: int| 0 <= j < s.len() ==> s[j] != x {
            assert(s.last() != x);
        }
    }
}

/// Counting splits over a cut of the sequence.
pub proof fn lemma_seq_count_split<A>(s: Seq<A>, x: A, k: int)
    requires
        0 <= k <= s.len(),
    ensures
        seq_count(s, x) == seq_count(s.subrange(0, k), x) + seq_count(
            s.subrange(k, s.len() as int),
            x,
        ),
    decreases s.len(),
{
    if k == s.len() {
        assert(s.subrange(0, k) =~= s);
        assert(seq_count(s.subrange(k, s.len() as int), x) == 0);
    } else {
        let t = s.drop_last();
        lemma_seq_count_split(t, x, k);
        assert(t.subrange(0, k) =~= s.subrange(0, k));
        assert(s.subrange(k, s.len() as int).drop_last() =~= t.subrange(k, t.len() as int));
        assert(s.subrange(k, s.len() as int).last() == s.last());
    }
}

/// `pat` occurs in `s` starting at position `i`.
pub open spec fn matches_at(s: Seq<char>, pat: Seq<char>, i: int) -> bool {
    &&& 0 <= i
    &&& i + pat.len() <= s.len()
    &&& forall|k: int| 0 <= k < pat.len() ==> s[i + k] == pat[k]
}

/// `pat` occurs somewhere in `s`.
pub open spec fn has_match(s: Seq<char>, pat: Seq<char>) -> bool {
    exists|i: int| matches_at(s, pat, i)
}

/// `i` is the first occurrence of `pat` in `s`.
pub open spec fn is_first_match(s: Seq<char>, pat: Seq<char>, i: int) -> bool {
    matches_at(s, pat, i) && forall|j: int| 0 <= j < i ==> !matches_at(s, pat, j)
}

/// The position of the first occurrence of `pat` in `s`; meaningful only
/// when `has_match(s, pat)` holds.
pub open spec fn first_match_idx(s: Seq<char>, pat: Seq<char>) -> int {
    choose|i: int| is_first_match(s, pat, i)
}

proof fn lemma_some_first_match(s: Seq<char>, pat: Seq<char>, i: int)
    requires
        matches_at(s, pat, i),
    ensures
        exists|k: int| is_first_match(s, pat, k),
    decreases i,
{
    if forall|j: int| 0 <= j < i ==> !matches_at(s, pat, j) {
        assert(is_first_match(s, pat, i));
    } else {
        let j = choose|j: int| 0 <= j < i && matches_at(s, pat, j);
        lemma_some_first_match(s, pat, j);
    }
}

/// When `pat` occurs in `s`, `first_match_idx` is its one first occurrence.
pub proof fn lemma_first_match_idx(s: Seq<char>, pat: Seq<char>)
    requires
        has_match(s, pat),
    ensures
        is_first_match(s, pat, first_match_idx(s, pat)),
        forall|i: int| is_first_match(s, pat, i) ==> i == first_match_idx(s, pat),
{
    let w = choose|i: int| matches_at(s, pat, i);
    lemma_some_first_match(s, pat, w);
    let f = first_match_idx(s, pat);
    assert(is_first_match(s, pat, f));
    assert forall|i: int| is_first_match(s, pat, i) implies i == f by {
        if i < f {
            assert(matches_at(s, pat, i));
        }
        if f < i {
            assert(matches_at(s, pat, f));
        }
    }
}

/// Exact character-for-character equality of two string slices.
pub fn str_eq(a: &str, b: &str) -> (r: bool)
    ensures
        r == (a@ == b@),
{
    let n = a.unicode_len();
    if n != b.unicode_len() {
        return false;
    }
    let mut i: usize = 0;
    while i < n
        invariant
            n == a@.len(),
            n == b@.len(),
            i <= n,
            forall|j: int| 0 <= j < i ==> a@[j] == b@[j],
        decreases n - i,
    {
        if a.get_char(i) != b.get_char(i) {
            return false;
        }
        i += 1;
    }
    proof {
        assert(a@ =~= b@);
    }
    true
}

/// The least position of `c` in `s`, or `None` when `c` does not occur.
pub fn find_char(s: &str, c: char) -> (r: Option<usize>)
    ensures
        match r {
            Some(i) => seq_first_idx(s@, c) == Some(i as int),
            None => seq_first_idx(s@, c) is None,
        },
{
    let n = s.unicode_len();
    let mut i: usize = 0;
    while i < n
        invariant
            n == s@.len(),
            i <= n,
            forall|j: int| 0 <= j < i ==> s@[j] != c,
        decreases n - i,
    {
        if s.get_char(i) == c {
            proof {
                lemma_seq_first_idx(s@, c);
            }
            return Some(i);
        }
        i += 1;
    }
    proof {
        lemma_seq_first_idx(s@, c);
    }
    None
}

/// The greatest position of `c` in `s`, or `None` when `c` does not occur.
pub fn rfind_char(s: &str, c: char) -> (r: Option<usize>)
    ensures
        match r {
            Some(i) => seq_last_idx(s@, c) == Some(i as int),
            None => seq_last_idx(s@, c) is None,
        },
{
    let n = s.unicode_len();
    let mut i: usize = n;
    while i > 0
        invariant
            n == s@.len(),
            i <= n,
            forall|j: int| i <= j < n ==> s@[j] != c,
        decreases i,
    {
        i -= 1;
        if s.get_char(i) == c {
            proof {
                lemma_seq_last_idx(s@, c);
            }
            return Some(i);
        }
    }
    proof {
        lemma_seq_last_idx(s@, c);
    }
    None
}

/// How many times `c` occurs in `s`.
pub fn count_chars(s: &str, c: char) -> (r: usize)
    ensures
        r == seq_count(s@, c),
{
    let n = s.unicode_len();
    let mut i: usize = 0;
    let mut cnt: usize = 0;
    while i < n
        invariant
            n == s@.len(),
            i <= n,
            cnt <= i,
            cnt == seq_count(s@.subrange(0, i as int), c),
        decreases n - i,
    {
        proof {
            assert(s@.subrange(0, i + 1).drop_last() =~= s@.subrange(0, i as int));
            assert(s@.subrange(0, i + 1).last() == s@[i as int]);
        }
        if s.get_char(i) == c {
            cnt += 1;
        }
        i += 1;
    }
    proof {
        assert(s@.subrange(0, n as int) =~= s@);
    }
    cnt
}

/// The position of the first occurrence of `pat` in `s`, or `None` when
/// `pat` does not occur.
pub fn find_substr(s: &str, pat: &str) -> (r: Option<usize>)
    ensures
        match r {
            Some(i) => is_first_match(s@, pat@, i as int),
            None => !has_match(s@, pat@),
        },
{
    let n = s.unicode_len();
    let m = pat.unicode_len();
    if m > n {
        proof {
            assert forall|i: int| !matches_at(s@, pat@, i) by {}
        }
        return None;
    }
    let mut i: usize = 0;
    while i <= n - m
        invariant
            n == s@.len(),
            m == pat@.len(),
            m <= n,
            i <= n,
            forall|j: int| 0 <= j < i ==> !matches_at(s@, pat@, j),
        decreases n - i,
    {
        let mut k: usize = 0;
        let mut hit = true;
        while k < m
            invariant
                n == s@.len(),
                m == pat@.len(),
                i + m <= n,
                k <= m,
                hit ==> forall|t: int| 0 <= t < k ==> s@[i + t] == pat@[t],
                !hit ==> !matches_at(s@, pat@, i as int),
            decreases m - k,
        {
            if s.get_char(i + k) != pat.get_char(k) {
                proof {
                    assert(s@[i + k] != pat@[k as int]);
                }
                hit = false;
                k = m;
            } else {
                k += 1;
            }
        }
        if hit {
            proof {
                assert(matches_at(s@, pat@, i as int));
            }
            return Some(i);
        }
        i += 1;
    }
    proof {
        assert forall|j: int| !matches_at(s@, pat@, j) by {
            if 0 <= j && j + pat@.len() <= s@.len() {
                assert(j < i);
            }
        }
    }
    None
}

/// Whether `s` ends with `suffix`.
pub fn str_ends_with(s: &str, suffix: &str) -> (r: bool)
    ensures
        r == (s@.len() >= suffix@.len() && s@.subrange(
            s@.len() - suffix@.len(),
            s@.len() as int,
        ) == suffix@),
{
    let n = s.unicode_len();
    let m = suffix.unicode_len();
    if m > n {
        return false;
    }
    let mut k: usize = 0;
    while k < m
        invariant
            n == s@.len(),
            m == suffix@.len(),
            m <= n,
            k <= m,
            forall|t: int| 0 <= t < k ==> s@[n - m + t] == suffix@[t],
        decreases m - k,
    {
        if s.get_char(n - m + k) != suffix.get_char(k) {
            proof {
                let tail = s@.subrange(s@.len() - suffix@.len(), s@.len() as int);
                assert(tail[k as int] == s@[n - m + k]);
                assert(tail != suffix@);
            }
            return false;
        }
        k += 1;
    }
    proof {
        assert(s@.subrange(s@.len() - suffix@.len(), s@.len() as int) =~= suffix@);
    }
    true
}

} // verus!
