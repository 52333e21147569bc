//! The version canonicalizers: pure transformations that strip or extract
//! sub-parts of a raw version string (epoch, packaging release suffix,
//! embedded build number, trailing build components, pre-release tag,
//! multi-segment compaction) so that two versions can be compared by plain
//! equality or by three-component ordering.

use vstd::prelude::*;

use crate::strutil::{
    count_chars, find_char, find_substr, first_match_idx, has_match, lemma_first_match_idx,
    lemma_seq_count_drop_first, lemma_seq_count_split, lemma_seq_count_zero, lemma_seq_first_idx,
    lemma_seq_last_idx, rfind_char, seq_count, seq_first_idx, seq_last_idx,
};

verus! {

/// Everything after the last `:`; the whole string when there is no colon.
pub open spec fn strip_epoch_spec(s: Seq<char>) -> Seq<char> {
    match seq_last_idx(s, ':') {
        Some(i) => s.subrange(i + 1, s.len() as int),
        None => s,
    }
}

/// Everything before the first `-`; the whole string when there is no dash.
pub open spec fn strip_release_spec(s: Seq<char>) -> Seq<char> {
    match seq_first_idx(s, '-') {
        Some(i) => s.subrange(0, i),
        None => s,
    }
}

/// Everything before the first `b`; the whole string when there is no `b`.
pub open spec fn strip_build_spec(s: Seq<char>) -> Seq<char> {
    match seq_first_idx(s, 'b') {
        Some(i) => s.subrange(0, i),
        None => s,
    }
}

/// The last three dot-separated components of `s`: leading components are
/// dropped until at most two dots remain.
pub open spec fn last_components_spec(s: Seq<char>) -> Seq<char>
    decreases s.len(),
{
    if seq_count(s, '.') <= 2 {
        s
    } else {
        last_components_spec(s.drop_first())
    }
}

/// Dot-compaction of a version of four or more segments: the second segment
/// is dropped and the rest keeps its order. A version of at most three
/// segments is unchanged.
pub open spec fn compact_spec(s: Seq<char>) -> Seq<char> {
    if seq_count(s, '.') <= 2 {
        s
    } else {
        match seq_first_idx(s, '.') {
            Some(i) => {
                let rest = s.subrange(i + 1, s.len() as int);
                match seq_first_idx(rest, '.') {
                    Some(j) => s.subrange(0, i + 1) + rest.subrange(j + 1, rest.len() as int),
                    None => s,
                }
            },
            None => s,
        }
    }
}

/// The portion of `s` between the first `pre+` marker and the next one (or
/// the end). Meaningful only when the marker occurs.
pub open spec fn pre_tag_spec(s: Seq<char>) -> Seq<char> {
    let pat = "pre+"@;
    let rest = s.subrange(first_match_idx(s, pat) + pat.len(), s.len() as int);
    if has_match(rest, pat) {
        rest.subrange(0, first_match_idx(rest, pat))
    } else {
        rest
    }
}

/// Stripping the epoch is idempotent: what follows the last colon holds no
/// colon, so a second pass returns its input unchanged.
pub proof fn lemma_strip_epoch_idempotent(s: Seq<char>)
    ensures
        strip_epoch_spec(strip_epoch_spec(s)) == strip_epoch_spec(s),
{
    lemma_seq_last_idx(s, ':');
    match seq_last_idx(s, ':') {
        Some(i) => {
            let t = s.subrange(i + 1, s.len() as int);
            lemma_seq_last_idx(t, ':');
            match seq_last_idx(t, ':') {
                Some(k) => {
                    assert(t[k] == s[i + 1 + k]);
                    assert(false);
                },
                None => {},
            }
        },
        None => {},
    }
}

/// Removes a leading epoch: returns the substring after the last `:`, or
/// the input unchanged when no colon occurs.
pub fn remove_epoch(version: String) -> (r: String)
    ensures
        r@ == strip_epoch_spec(version@),
{
    let s = version.as_str();
    match rfind_char(s, ':') {
        Some(i) => {
            proof {
                lemma_seq_last_idx(s@, ':');
            }
            let n = s.unicode_len();
            s.substring_char(i + 1, n).to_owned()
        },
        None => version,
    }
}

/// Removes a packaging release suffix: returns the substring before the
/// first `-`, or the input unchanged when no dash occurs.
pub fn strip_release_suffix(version: String) -> (r: String)
    ensures
        r@ == strip_release_spec(version@),
{
    let s = version.as_str();
    match find_char(s, '-') {
        Some(i) => {
            proof {
                lemma_seq_first_idx(s@, '-');
            }
            s.substring_char(0, i).to_owned()
        },
        None => version,
    }
}

/// Removes an embedded upstream build number: returns the substring before
/// the first `b`, or the input unchanged when no `b` occurs.
pub fn remove_package_build(version: String) -> (r: String)
    ensures
        r@ == strip_build_spec(version@),
{
    let s = version.as_str();
    match find_char(s, 'b') {
        Some(i) => {
            proof {
                lemma_seq_first_idx(s@, 'b');
            }
            s.substring_char(0, i).to_owned()
        },
        None => version,
    }
}

/// Keeps only the last three dot-separated components of `version`, which
/// must have at least three components.
pub fn get_package_build(version: String) -> (r: String)
    requires
        seq_count(version@, '.') >= 2,
    ensures
        r@ == last_components_spec(version@),
{
    let s = version.as_str();
    let total = count_chars(s, '.');
    if total <= 2 {
        return version;
    }
    let n = s.unicode_len();
    proof {
        assert(version@.subrange(0, n as int) =~= version@);
    }
    let mut start: usize = 0;
    let mut dots: usize = total;
    while dots > 2
        invariant
            s@ == version@,
            n == version@.len(),
            start <= n,
            dots == seq_count(version@.subrange(start as int, n as int), '.'),
            last_components_spec(version@) == last_components_spec(
                version@.subrange(start as int, n as int),
            ),
        decreases n - start,
    {
        proof {
            let t = version@.subrange(start as int, n as int);
            if t.len() == 0 {
                assert(seq_count(t, '.') == 0);
            }
            lemma_seq_count_drop_first(t, '.');
            assert(t.drop_first() =~= version@.subrange(start + 1, n as int));
            assert(t[0] == version@[start as int]);
        }
        if s.get_char(start) == '.' {
            dots -= 1;
        }
        start += 1;
    }
    s.substring_char(start, n).to_owned()
}

/// Extracts the pre-release build: the portion after the first `pre+`
/// marker, which must occur in `version`.
pub fn get_package_pre_build(version: String) -> (r: String)
    requires
        has_match(version@, "pre+"@),
    ensures
        r@ == pre_tag_spec(version@),
{
    let s = version.as_str();
    match find_substr(s, "pre+") {
        Some(i) => {
            proof {
                lemma_first_match_idx(version@, "pre+"@);
            }
            let n = s.unicode_len();
            let plen = "pre+".unicode_len();
            let rest = s.substring_char(i + plen, n);
            match find_substr(rest, "pre+") {
                Some(j) => {
                    proof {
                        lemma_first_match_idx(rest@, "pre+"@);
                    }
                    rest.substring_char(0, j).to_owned()
                },
                None => rest.to_owned(),
            }
        },
        None => {
            proof {
                assert(false);
            }
            version
        },
    }
}

/// Compacts a four-or-more-segment version by dropping its second segment;
/// a version of at most three segments is returned unchanged.
pub fn compact_semver(version: String) -> (r: String)
    ensures
        r@ == compact_spec(version@),
{
    let s = version.as_str();
    let total = count_chars(s, '.');
    if total <= 2 {
        return version;
    }
    let n = s.unicode_len();
    let d1 = match find_char(s, '.') {
        Some(i) => i,
        None => {
            proof {
                lemma_seq_count_zero(s@, '.');
                lemma_seq_first_idx(s@, '.');
                assert(false);
            }
            0
        },
    };
    proof {
        lemma_seq_first_idx(s@, '.');
        // the prefix through the first dot holds exactly one dot
        let head = s@.subrange(0, d1 + 1);
        lemma_seq_count_split(s@, '.', d1 + 1);
        assert(head.drop_last() =~= s@.subrange(0, d1 as int));
        lemma_seq_count_zero(s@.subrange(0, d1 as int), '.');
        assert(seq_count(head, '.') == 1);
    }
    let rest = s.substring_char(d1 + 1, n);
    let d2 = match find_char(rest, '.') {
        Some(j) => j,
        None => {
            proof {
                lemma_seq_count_zero(rest@, '.');
                lemma_seq_first_idx(rest@, '.');
                assert(false);
            }
            0
        },
    };
    proof {
        lemma_seq_first_idx(rest@, '.');
    }
    let rn = rest.unicode_len();
    let head = s.substring_char(0, d1 + 1);
    let tail = rest.substring_char(d2 + 1, rn);
    head.to_owned().concat(tail)
}

} // verus!
