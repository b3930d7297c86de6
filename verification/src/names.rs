//! Username normalization and small collection helpers.
//!
//! Every identifier the extractor emits goes through the same gate: it must
//! be non-empty and must not begin with `+`, the marker of a private invite
//! segment. Identifiers coming from deep links are ASCII-lowercased here;
//! identifiers coming from mention spans are lowercased by the Unicode
//! lowercasing of the standard library (see `interop`).

use vstd::prelude::*;

verus! {

/// Accept a candidate username: non-empty and not a private-invite marker.
pub open spec fn norm_username(u: Seq<char>) -> Option<Seq<char>> {
    if u.len() > 0 && u[0] != '+' {
        Some(u)
    } else {
        None
    }
}

/// Characters that may appear in a deep-link path segment: ASCII letters,
/// digits, underscore, and the leading `+` of private invites.
pub open spec fn is_seg_char(c: char) -> bool {
    ||| 97 <= c as u32 && c as u32 <= 122
    ||| 65 <= c as u32 && c as u32 <= 90
    ||| 48 <= c as u32 && c as u32 <= 57
    ||| c == '_'
    ||| c == '+'
}

/// ASCII lowercasing of one character; everything outside `A`..`Z` is kept.
pub open spec fn lower_char(c: char) -> char {
    if 65 <= c as u32 && c as u32 <= 90 {
        ((c as u32 + 32) as u8) as char
    } else {
        c
    }
}

/// ASCII lowercasing of a character sequence.
pub open spec fn lower_ascii(s: Seq<char>) -> Seq<char> {
    s.map_values(|c: char| lower_char(c))
}

/// No uppercase ASCII letter is left after ASCII lowercasing.
pub open spec fn has_no_upper_ascii(s: Seq<char>) -> bool {
    forall|k: int| 0 <= k < s.len() ==> !(65 <= #[trigger] s[k] as u32 <= 90)
}

pub proof fn lemma_lower_ascii_has_no_upper(s: Seq<char>)
    ensures
        has_no_upper_ascii(lower_ascii(s)),
{
    assert forall|k: int| 0 <= k < lower_ascii(s).len() implies !(65 <= #[trigger] lower_ascii(s)[k]
        as u32 <= 90) by {
        let c = s[k];
        if 65 <= c as u32 && c as u32 <= 90 {
            assert(lower_char(c) as u32 == c as u32 + 32);
        }
    }
}

pub fn is_seg_char_exec(c: char) -> (b: bool)
    ensures
        b == is_seg_char(c),
{
    let u = c as u32;
    (97 <= u && u <= 122) || (65 <= u && u <= 90) || (48 <= u && u <= 57) || c == '_' || c == '+'
}

pub fn lower_char_exec(c: char) -> (r: char)
    ensures
        r == lower_char(c),
{
    let u = c as u32;
    if 65 <= u && u <= 90 {
        ((u + 32) as u8) as char
    } else {
        c
    }
}

/// The views of a sequence of strings.
pub open spec fn string_views(ss: Seq<String>) -> Seq<Seq<char>> {
    ss.map_values(|s: String| s@)
}

/// All elements of a sequence differ pairwise.
pub open spec fn distinct_seq<T>(s: Seq<T>) -> bool {
    forall|i: int, j: int| 0 <= i < j < s.len() ==> s[i] != s[j]
}

/// Append a string unless an equal one is already present; the collected
/// set of views grows by exactly the new view, and stays duplicate-free.
pub fn insert_unique(out: &mut Vec<String>, s: String)
    requires
        distinct_seq(string_views(old(out)@)),
    ensures
        string_views(final(out)@).to_set() == string_views(old(out)@).to_set().insert(s@),
        distinct_seq(string_views(final(out)@)),
{
    let mut k: usize = 0;
    while k < out.len()
        invariant
            k <= out@.len(),
            *out == *old(out),
            distinct_seq(string_views(out@)),
            forall|m: int| 0 <= m < k ==> string_views(out@)[m] != s@,
        decreases out@.len() - k,
    {
        if out[k] == s {
            proof {
                assert(string_views(out@)[k as int] == s@);
                assert(string_views(out@).to_set().contains(s@)) by {
                    assert(string_views(out@).contains(s@));
                }
                assert(string_views(out@).to_set() =~= string_views(out@).to_set().insert(s@));
            }
            return ;
        }
        k = k + 1;
    }
    let ghost pre = out@;
    out.push(s);
    proof {
        assert(string_views(out@) =~= string_views(pre).push(s@));
        assert forall|x: Seq<char>|
            string_views(out@).to_set().contains(x) == string_views(pre).to_set().insert(
                s@,
            ).contains(x) by {
            if string_views(out@).contains(x) {
                let i = choose|i: int|
                    0 <= i < string_views(out@).len() && string_views(out@)[i] == x;
                if i < string_views(pre).len() {
                    assert(string_views(pre).contains(x));
                }
            }
            if string_views(pre).contains(x) {
                let i = choose|i: int|
                    0 <= i < string_views(pre).len() && string_views(pre)[i] == x;
                assert(string_views(out@)[i] == x);
            }
            if x == s@ {
                assert(string_views(out@)[string_views(pre).len() as int] == x);
            }
        }
        assert(string_views(out@).to_set() =~= string_views(pre).to_set().insert(s@));
    }
}

/// Append an integer unless it is already present.
pub fn insert_unique_i64(out: &mut Vec<i64>, x: i64)
    requires
        distinct_seq(old(out)@),
    ensures
        final(out)@.to_set() == old(out)@.to_set().insert(x),
        distinct_seq(final(out)@),
{
    let mut k: usize = 0;
    while k < out.len()
        invariant
            k <= out@.len(),
            *out == *old(out),
            distinct_seq(out@),
            forall|m: int| 0 <= m < k ==> out@[m] != x,
        decreases out@.len() - k,
    {
        if out[k] == x {
            proof {
                assert(out@.to_set().contains(x)) by {
                    assert(out@.contains(x));
                }
                assert(out@.to_set() =~= out@.to_set().insert(x));
            }
            return ;
        }
        k = k + 1;
    }
    let ghost pre = out@;
    out.push(x);
    proof {
        assert forall|y: i64|
            out@.to_set().contains(y) == pre.to_set().insert(x).contains(y) by {
            if out@.contains(y) {
                let i = choose|i: int| 0 <= i < out@.len() && out@[i] == y;
                if i < pre.len() {
                    assert(pre.contains(y));
                }
            }
            if pre.contains(y) {
                let i = choose|i: int| 0 <= i < pre.len() && pre[i] == y;
                assert(out@[i] == y);
            }
            if y == x {
                assert(out@[pre.len() as int] == y);
            }
        }
        assert(out@.to_set() =~= pre.to_set().insert(x));
    }
}

} // verus!
