//! Deep-link scanning.
//!
//! A deep link is `t.me/<segment>`: the segment names a public chat unless
//! it starts with `+`, which marks a private invite. The raw text of a
//! message is scanned for such links even without an entity annotation, and
//! a text-url entity's URL is parsed for the same host.

use vstd::prelude::*;
use vstd::string::StrSliceExecFns;

use crate::interop::string_push;
use crate::names::{
    distinct_seq, insert_unique, is_seg_char, is_seg_char_exec, lower_ascii, lower_char_exec,
    norm_username, string_views,
};

verus! {

/// End of the run of segment characters that starts at `p`.
pub open spec fn seg_run_end(t: Seq<char>, p: int) -> int
    decreases t.len() - p,
{
    if p < 0 || p >= t.len() || !is_seg_char(t[p]) {
        p
    } else {
        seg_run_end(t, p + 1)
    }
}

pub proof fn lemma_seg_run_end_bounds(t: Seq<char>, p: int)
    requires
        0 <= p <= t.len(),
    ensures
        p <= seg_run_end(t, p) <= t.len(),
    decreases t.len() - p,
{
    if p < t.len() && is_seg_char(t[p]) {
        lemma_seg_run_end_bounds(t, p + 1);
    }
}

/// The username named by the deep-link segment starting at `p`, if that
/// segment is acceptable: its ASCII-lowercased characters, unless empty or
/// a private invite.
pub open spec fn segment_name(t: Seq<char>, p: int) -> Option<Seq<char>>
    recommends
        0 <= p <= t.len(),
{
    norm_username(lower_ascii(t.subrange(p, seg_run_end(t, p))))
}

/// Whether the deep-link host marker `t.me/` stands at position `k`.
pub open spec fn tme_at(t: Seq<char>, k: int) -> bool {
    &&& 0 <= k
    &&& k + 5 <= t.len()
    &&& t[k] == 't'
    &&& t[k + 1] == '.'
    &&& t[k + 2] == 'm'
    &&& t[k + 3] == 'e'
    &&& t[k + 4] == '/'
}

/// The username contributed by a deep link at position `k`, if any.
pub open spec fn deeplink_at(t: Seq<char>, k: int) -> Option<Seq<char>> {
    if tme_at(t, k) {
        segment_name(t, k + 5)
    } else {
        None
    }
}

/// All usernames contributed by deep links starting before position `n`.
pub open spec fn deeplinks_upto(t: Seq<char>, n: int) -> Set<Seq<char>>
    decreases n,
{
    if n <= 0 {
        Set::empty()
    } else {
        match deeplink_at(t, n - 1) {
            Some(u) => deeplinks_upto(t, n - 1).insert(u),
            None => deeplinks_upto(t, n - 1),
        }
    }
}

/// All usernames named by bare deep links in the text.
pub open spec fn deeplink_names(t: Seq<char>) -> Set<Seq<char>> {
    deeplinks_upto(t, t.len() as int)
}

/// How many characters an optional URL scheme occupies at the front of a
/// URL: `https://`, `http://`, or none.
pub open spec fn scheme_skip(u: Seq<char>) -> int {
    if u.len() >= 8 && u[0] == 'h' && u[1] == 't' && u[2] == 't' && u[3] == 'p' && u[4] == 's'
        && u[5] == ':' && u[6] == '/' && u[7] == '/' {
        8
    } else if u.len() >= 7 && u[0] == 'h' && u[1] == 't' && u[2] == 't' && u[3] == 'p' && u[4]
        == ':' && u[5] == '/' && u[6] == '/' {
        7
    } else {
        0
    }
}

/// The username a URL names: its host must be the deep-link host, and the
/// first path segment must be an acceptable username.
pub open spec fn url_username(u: Seq<char>) -> Option<Seq<char>> {
    if tme_at(u, scheme_skip(u)) {
        segment_name(u, scheme_skip(u) + 5)
    } else {
        None
    }
}

/// Read the deep-link segment that starts at character `p` of `text` and
/// return its normalized username, if acceptable.
fn scan_segment(text: &str, n: usize, p: usize) -> (r: Option<String>)
    requires
        n == text@.len(),
        p <= n,
    ensures
        match r {
            Some(u) => segment_name(text@, p as int) == Some(u@),
            None => segment_name(text@, p as int) is None,
        },
{
    let ghost t = text@;
    let mut e: usize = p;
    while e < n && is_seg_char_exec(text.get_char(e))
        invariant
            p <= e <= n,
            n == t.len(),
            t == text@,
            seg_run_end(t, p as int) == seg_run_end(t, e as int),
            forall|m: int| p <= m < e ==> is_seg_char(#[trigger] t[m]),
        decreases n - e,
    {
        e = e + 1;
    }
    proof {
        lemma_seg_run_end_bounds(t, e as int);
        assert(seg_run_end(t, e as int) == e);
    }
    if e == p {
        proof {
            assert(t.subrange(p as int, p as int) =~= Seq::<char>::empty());
            assert(lower_ascii(t.subrange(p as int, p as int)) =~= Seq::<char>::empty());
        }
        return None;
    }
    let mut low = String::new();
    let mut k: usize = p;
    while k < e
        invariant
            p <= k <= e <= n,
            n == t.len(),
            t == text@,
            low@ == lower_ascii(t.subrange(p as int, k as int)),
        decreases e - k,
    {
        let c = lower_char_exec(text.get_char(k));
        string_push(&mut low, c);
        proof {
            assert(t.subrange(p as int, k + 1) =~= t.subrange(p as int, k as int).push(t[k as int]));
            assert(lower_ascii(t.subrange(p as int, k + 1)) =~= lower_ascii(
                t.subrange(p as int, k as int),
            ).push(crate::names::lower_char(t[k as int])));
        }
        k = k + 1;
    }
    let first = low.as_str().get_char(0);
    if first == '+' {
        None
    } else {
        Some(low)
    }
}

/// Scan the raw text for bare deep links and collect the usernames they
/// name, leaving no duplicates among the collected strings.
pub fn scan_deeplinks_into(text: &str, out: &mut Vec<String>)
    requires
        distinct_seq(string_views(old(out)@)),
    ensures
        string_views(final(out)@).to_set() == string_views(old(out)@).to_set().union(
            deeplink_names(text@),
        ),
        distinct_seq(string_views(final(out)@)),
{
    let ghost t = text@;
    let n = text.unicode_len();
    let mut k: usize = 0;
    proof {
        assert(string_views(out@).to_set().union(deeplinks_upto(t, 0)) =~= string_views(
            out@,
        ).to_set());
    }
    while k < n
        invariant
            k <= n,
            n == t.len(),
            t == text@,
            distinct_seq(string_views(out@)),
            string_views(out@).to_set() == string_views(old(out)@).to_set().union(
                deeplinks_upto(t, k as int),
            ),
        decreases n - k,
    {
        let ghost pre = string_views(out@).to_set();
        if n - k >= 5 && text.get_char(k) == 't' && text.get_char(k + 1) == '.' && text.get_char(
            k + 2,
        ) == 'm' && text.get_char(k + 3) == 'e' && text.get_char(k + 4) == '/' {
            match scan_segment(text, n, k + 5) {
                Some(u) => {
                    insert_unique(out, u);
                },
                None => {},
            }
        } else {
            assert(!tme_at(t, k as int));
        }
        proof {
            assert(string_views(out@).to_set() =~= string_views(old(out)@).to_set().union(
                deeplinks_upto(t, k + 1),
            ));
        }
        k = k + 1;
    }
}

/// Extract the username a text-url entity's URL names, if its host is the
/// deep-link host and its first path segment is acceptable.
pub fn url_candidate(url: &str) -> (r: Option<String>)
    ensures
        match r {
            Some(u) => url_username(url@) == Some(u@),
            None => url_username(url@) is None,
        },
{
    let ghost t = url@;
    let n = url.unicode_len();
    let skip: usize = if n >= 8 && url.get_char(0) == 'h' && url.get_char(1) == 't' && url.get_char(
        2,
    ) == 't' && url.get_char(3) == 'p' && url.get_char(4) == 's' && url.get_char(5) == ':'
        && url.get_char(6) == '/' && url.get_char(7) == '/' {
        8
    } else if n >= 7 && url.get_char(0) == 'h' && url.get_char(1) == 't' && url.get_char(2) == 't'
        && url.get_char(3) == 'p' && url.get_char(4) == ':' && url.get_char(5) == '/'
        && url.get_char(6) == '/' {
        7
    } else {
        0
    };
    proof {
        assert(skip == scheme_skip(t));
    }
    if skip + 5 <= n && url.get_char(skip) == 't' && url.get_char(skip + 1) == '.' && url.get_char(
        skip + 2,
    ) == 'm' && url.get_char(skip + 3) == 'e' && url.get_char(skip + 4) == '/' {
        scan_segment(url, n, skip + 5)
    } else {
        assert(!tme_at(t, skip as int));
        None
    }
}

} // verus!
