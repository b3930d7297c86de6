//! The continuous-history expander.
//!
//! For each crawled chat the store keeps the raw messages whose server-side
//! ids form a single contiguous interval. One expansion pass extends that
//! interval at its low end (archaeology) and at its high end (catch-up)
//! against a remote chat whose ids run from 1 to `remote_hi`; an adaptive
//! chunk budget throttles the forward direction so that it never outruns
//! the backward direction. The platform iterator walks ids strictly below
//! a given offset, newest first, up to a requested limit; inserted rows are
//! deduplicated by id, so a retried pass never duplicates a row.

use vstd::math::{max, min};
use vstd::prelude::*;
use vstd::set_lib::lemma_int_range;

verus! {

/// How many items one archaeology request may yield.
pub const ARCHAEOLOGY_CHUNK: usize = 500;

/// How many items the priming fetch of an empty store may yield.
pub const PRIME_LIMIT: usize = 100;

/// The forward budget a fresh sync starts with, which doubles as the
/// boundary of the steady state in the budget policy.
pub const STEADY_CHUNK: usize = 50;

/// Why an expansion pass can fail.
#[derive(Debug, Clone, PartialEq, Eq)]
pub enum HistoryError {
    /// The store is empty and the remote chat has no messages either:
    /// there is nothing to anchor the interval on.
    EmptyChat,
}

/// The set of ids from `lo` through `hi`.
pub open spec fn id_range(lo: int, hi: int) -> Set<int> {
    Set::new(|i: int| lo <= i <= hi)
}

pub proof fn lemma_id_range_len(lo: int, hi: int)
    ensures
        id_range(lo, hi).finite(),
        id_range(lo, hi).len() == if hi >= lo {
            hi - lo + 1
        } else {
            0
        },
{
    if hi >= lo {
        lemma_int_range(lo, hi + 1);
        assert(id_range(lo, hi) =~= vstd::set_lib::set_int_range(lo, hi + 1));
    } else {
        lemma_int_range(lo, lo);
        assert(id_range(lo, hi) =~= vstd::set_lib::set_int_range(lo, lo));
    }
}

/// The stored history of one chat: either empty, or the contiguous
/// interval `[lo, hi]` of stored message ids.
pub struct ChatHistory {
    pub span: Option<(i32, i32)>,
}

impl ChatHistory {
    /// A span is well-formed when its ends are ordered and ids start at 1.
    pub open spec fn wf(self) -> bool {
        match self.span {
            Some((lo, hi)) => 1 <= lo <= hi,
            None => true,
        }
    }

    /// The stored interval with mathematical ends.
    pub open spec fn span_spec(self) -> Option<(int, int)> {
        match self.span {
            Some((lo, hi)) => Some((lo as int, hi as int)),
            None => None,
        }
    }

    /// The set of stored message ids.
    pub open spec fn ids(self) -> Set<int> {
        span_ids(self.span_spec())
    }

    /// An empty history.
    pub fn new() -> (r: ChatHistory)
        ensures
            r.wf(),
            r.ids() == Set::<int>::empty(),
            r.span_spec() is None,
    {
        proof {
            assert(span_ids(None) =~= Set::<int>::empty());
        }
        ChatHistory { span: None }
    }

    /// How many rows are stored.
    pub fn stored_count(&self) -> (n: usize)
        requires
            self.wf(),
        ensures
            n == self.ids().len(),
    {
        proof {
            lemma_span_ids_len(self.span_spec());
        }
        match self.span {
            Some((lo, hi)) => (hi - lo + 1) as usize,
            None => 0,
        }
    }
}

/// The ids an interval holds.
pub open spec fn span_ids(s: Option<(int, int)>) -> Set<int> {
    match s {
        Some((lo, hi)) => id_range(lo, hi),
        None => Set::empty(),
    }
}

pub open spec fn wf_span(s: Option<(int, int)>) -> bool {
    match s {
        Some((lo, hi)) => 1 <= lo <= hi,
        None => true,
    }
}

/// The number of ids an interval holds.
pub open spec fn span_len(s: Option<(int, int)>) -> int {
    match s {
        Some((lo, hi)) => if hi >= lo {
            hi - lo + 1
        } else {
            0
        },
        None => 0,
    }
}

pub proof fn lemma_span_ids_len(s: Option<(int, int)>)
    ensures
        span_ids(s).finite(),
        span_ids(s).len() == span_len(s),
{
    match s {
        Some((lo, hi)) => {
            lemma_id_range_len(lo, hi);
        },
        None => {
            assert(span_ids(s) =~= Set::<int>::empty());
        },
    }
}

/// The interval after the priming fetch: an empty store is seeded with the
/// most recent suffix of the remote chat, at most `PRIME_LIMIT` items.
pub open spec fn primed_span(s: Option<(int, int)>, remote: int) -> Option<(int, int)> {
    match s {
        Some(p) => Some(p),
        None => if remote >= 1 {
            Some((max(1, remote - (PRIME_LIMIT - 1)), remote))
        } else {
            None
        },
    }
}

/// The ids the priming fetch brings in.
pub open spec fn prime_set(s: Option<(int, int)>, remote: int) -> Set<int> {
    match s {
        Some(_) => Set::empty(),
        None => span_ids(primed_span(s, remote)),
    }
}

/// The ids archaeology brings in: up to `ARCHAEOLOGY_CHUNK` ids strictly
/// below the stored low end.
pub open spec fn arch_set(s: Option<(int, int)>, remote: int) -> Set<int> {
    match primed_span(s, remote) {
        Some((lo, hi)) => id_range(max(1, lo - ARCHAEOLOGY_CHUNK as int), lo - 1),
        None => Set::empty(),
    }
}

/// The ids catch-up brings in: the fetch is bounded from above by
/// `hi + chunk`, walks downward at most `chunk` items, and everything at or
/// below the stored high end is discarded.
pub open spec fn catch_set(s: Option<(int, int)>, remote: int, chunk: int) -> Set<int> {
    match primed_span(s, remote) {
        Some((lo, hi)) => id_range(hi + 1, min(remote, hi + chunk - 1)),
        None => Set::empty(),
    }
}

/// Every id one pass inserts.
pub open spec fn pass_inserted(s: Option<(int, int)>, remote: int, chunk: int) -> Set<int> {
    prime_set(s, remote).union(arch_set(s, remote)).union(catch_set(s, remote, chunk))
}

/// The interval after one pass.
pub open spec fn pass_span(s: Option<(int, int)>, remote: int, chunk: int) -> Option<(int, int)> {
    match primed_span(s, remote) {
        Some((lo, hi)) => Some(
            (max(1, lo - ARCHAEOLOGY_CHUNK as int), max(hi, min(remote, hi + chunk - 1))),
        ),
        None => None,
    }
}

/// How many rows archaeology inserts.
pub open spec fn pass_old_count(s: Option<(int, int)>, remote: int) -> int {
    match primed_span(s, remote) {
        Some((lo, hi)) => lo - max(1, lo - ARCHAEOLOGY_CHUNK as int),
        None => 0,
    }
}

/// How many rows catch-up inserts.
pub open spec fn pass_new_count(s: Option<(int, int)>, remote: int, chunk: int) -> int {
    match primed_span(s, remote) {
        Some((lo, hi)) => max(0, min(remote, hi + chunk - 1) - hi),
        None => 0,
    }
}

/// How many rows the priming fetch inserts.
pub open spec fn pass_prime_count(s: Option<(int, int)>, remote: int) -> int {
    match s {
        Some(_) => 0,
        None => span_len(primed_span(s, remote)),
    }
}

impl ChatHistory {
    /// One expansion pass: prime an empty store, then extend the interval
    /// backward by up to `ARCHAEOLOGY_CHUNK` ids and forward by up to
    /// `latest_chunk` ids, clipped to the remote chat. Returns the stored
    /// total and the two insertion counts.
    ///
    /// The pass preserves contiguity, never removes a row, and grows the
    /// store by exactly the inserted rows.
    pub fn expand_pass(&mut self, remote_hi: i32, latest_chunk: usize) -> (r: Result<
        (usize, usize, usize),
        HistoryError,
    >)
        requires
            old(self).wf(),
            remote_hi >= 0,
            latest_chunk <= 0x7fff_ffff,
            match old(self).span_spec() {
                Some((lo, hi)) => hi <= remote_hi,
                None => true,
            },
        ensures
            match r {
                Ok((total, old_n, new_n)) => {
                    &&& final(self).wf()
                    &&& final(self).span_spec() == pass_span(
                        old(self).span_spec(),
                        remote_hi as int,
                        latest_chunk as int,
                    )
                    &&& final(self).ids() == old(self).ids().union(
                        pass_inserted(old(self).span_spec(), remote_hi as int, latest_chunk as int),
                    )
                    &&& old(self).ids().subset_of(final(self).ids())
                    &&& old_n == pass_old_count(old(self).span_spec(), remote_hi as int)
                    &&& new_n == pass_new_count(
                        old(self).span_spec(),
                        remote_hi as int,
                        latest_chunk as int,
                    )
                    &&& total == final(self).ids().len()
                    &&& final(self).ids().len() == old(self).ids().len() + old_n + new_n
                        + pass_prime_count(old(self).span_spec(), remote_hi as int)
                    &&& match final(self).span_spec() {
                        Some((lo, hi)) => hi <= remote_hi,
                        None => false,
                    }
                },
                Err(e) => {
                    &&& e == HistoryError::EmptyChat
                    &&& old(self).span_spec() is None
                    &&& remote_hi == 0
                    &&& *final(self) == *old(self)
                },
            },
    {
        let ghost s0 = self.span_spec();
        let ghost remote = remote_hi as int;
        let ghost chunk = latest_chunk as int;
        let (lo0, hi0) = match self.span {
            Some((lo, hi)) => (lo, hi),
            None => {
                if remote_hi < 1 {
                    return Err(HistoryError::EmptyChat);
                }
                let lo = if remote_hi > PRIME_LIMIT as i32 {
                    remote_hi - (PRIME_LIMIT as i32 - 1)
                } else {
                    1
                };
                self.span = Some((lo, remote_hi));
                (lo, remote_hi)
            },
        };
        proof {
            assert(primed_span(s0, remote) == Some((lo0 as int, hi0 as int)));
        }
        let alo = if lo0 > ARCHAEOLOGY_CHUNK as i32 + 1 {
            lo0 - ARCHAEOLOGY_CHUNK as i32
        } else {
            1
        };
        let old_n = (lo0 - alo) as usize;
        let top_wide = if (remote_hi as i64) < (hi0 as i64) + (latest_chunk as i64) - 1 {
            remote_hi as i64
        } else {
            (hi0 as i64) + (latest_chunk as i64) - 1
        };
        let top = if top_wide > hi0 as i64 {
            top_wide as i32
        } else {
            hi0
        };
        let new_n = (top - hi0) as usize;
        self.span = Some((alo, top));
        let total = ((top - alo) as usize) + 1;
        proof {
            assert(self.span_spec() == pass_span(s0, remote, chunk));
            lemma_span_ids_len(s0);
            lemma_span_ids_len(self.span_spec());
            assert(self.ids() =~= span_ids(s0).union(pass_inserted(s0, remote, chunk)));
        }
        Ok((total, old_n, new_n))
    }
}

/// The forward-budget policy, decided from the two insertion counts of the
/// completed pass: stop when both directions are exhausted; open the
/// throttle once archaeology is done; probe minimally while archaeology
/// still runs and catch-up stalls; match the realized forward rate while it
/// stays below the steady bound; otherwise keep the budget.
pub open spec fn chunk_policy(old_n: int, new_n: int, chunk: int) -> Option<int> {
    if old_n == 0 && new_n == 0 {
        None
    } else if old_n == 0 {
        Some(ARCHAEOLOGY_CHUNK as int)
    } else if new_n == 0 {
        Some(1)
    } else if new_n < STEADY_CHUNK as int {
        Some(new_n)
    } else {
        Some(chunk)
    }
}

/// Decide the next forward budget; `None` means the chat is fully caught
/// up and the sync terminates.
pub fn next_chunk(old_n: usize, new_n: usize, chunk: usize) -> (r: Option<usize>)
    ensures
        match r {
            Some(c) => chunk_policy(old_n as int, new_n as int, chunk as int) == Some(c as int),
            None => chunk_policy(old_n as int, new_n as int, chunk as int) is None,
        },
{
    if old_n == 0 && new_n == 0 {
        None
    } else if old_n == 0 {
        Some(ARCHAEOLOGY_CHUNK)
    } else if new_n == 0 {
        Some(1)
    } else if new_n < STEADY_CHUNK {
        Some(new_n)
    } else {
        Some(chunk)
    }
}

impl ChatHistory {
    /// Run expansion passes under the budget policy until both directions
    /// report no insertions. On success the store is one interval anchored
    /// at id 1; it never exceeds the remote chat, covers at least what it
    /// covered before, and covers the whole remote chat whenever the sync
    /// started from an empty store. The returned count is how many rows
    /// the sync added.
    pub fn sync_history(&mut self, remote_hi: i32) -> (r: Result<usize, HistoryError>)
        requires
            old(self).wf(),
            remote_hi >= 0,
            match old(self).span_spec() {
                Some((lo, hi)) => hi <= remote_hi,
                None => true,
            },
        ensures
            match r {
                Ok(added) => {
                    &&& final(self).wf()
                    &&& 1 <= remote_hi
                    &&& match final(self).span_spec() {
                        Some((lo, hi)) => {
                            &&& lo == 1
                            &&& hi <= remote_hi
                            &&& final(self).ids() == id_range(1, hi)
                            &&& (old(self).span_spec() is None ==> hi == remote_hi)
                        },
                        None => false,
                    }
                    &&& old(self).ids().subset_of(final(self).ids())
                    &&& added == final(self).ids().len() - old(self).ids().len()
                },
                Err(e) => {
                    &&& e == HistoryError::EmptyChat
                    &&& old(self).span_spec() is None
                    &&& remote_hi == 0
                    &&& *final(self) == *old(self)
                },
            },
    {
        let before = self.stored_count();
        proof {
            lemma_span_ids_len(self.span_spec());
        }
        let mut chunk: usize = STEADY_CHUNK;
        loop
            invariant
                self.wf(),
                remote_hi >= 0,
                1 <= chunk <= ARCHAEOLOGY_CHUNK,
                before == old(self).ids().len(),
                match self.span_spec() {
                    Some((lo, hi)) => {
                        &&& hi <= remote_hi
                        &&& before <= span_len(self.span_spec())
                        &&& (old(self).span_spec() is None ==> hi == remote_hi)
                        &&& match old(self).span_spec() {
                            Some((lo0, hi0)) => lo <= lo0 && hi0 <= hi,
                            None => true,
                        }
                    },
                    None => *self == *old(self) && before == 0,
                },
                chunk == 1 ==> self.span_spec() is Some,
            decreases remote_hi + 1 - span_len(self.span_spec()),
        {
            let ghost pre = self.span_spec();
            proof {
                lemma_span_ids_len(pre);
            }
            let (total, old_n, new_n) = match self.expand_pass(remote_hi, chunk) {
                Ok(v) => v,
                Err(e) => {
                    return Err(e);
                },
            };
            proof {
                lemma_span_ids_len(self.span_spec());
            }
            match next_chunk(old_n, new_n, chunk) {
                None => {
                    let n = self.stored_count();
                    proof {
                        let (lo, hi) = self.span_spec()->0;
                        assert(lo == 1);
                        assert(old(self).ids().subset_of(self.ids()));
                    }
                    return Ok(n - before);
                },
                Some(c) => {
                    chunk = c;
                },
            }
        }
    }
}

/// Contiguity: a well-formed store is empty or a single integer interval.
pub open spec fn contiguous(ids: Set<int>) -> bool {
    ||| ids == Set::<int>::empty()
    ||| exists|lo: int, hi: int| lo <= hi && ids == #[trigger] id_range(lo, hi)
}

/// After any sequence of passes the stored ids stay contiguous: every pass
/// takes a well-formed store to a well-formed store, and a well-formed
/// store's ids are empty or one interval.
pub proof fn lemma_contiguity(h: ChatHistory)
    requires
        h.wf(),
    ensures
        contiguous(h.ids()),
{
    match h.span {
        Some((lo, hi)) => {
            assert(lo as int <= hi as int && h.ids() == id_range(lo as int, hi as int));
        },
        None => {
            assert(h.ids() =~= Set::<int>::empty());
        },
    }
}

/// Idempotence of a retried pass: once a pass has committed, every row it
/// fetched is stored, so replaying the same insertions — a crash-retry
/// under the store's uniqueness constraint — changes nothing.
pub proof fn lemma_pass_retry_idempotent(s: Option<(int, int)>, remote: int, chunk: int)
    requires
        wf_span(s),
        remote >= 0,
        match s {
            Some((lo, hi)) => hi <= remote,
            None => true,
        },
    ensures
        ({
            let after = span_ids(pass_span(s, remote, chunk));
            after.union(pass_inserted(s, remote, chunk)) == after
        }),
{
    let after = span_ids(pass_span(s, remote, chunk));
    assert(after.union(pass_inserted(s, remote, chunk)) =~= after);
}

/// Monotonic coverage: a pass never shrinks the store, and it grows the
/// store strictly unless it reported no insertions at all.
pub proof fn lemma_monotonic_coverage(s: Option<(int, int)>, remote: int, chunk: int)
    requires
        wf_span(s),
        remote >= 0,
        match s {
            Some((lo, hi)) => hi <= remote,
            None => true,
        },
        pass_span(s, remote, chunk) is Some,
    ensures
        span_ids(s).subset_of(span_ids(pass_span(s, remote, chunk))),
        span_len(pass_span(s, remote, chunk)) == span_len(s) + pass_prime_count(s, remote)
            + pass_old_count(s, remote) + pass_new_count(s, remote, chunk),
        pass_prime_count(s, remote) + pass_old_count(s, remote) + pass_new_count(s, remote, chunk)
            > 0 ==> span_ids(pass_span(s, remote, chunk)).len() > span_ids(s).len(),
{
    lemma_span_ids_len(s);
    lemma_span_ids_len(pass_span(s, remote, chunk));
}

} // verus!

