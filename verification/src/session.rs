//! The session store.
//!
//! Each row holds one account's frozen session bytes and an in-use flag.
//! At most one process may hold a session: `acquire` picks the
//! most-recently-used free row and flips it to in-use in the same
//! transaction, so under serializable isolation two concurrent acquires
//! can never hand out the same row. `release` writes the re-frozen bytes
//! back and frees the row.

use vstd::prelude::*;

use crate::types::FrozenSession;

verus! {

/// Why a session-store operation can fail.
#[derive(Debug, Clone, PartialEq, Eq)]
pub enum SessionError {
    /// No row carries the given session id.
    NotFound,
    /// A row with the given session id already exists.
    DuplicateId,
}

/// One session row.
#[derive(Debug, Clone, PartialEq, Eq)]
pub struct SessionRow {
    pub id: u64,
    pub frozen: FrozenSession,
    pub in_use: bool,
    pub updated_at: i64,
}

/// The table of session rows.
pub struct SessionTable {
    pub rows: Vec<SessionRow>,
}

/// Whether some row carries the given id.
pub open spec fn has_id(rows: Seq<SessionRow>, id: u64) -> bool {
    exists|i: int| 0 <= i < rows.len() && rows[i].id == id
}

/// The index of the row carrying the given id.
pub open spec fn idx_of(rows: Seq<SessionRow>, id: u64) -> int {
    choose|i: int| 0 <= i < rows.len() && rows[i].id == id
}

/// The row `acquire` picks: a free row whose `updated_at` is maximal
/// among the free rows, the first such row in table order.
pub open spec fn acquire_picks(rows: Seq<SessionRow>, i: int) -> bool {
    &&& 0 <= i < rows.len()
    &&& !rows[i].in_use
    &&& forall|j: int|
        0 <= j < rows.len() && !(#[trigger] rows[j]).in_use ==> rows[j].updated_at
            <= rows[i].updated_at
    &&& forall|j: int| 0 <= j < i && !(#[trigger] rows[j]).in_use ==> rows[j].updated_at
        < rows[i].updated_at
}

impl SessionTable {
    /// Row ids are unique.
    pub open spec fn wf(self) -> bool {
        forall|i: int, j: int|
            0 <= i < j < self.rows@.len() ==> (#[trigger] self.rows@[i]).id != (
            #[trigger] self.rows@[j]).id
    }

    /// An empty table.
    pub fn new() -> (r: SessionTable)
        ensures
            r.wf(),
            r.rows@.len() == 0,
    {
        SessionTable { rows: Vec::new() }
    }

    /// Reserve the most-recently-used free session: flip its in-use flag
    /// and report its index. Returns `None`, changing nothing, exactly
    /// when every row is in use.
    pub fn acquire(&mut self) -> (r: Option<usize>)
        requires
            old(self).wf(),
        ensures
            final(self).wf(),
            match r {
                Some(i) => {
                    &&& acquire_picks(old(self).rows@, i as int)
                    &&& final(self).rows@ == old(self).rows@.update(
                        i as int,
                        SessionRow { in_use: true, ..old(self).rows@[i as int] },
                    )
                },
                None => {
                    &&& *final(self) == *old(self)
                    &&& forall|j: int|
                        0 <= j < old(self).rows@.len() ==> (#[trigger] old(
                            self,
                        ).rows@[j]).in_use
                },
            },
    {
        let n = self.rows.len();
        let mut best: Option<usize> = None;
        let mut k: usize = 0;
        while k < n
            invariant
                k <= n,
                n == self.rows@.len(),
                *self == *old(self),
                match best {
                    Some(b) => {
                        &&& b < k
                        &&& !self.rows@[b as int].in_use
                        &&& forall|j: int|
                            0 <= j < k && !(#[trigger] self.rows@[j]).in_use
                                ==> self.rows@[j].updated_at <= self.rows@[b as int].updated_at
                        &&& forall|j: int|
                            0 <= j < b && !(#[trigger] self.rows@[j]).in_use
                                ==> self.rows@[j].updated_at < self.rows@[b as int].updated_at
                    },
                    None => forall|j: int| 0 <= j < k ==> (#[trigger] self.rows@[j]).in_use,
                },
            decreases n - k,
        {
            if !self.rows[k].in_use {
                match best {
                    None => {
                        best = Some(k);
                    },
                    Some(b) => {
                        if self.rows[k].updated_at > self.rows[b].updated_at {
                            best = Some(k);
                        }
                    },
                }
            }
            k = k + 1;
        }
        match best {
            None => None,
            Some(i) => {
                let ghost pre = self.rows@;
                let mut row = self.rows.remove(i);
                row.in_use = true;
                self.rows.insert(i, row);
                proof {
                    assert(self.rows@ =~= pre.update(
                        i as int,
                        SessionRow { in_use: true, ..pre[i as int] },
                    ));
                }
                Some(i)
            },
        }
    }

    /// Write back a released session: store the freshly frozen bytes,
    /// clear the in-use flag, and bump `updated_at` so that the row is
    /// the first candidate of the next acquire.
    pub fn release(&mut self, id: u64, frozen: FrozenSession, now: i64) -> (r: Result<
        (),
        SessionError,
    >)
        requires
            old(self).wf(),
        ensures
            final(self).wf(),
            match r {
                Ok(()) => {
                    &&& has_id(old(self).rows@, id)
                    &&& final(self).rows@ == old(self).rows@.update(
                        idx_of(old(self).rows@, id),
                        SessionRow { id, frozen, in_use: false, updated_at: now },
                    )
                },
                Err(e) => {
                    &&& e == SessionError::NotFound
                    &&& !has_id(old(self).rows@, id)
                    &&& *final(self) == *old(self)
                },
            },
    {
        let n = self.rows.len();
        let mut k: usize = 0;
        while k < n
            invariant
                k <= n,
                n == self.rows@.len(),
                *self == *old(self),
                old(self).wf(),
                forall|j: int| 0 <= j < k ==> (#[trigger] self.rows@[j]).id != id,
            decreases n - k,
        {
            if self.rows[k].id == id {
                let ghost pre = self.rows@;
                let _ = self.rows.remove(k);
                self.rows.insert(k, SessionRow { id, frozen, in_use: false, updated_at: now });
                proof {
                    assert(has_id(pre, id));
                    let w = idx_of(pre, id);
                    assert(0 <= w < pre.len() && pre[w].id == id);
                    assert(w == k as int);
                    assert(self.rows@ =~= pre.update(
                        k as int,
                        SessionRow { id, frozen, in_use: false, updated_at: now },
                    ));
                }
                return Ok(());
            }
            k = k + 1;
        }
        Err(SessionError::NotFound)
    }

    /// Insert the row of a freshly created session, in use by its
    /// creator. Rejected when the id is already taken.
    pub fn insert_new(&mut self, id: u64, frozen: FrozenSession, now: i64) -> (r: Result<
        (),
        SessionError,
    >)
        requires
            old(self).wf(),
        ensures
            final(self).wf(),
            match r {
                Ok(()) => {
                    &&& !has_id(old(self).rows@, id)
                    &&& final(self).rows@ == old(self).rows@.push(
                        SessionRow { id, frozen, in_use: true, updated_at: now },
                    )
                },
                Err(e) => {
                    &&& e == SessionError::DuplicateId
                    &&& has_id(old(self).rows@, id)
                    &&& *final(self) == *old(self)
                },
            },
    {
        let n = self.rows.len();
        let mut k: usize = 0;
        while k < n
            invariant
                k <= n,
                n == self.rows@.len(),
                *self == *old(self),
                old(self).wf(),
                forall|j: int| 0 <= j < k ==> (#[trigger] self.rows@[j]).id != id,
            decreases n - k,
        {
            if self.rows[k].id == id {
                proof {
                    assert(has_id(self.rows@, id));
                }
                return Err(SessionError::DuplicateId);
            }
            k = k + 1;
        }
        self.rows.push(SessionRow { id, frozen, in_use: true, updated_at: now });
        Ok(())
    }
}

/// The table after an acquire picked row `i`.
pub open spec fn after_acquire(rows: Seq<SessionRow>, i: int) -> Seq<SessionRow> {
    rows.update(i, SessionRow { in_use: true, ..rows[i] })
}

/// Session mutual exclusion: of two acquires run one after the other —
/// which serializable isolation forces concurrent acquires into — only
/// the first can observe a given row free, so the second never picks it.
pub proof fn lemma_acquire_mutual_exclusion(rows: Seq<SessionRow>, i: int, j: int)
    requires
        acquire_picks(rows, i),
        acquire_picks(after_acquire(rows, i), j),
    ensures
        j != i,
{
    assert(after_acquire(rows, i)[i].in_use);
}

} // verus!
