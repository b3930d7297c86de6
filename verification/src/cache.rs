//! The resolution cache.
//!
//! A resolved username is remembered as a `(account, username)` row
//! holding the packed chat the platform answered with. Access hashes are
//! account-scoped, so the cache is too: a row cached under one account is
//! never handed to another. An unresolvable username writes no tombstone,
//! so later retries stay possible.

use vstd::prelude::*;

use crate::interop::str_eq;
use crate::types::PackedChat;
use vstd::string::StringExecFns;

verus! {

/// Why a cache update can fail.
#[derive(Debug, Clone, PartialEq, Eq)]
pub enum CacheError {
    /// The account already caches a row for this platform chat id under
    /// a different username; the store's uniqueness constraint refuses
    /// the insert.
    ChatIdConflict,
    /// No row with the given index exists.
    NoSuchRow,
}

/// One cached resolution.
#[derive(Debug, Clone, PartialEq)]
pub struct ChatCacheRow {
    pub id: u64,
    pub account: u64,
    pub username: Option<String>,
    pub chat: PackedChat,
    pub joined: bool,
    pub updated_at: i64,
}

/// Whether a row caches `username` for `account`.
pub open spec fn row_matches(r: ChatCacheRow, account: u64, u: Seq<char>) -> bool {
    &&& r.account == account
    &&& r.username matches Some(s) && s@ == u
}

/// Whether two rows collide on the `(account, username)` key.
pub open spec fn same_username_key(a: ChatCacheRow, b: ChatCacheRow) -> bool {
    &&& a.account == b.account
    &&& a.username matches Some(ua)
    &&& b.username matches Some(ub)
    &&& ua@ == ub@
}

/// The cache table.
pub struct ChatCache {
    pub rows: Vec<ChatCacheRow>,
}

impl ChatCache {
    /// Row ids are unique, and so are `(account, username)` and
    /// `(account, platform chat id)` pairs.
    pub open spec fn wf(self) -> bool {
        forall|i: int, j: int|
            0 <= i < j < self.rows@.len() ==> {
                let a = #[trigger] self.rows@[i];
                let b = #[trigger] self.rows@[j];
                &&& a.id != b.id
                &&& !(a.account == b.account && a.chat.id == b.chat.id)
                &&& !same_username_key(a, b)
            }
    }

    /// An empty cache.
    pub fn new() -> (r: ChatCache)
        ensures
            r.wf(),
            r.rows@.len() == 0,
    {
        ChatCache { rows: Vec::new() }
    }

    /// Find the row caching `username` for `account`. A hit always
    /// belongs to the requesting account; a miss means no such row.
    pub fn lookup(&self, account: u64, username: &str) -> (r: Option<usize>)
        ensures
            match r {
                Some(i) => 0 <= i < self.rows@.len() && row_matches(
                    self.rows@[i as int],
                    account,
                    username@,
                ),
                None => forall|j: int|
                    0 <= j < self.rows@.len() ==> !row_matches(
                        #[trigger] self.rows@[j],
                        account,
                        username@,
                    ),
            },
    {
        let n = self.rows.len();
        let mut k: usize = 0;
        while k < n
            invariant
                k <= n,
                n == self.rows@.len(),
                forall|j: int|
                    0 <= j < k ==> !row_matches(#[trigger] self.rows@[j], account, username@),
            decreases n - k,
        {
            if self.rows[k].account == account {
                match &self.rows[k].username {
                    Some(s) => {
                        if str_eq(s.as_str(), username) {
                            return Some(k);
                        }
                    },
                    None => {},
                }
            }
            k = k + 1;
        }
        None
    }

    /// Record the platform's answer for a username that missed the
    /// cache: an absent answer changes nothing — no tombstone, so a later
    /// retry may succeed — and a resolved chat is inserted unjoined,
    /// unless the account already caches that chat id under another name.
    pub fn resolve_step(
        &mut self,
        account: u64,
        username: &str,
        resolved: Option<PackedChat>,
        new_id: u64,
        now: i64,
    ) -> (r: Result<Option<usize>, CacheError>)
        requires
            old(self).wf(),
            forall|j: int|
                0 <= j < old(self).rows@.len() ==> !row_matches(
                    #[trigger] old(self).rows@[j],
                    account,
                    username@,
                ),
            forall|j: int| 0 <= j < old(self).rows@.len() ==> (#[trigger] old(self).rows@[j]).id
                != new_id,
        ensures
            final(self).wf(),
            match r {
                Ok(None) => resolved is None && *final(self) == *old(self),
                Ok(Some(i)) => {
                    &&& resolved matches Some(chat)
                    &&& i == old(self).rows@.len()
                    &&& ({
                        let nr = final(self).rows@.last();
                        &&& final(self).rows@ == old(self).rows@.push(nr)
                        &&& nr.id == new_id
                        &&& row_matches(nr, account, username@)
                        &&& nr.chat == resolved->0
                        &&& !nr.joined
                        &&& nr.updated_at == now
                    })
                },
                Err(e) => {
                    &&& e == CacheError::ChatIdConflict
                    &&& resolved matches Some(chat) && exists|j: int|
                        0 <= j < old(self).rows@.len() && (#[trigger] old(self).rows@[j]).account
                            == account && old(self).rows@[j].chat.id == chat.id
                    &&& *final(self) == *old(self)
                },
            },
    {
        let chat = match resolved {
            None => {
                return Ok(None);
            },
            Some(c) => c,
        };
        let n = self.rows.len();
        let mut k: usize = 0;
        while k < n
            invariant
                k <= n,
                n == self.rows@.len(),
                *self == *old(self),
                old(self).wf(),
                resolved == Some(chat),
                forall|j: int|
                    0 <= j < k ==> !((#[trigger] self.rows@[j]).account == account
                        && self.rows@[j].chat.id == chat.id),
            decreases n - k,
        {
            if self.rows[k].account == account && self.rows[k].chat.id == chat.id {
                proof {
                    assert(old(self).rows@[k as int].account == account && old(
                        self,
                    ).rows@[k as int].chat.id == chat.id);
                }
                return Err(CacheError::ChatIdConflict);
            }
            k = k + 1;
        }
        let idx = self.rows.len();
        self.rows.push(
            ChatCacheRow {
                id: new_id,
                account,
                username: Some(String::from_str(username)),
                chat,
                joined: false,
                updated_at: now,
            },
        );
        Ok(Some(idx))
    }

    /// Commit a successful platform join: store the (possibly rotated)
    /// packed chat and mark the row joined. A row that is already joined
    /// is left untouched — the join was a no-op.
    pub fn apply_join(&mut self, idx: usize, live: PackedChat, now: i64) -> (r: Result<
        (),
        CacheError,
    >)
        requires
            old(self).wf(),
            idx < old(self).rows@.len() ==> live.id == old(self).rows@[idx as int].chat.id,
        ensures
            final(self).wf(),
            match r {
                Ok(()) => {
                    &&& idx < old(self).rows@.len()
                    &&& if old(self).rows@[idx as int].joined {
                        *final(self) == *old(self)
                    } else {
                        final(self).rows@ == old(self).rows@.update(
                            idx as int,
                            ChatCacheRow {
                                chat: live,
                                joined: true,
                                updated_at: now,
                                ..old(self).rows@[idx as int]
                            },
                        )
                    }
                },
                Err(e) => {
                    &&& e == CacheError::NoSuchRow
                    &&& idx >= old(self).rows@.len()
                    &&& *final(self) == *old(self)
                },
            },
    {
        if idx >= self.rows.len() {
            return Err(CacheError::NoSuchRow);
        }
        if self.rows[idx].joined {
            return Ok(());
        }
        let ghost pre = self.rows@;
        let mut row = self.rows.remove(idx);
        row.chat = live;
        row.joined = true;
        row.updated_at = now;
        self.rows.insert(idx, row);
        proof {
            assert(self.rows@ =~= pre.update(
                idx as int,
                ChatCacheRow { chat: live, joined: true, updated_at: now, ..pre[idx as int] },
            ));
        }
        Ok(())
    }

    /// Commit a successful platform quit: mark the row unjoined. A row
    /// that is not joined is left untouched.
    pub fn apply_quit(&mut self, idx: usize, now: i64) -> (r: Result<(), CacheError>)
        requires
            old(self).wf(),
        ensures
            final(self).wf(),
            match r {
                Ok(()) => {
                    &&& idx < old(self).rows@.len()
                    &&& if !old(self).rows@[idx as int].joined {
                        *final(self) == *old(self)
                    } else {
                        final(self).rows@ == old(self).rows@.update(
                            idx as int,
                            ChatCacheRow {
                                joined: false,
                                updated_at: now,
                                ..old(self).rows@[idx as int]
                            },
                        )
                    }
                },
                Err(e) => {
                    &&& e == CacheError::NoSuchRow
                    &&& idx >= old(self).rows@.len()
                    &&& *final(self) == *old(self)
                },
            },
    {
        if idx >= self.rows.len() {
            return Err(CacheError::NoSuchRow);
        }
        if !self.rows[idx].joined {
            return Ok(());
        }
        let ghost pre = self.rows@;
        let mut row = self.rows.remove(idx);
        row.joined = false;
        row.updated_at = now;
        self.rows.insert(idx, row);
        proof {
            assert(self.rows@ =~= pre.update(
                idx as int,
                ChatCacheRow { joined: false, updated_at: now, ..pre[idx as int] },
            ));
        }
        Ok(())
    }
}

/// Account scoping: one account has at most one cache row per username —
/// two rows matching the same `(account, username)` pair are the same row.
pub proof fn lemma_account_scoping(c: ChatCache, account: u64, u: Seq<char>, i: int, j: int)
    requires
        c.wf(),
        0 <= i < c.rows@.len(),
        0 <= j < c.rows@.len(),
        row_matches(c.rows@[i], account, u),
        row_matches(c.rows@[j], account, u),
    ensures
        i == j,
{
}

} // verus!
