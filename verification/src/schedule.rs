//! The stale-item scheduler and the full-info log.
//!
//! Two work tables drive the crawl: seeded channel usernames, and
//! usernames awaiting a full-info snapshot. Both are drained oldest-first
//! by `updated_at`; processing a row touches it, so every pick is the
//! least recently visited. A channel whose username does not resolve is
//! a throwaway hint and its row is deleted; a username that does not
//! resolve is durable and is only marked invalid.

use vstd::prelude::*;

use crate::types::PackedChat;

verus! {

/// A full-info snapshot is considered fresh for one day.
pub const FRESH_SECONDS: i64 = 86_400;

/// One seeded channel to crawl.
#[derive(Debug, Clone, PartialEq)]
pub struct ChannelWorkRow {
    pub id: u64,
    pub username: String,
    pub updated_at: i64,
}

/// The channel work table.
pub struct ChannelWork {
    pub rows: Vec<ChannelWorkRow>,
}

/// One username awaiting resolution and a full-info snapshot. `is_valid`
/// is three-valued: never resolved, confirmed dead, or resolved at least
/// once.
#[derive(Debug, Clone, PartialEq)]
pub struct UsernameWorkRow {
    pub id: u64,
    pub source: Option<u64>,
    pub username: String,
    pub is_valid: Option<bool>,
    pub updated_at: i64,
}

/// The username work table.
pub struct UsernameWork {
    pub rows: Vec<UsernameWorkRow>,
}

/// The index the channel driver picks: the oldest row, the first one in
/// table order among equally old rows.
pub open spec fn channel_pick(rows: Seq<ChannelWorkRow>, i: int) -> bool {
    &&& 0 <= i < rows.len()
    &&& forall|j: int|
        0 <= j < rows.len() ==> (#[trigger] rows[j]).updated_at >= rows[i].updated_at
    &&& forall|j: int| 0 <= j < i ==> (#[trigger] rows[j]).updated_at > rows[i].updated_at
}

/// A username row is eligible while it is not confirmed dead.
pub open spec fn username_eligible(r: UsernameWorkRow) -> bool {
    r.is_valid != Some(false)
}

/// The index the username driver picks: the oldest eligible row, the
/// first one in table order among equally old ones.
pub open spec fn username_pick(rows: Seq<UsernameWorkRow>, i: int) -> bool {
    &&& 0 <= i < rows.len()
    &&& username_eligible(rows[i])
    &&& forall|j: int|
        0 <= j < rows.len() && username_eligible(#[trigger] rows[j]) ==> rows[j].updated_at
            >= rows[i].updated_at
    &&& forall|j: int|
        0 <= j < i && username_eligible(#[trigger] rows[j]) ==> rows[j].updated_at
            > rows[i].updated_at
}

impl ChannelWork {
    /// Pick the stalest seeded channel; `None` exactly when the table is
    /// empty.
    pub fn pick_stale(&self) -> (r: Option<usize>)
        ensures
            match r {
                Some(i) => channel_pick(self.rows@, i as int),
                None => self.rows@.len() == 0,
            },
    {
        let n = self.rows.len();
        if n == 0 {
            return None;
        }
        let mut best: usize = 0;
        let mut k: usize = 1;
        while k < n
            invariant
                best < k <= n,
                n == self.rows@.len(),
                forall|j: int|
                    0 <= j < k ==> (#[trigger] self.rows@[j]).updated_at
                        >= self.rows@[best as int].updated_at,
                forall|j: int|
                    0 <= j < best ==> (#[trigger] self.rows@[j]).updated_at
                        > self.rows@[best as int].updated_at,
            decreases n - k,
        {
            if self.rows[k].updated_at < self.rows[best].updated_at {
                best = k;
            }
            k = k + 1;
        }
        Some(best)
    }

    /// Apply the outcome of resolving the picked channel's username: a
    /// resolved channel is touched so the next pick moves on; an
    /// unresolvable one is a dead link and its row is deleted, leaving
    /// every other row in place.
    pub fn resolution_outcome(&mut self, idx: usize, resolved: bool, now: i64)
        requires
            idx < old(self).rows@.len(),
        ensures
            resolved ==> final(self).rows@ == old(self).rows@.update(
                idx as int,
                ChannelWorkRow { updated_at: now, ..old(self).rows@[idx as int] },
            ),
            !resolved ==> final(self).rows@ == old(self).rows@.remove(idx as int),
    {
        if resolved {
            let ghost pre = self.rows@;
            let mut row = self.rows.remove(idx);
            row.updated_at = now;
            self.rows.insert(idx, row);
            proof {
                assert(self.rows@ =~= pre.update(
                    idx as int,
                    ChannelWorkRow { updated_at: now, ..pre[idx as int] },
                ));
            }
        } else {
            let _ = self.rows.remove(idx);
        }
    }
}

impl UsernameWork {
    /// Pick the stalest eligible username; `None` exactly when no row is
    /// eligible.
    pub fn pick_stale(&self) -> (r: Option<usize>)
        ensures
            match r {
                Some(i) => username_pick(self.rows@, i as int),
                None => forall|j: int|
                    0 <= j < self.rows@.len() ==> !username_eligible(#[trigger] self.rows@[j]),
            },
    {
        let n = self.rows.len();
        let mut best: Option<usize> = None;
        let mut k: usize = 0;
        while k < n
            invariant
                k <= n,
                n == self.rows@.len(),
                match best {
                    Some(b) => {
                        &&& b < k
                        &&& username_eligible(self.rows@[b as int])
                        &&& forall|j: int|
                            0 <= j < k && username_eligible(#[trigger] self.rows@[j])
                                ==> self.rows@[j].updated_at >= self.rows@[b as int].updated_at
                        &&& forall|j: int|
                            0 <= j < b && username_eligible(#[trigger] self.rows@[j])
                                ==> self.rows@[j].updated_at > self.rows@[b as int].updated_at
                    },
                    None => forall|j: int|
                        0 <= j < k ==> !username_eligible(#[trigger] self.rows@[j]),
                },
            decreases n - k,
        {
            let eligible = match &self.rows[k].is_valid {
                Some(v) => *v,
                None => true,
            };
            if eligible {
                match best {
                    None => {
                        best = Some(k);
                    },
                    Some(b) => {
                        if self.rows[k].updated_at < self.rows[b].updated_at {
                            best = Some(k);
                        }
                    },
                }
            }
            k = k + 1;
        }
        best
    }

    /// Apply the outcome of resolving the picked username: a resolved one
    /// is marked valid and touched; an unresolvable one is durable and is
    /// only marked invalid, which takes it out of every later pick.
    pub fn resolution_outcome(&mut self, idx: usize, resolved: bool, now: i64)
        requires
            idx < old(self).rows@.len(),
        ensures
            resolved ==> final(self).rows@ == old(self).rows@.update(
                idx as int,
                UsernameWorkRow {
                    is_valid: Some(true),
                    updated_at: now,
                    ..old(self).rows@[idx as int]
                },
            ),
            !resolved ==> final(self).rows@ == old(self).rows@.update(
                idx as int,
                UsernameWorkRow { is_valid: Some(false), ..old(self).rows@[idx as int] },
            ),
    {
        let ghost pre = self.rows@;
        let mut row = self.rows.remove(idx);
        if resolved {
            row.is_valid = Some(true);
            row.updated_at = now;
            self.rows.insert(idx, row);
            proof {
                assert(self.rows@ =~= pre.update(
                    idx as int,
                    UsernameWorkRow { is_valid: Some(true), updated_at: now, ..pre[idx as int] },
                ));
            }
        } else {
            row.is_valid = Some(false);
            self.rows.insert(idx, row);
            proof {
                assert(self.rows@ =~= pre.update(
                    idx as int,
                    UsernameWorkRow { is_valid: Some(false), ..pre[idx as int] },
                ));
            }
        }
    }

    /// Seed one discovered username, never resolved yet.
    pub fn seed(&mut self, id: u64, source: Option<u64>, username: String, now: i64)
        ensures
            final(self).rows@ == old(self).rows@.push(
                UsernameWorkRow { id, source, username, is_valid: None, updated_at: now },
            ),
    {
        self.rows.push(UsernameWorkRow { id, source, username, is_valid: None, updated_at: now });
    }
}

/// Whether the last full-info snapshot for a username is fresh enough to
/// skip fetching a new one: taken less than a day before `now`.
pub fn full_info_is_fresh(last: Option<i64>, now: i64) -> (r: bool)
    requires
        match last {
            Some(t) => 0 <= t <= now,
            None => true,
        },
        now >= 0,
    ensures
        r == match last {
            Some(t) => now - t < FRESH_SECONDS,
            None => false,
        },
{
    match last {
        Some(t) => now - t < FRESH_SECONDS,
        None => false,
    }
}

/// Which heavy-metadata call a resolved chat requires.
#[derive(Debug, Clone, Copy, PartialEq, Eq)]
pub enum FetchPlan {
    FetchUser,
    FetchChannel,
}

/// Why no full-info fetch can be planned for a chat.
#[derive(Debug, Clone, PartialEq, Eq)]
pub enum InfoError {
    /// The chat is neither a user nor a channel; asking for heavy
    /// metadata of it is a programming error, surfaced rather than
    /// retried.
    WrongKind,
    /// The packed chat carries no access hash, so no request can be
    /// addressed to it.
    NoAccessHash,
}

/// Decide which heavy-metadata call serves the chat: users and channels
/// each have their own, anything else is refused, and a chat without an
/// access hash cannot be addressed at all.
pub fn full_info_plan(chat: &PackedChat) -> (r: Result<FetchPlan, InfoError>)
    ensures
        match r {
            Ok(p) => chat.access_hash is Some && ((p == FetchPlan::FetchUser && chat.kind is User)
                || (p == FetchPlan::FetchChannel && chat.kind is Channel)),
            Err(e) => match e {
                InfoError::NoAccessHash => chat.access_hash is None && (chat.kind is User
                    || chat.kind is Channel),
                InfoError::WrongKind => chat.kind is Group,
            },
        },
{
    match chat.kind {
        crate::types::ChatKind::User => {
            if chat.access_hash.is_some() {
                Ok(FetchPlan::FetchUser)
            } else {
                Err(InfoError::NoAccessHash)
            }
        },
        crate::types::ChatKind::Channel => {
            if chat.access_hash.is_some() {
                Ok(FetchPlan::FetchChannel)
            } else {
                Err(InfoError::NoAccessHash)
            }
        },
        crate::types::ChatKind::Group => Err(InfoError::WrongKind),
    }
}

/// A heavy-metadata snapshot: exactly one of the two shapes, as the
/// store's tagged-variant columns demand.
#[derive(Debug, Clone, PartialEq)]
pub enum InfoPayload {
    /// The serialized full-user answer.
    User(Vec<u8>),
    /// The serialized full-channel answer.
    Channel(Vec<u8>),
}

/// One persisted snapshot, keyed by the username it was fetched under.
#[derive(Debug, Clone, PartialEq)]
pub struct FullInfoRow {
    pub id: u64,
    pub chat_fk: u64,
    pub chat_id: i64,
    pub username: Option<String>,
    pub payload: InfoPayload,
    pub updated_at: i64,
}

/// The append-only log of snapshots.
pub struct FullInfoLog {
    pub rows: Vec<FullInfoRow>,
}

impl FullInfoLog {
    /// An empty log.
    pub fn new() -> (r: FullInfoLog)
        ensures
            r.rows@.len() == 0,
    {
        FullInfoLog { rows: Vec::new() }
    }

    /// Append one snapshot; nothing already logged ever changes.
    pub fn append_snapshot(&mut self, row: FullInfoRow)
        ensures
            final(self).rows@ == old(self).rows@.push(row),
    {
        self.rows.push(row);
    }

    /// When the last snapshot for a username was taken: the greatest
    /// `updated_at` among rows keyed by it.
    pub fn last_snapshot_time(&self, username: &str) -> (r: Option<i64>)
        ensures
            match r {
                Some(t) => exists|j: int|
                    0 <= j < self.rows@.len() && row_keyed_by(#[trigger] self.rows@[j], username@)
                        && self.rows@[j].updated_at == t && forall|m: int|
                        0 <= m < self.rows@.len() && row_keyed_by(#[trigger] self.rows@[m], username@)
                            ==> self.rows@[m].updated_at <= t,
                None => forall|j: int|
                    0 <= j < self.rows@.len() ==> !row_keyed_by(#[trigger] self.rows@[j], username@),
            },
    {
        let n = self.rows.len();
        let mut latest: Option<i64> = None;
        let ghost mut witness: int = 0;
        let mut k: usize = 0;
        while k < n
            invariant
                k <= n,
                n == self.rows@.len(),
                match latest {
                    Some(t) => {
                        &&& 0 <= witness < k
                        &&& row_keyed_by(self.rows@[witness], username@)
                        &&& self.rows@[witness].updated_at == t
                        &&& forall|m: int|
                            0 <= m < k && row_keyed_by(#[trigger] self.rows@[m], username@)
                                ==> self.rows@[m].updated_at <= t
                    },
                    None => forall|m: int|
                        0 <= m < k ==> !row_keyed_by(#[trigger] self.rows@[m], username@),
                },
            decreases n - k,
        {
            let keyed = match &self.rows[k].username {
                Some(s) => crate::interop::str_eq(s.as_str(), username),
                None => false,
            };
            if keyed {
                match latest {
                    None => {
                        latest = Some(self.rows[k].updated_at);
                        proof {
                            witness = k as int;
                        }
                    },
                    Some(t) => {
                        if self.rows[k].updated_at > t {
                            latest = Some(self.rows[k].updated_at);
                            proof {
                                witness = k as int;
                            }
                        }
                    },
                }
            }
            k = k + 1;
        }
        latest
    }
}

/// Whether a snapshot row is keyed by the given username.
pub open spec fn row_keyed_by(r: FullInfoRow, u: Seq<char>) -> bool {
    r.username matches Some(s) && s@ == u
}

} // verus!
