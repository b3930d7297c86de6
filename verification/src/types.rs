//! Plain data types shared across the library.

use vstd::prelude::*;

verus! {

/// Platform app credentials: the numeric app id and its hash.
#[derive(Debug, Clone, PartialEq, Eq)]
pub struct ApiConfig {
    pub api_id: i32,
    pub api_hash: String,
}

impl ApiConfig {
    /// Pack an app id and its hash into a credential record.
    pub fn new(api_id: i32, api_hash: String) -> (r: ApiConfig)
        ensures
            r.api_id == api_id,
            r.api_hash == api_hash,
    {
        ApiConfig { api_id, api_hash }
    }
}

/// A session serialized to bytes while no process is using it. The bytes
/// are opaque: they carry the auth key, server salt and data-center
/// assignment of the platform client, and only that client reads them.
#[derive(Debug, Clone, PartialEq, Eq)]
pub struct FrozenSession {
    pub data: Vec<u8>,
}

/// What kind of peer a packed chat addresses.
#[derive(Debug, Clone, Copy, PartialEq, Eq)]
pub enum ChatKind {
    User,
    Group,
    Channel,
}

/// The library's view of a packed chat: the chat id together with the
/// account-scoped access hash that re-addresses the chat in later calls.
/// Access hashes are not portable between accounts.
#[derive(Debug, Clone, Copy, PartialEq, Eq)]
pub struct PackedChat {
    pub kind: ChatKind,
    pub id: i64,
    pub access_hash: Option<i64>,
}

impl PackedChat {
    /// Whether the peer is a single user.
    pub fn is_user(&self) -> (r: bool)
        ensures
            r == (self.kind is User),
    {
        match self.kind {
            ChatKind::User => true,
            _ => false,
        }
    }

    /// Whether the peer is a broadcast channel or supergroup.
    pub fn is_channel(&self) -> (r: bool)
        ensures
            r == (self.kind is Channel),
    {
        match self.kind {
            ChatKind::Channel => true,
            _ => false,
        }
    }
}

} // verus!
