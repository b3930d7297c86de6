use gram::cache::{CacheError, ChatCache, ChatCacheRow};
use gram::schedule::{
    full_info_is_fresh, full_info_plan, ChannelWork, ChannelWorkRow, FetchPlan, FullInfoLog,
    FullInfoRow, InfoError, InfoPayload, UsernameWork, UsernameWorkRow, FRESH_SECONDS,
};
use gram::session::{SessionError, SessionRow, SessionTable};
use gram::types::{ApiConfig, ChatKind, FrozenSession, PackedChat};

fn frozen(byte: u8) -> FrozenSession {
    FrozenSession { data: vec![byte] }
}

fn packed(kind: ChatKind, id: i64) -> PackedChat {
    PackedChat { kind, id, access_hash: Some(99) }
}

#[test]
fn acquire_hands_out_a_frozen_row_exactly_once() {
    // One frozen row, two acquires in a row: the first observes it free
    // and flips it, the second comes away empty.
    let mut t = SessionTable { rows: vec![SessionRow {
        id: 1,
        frozen: frozen(7),
        in_use: false,
        updated_at: 100,
    }] };
    assert_eq!(t.acquire(), Some(0));
    assert!(t.rows[0].in_use);
    assert_eq!(t.acquire(), None);
}

#[test]
fn acquire_prefers_the_most_recently_used_session() {
    let mut t = SessionTable { rows: vec![
        SessionRow { id: 1, frozen: frozen(1), in_use: false, updated_at: 100 },
        SessionRow { id: 2, frozen: frozen(2), in_use: false, updated_at: 300 },
        SessionRow { id: 3, frozen: frozen(3), in_use: true, updated_at: 900 },
    ] };
    assert_eq!(t.acquire(), Some(1));
    assert!(t.rows[1].in_use);
}

#[test]
fn release_freezes_and_frees_the_row() {
    let mut t = SessionTable { rows: vec![SessionRow {
        id: 5,
        frozen: frozen(1),
        in_use: true,
        updated_at: 10,
    }] };
    t.release(5, frozen(2), 20).unwrap();
    assert_eq!(t.rows[0].frozen, frozen(2));
    assert!(!t.rows[0].in_use);
    assert_eq!(t.rows[0].updated_at, 20);
    // The freed row is acquirable again.
    assert_eq!(t.acquire(), Some(0));
}

#[test]
fn release_of_unknown_session_is_refused() {
    let mut t = SessionTable::new();
    assert_eq!(t.release(9, frozen(0), 1).unwrap_err(), SessionError::NotFound);
}

#[test]
fn bootstrap_inserts_an_in_use_row_once() {
    let mut t = SessionTable::new();
    t.insert_new(4, frozen(1), 50).unwrap();
    assert!(t.rows[0].in_use);
    assert_eq!(t.insert_new(4, frozen(2), 60).unwrap_err(), SessionError::DuplicateId);
}

#[test]
fn cache_is_scoped_per_account() {
    let mut c = ChatCache::new();
    let chat = packed(ChatKind::Channel, 1000);
    let idx = c.resolve_step(1, "esse", Some(chat), 11, 5).unwrap().unwrap();
    assert_eq!(idx, 0);
    assert!(!c.rows[0].joined);
    // The caching account hits.
    assert_eq!(c.lookup(1, "esse"), Some(0));
    // Another account never sees the first account's row.
    assert_eq!(c.lookup(2, "esse"), None);
    assert_eq!(c.lookup(1, "other"), None);
}

#[test]
fn unresolved_username_writes_no_tombstone() {
    let mut c = ChatCache::new();
    assert_eq!(c.resolve_step(1, "ghost", None, 11, 5).unwrap(), None);
    assert!(c.rows.is_empty());
    // A later retry may succeed.
    let r = c.resolve_step(1, "ghost", Some(packed(ChatKind::User, 4)), 12, 6).unwrap();
    assert_eq!(r, Some(0));
}

#[test]
fn duplicate_chat_id_for_one_account_is_refused() {
    let mut c = ChatCache::new();
    c.resolve_step(1, "first", Some(packed(ChatKind::Channel, 77)), 11, 5).unwrap();
    let r = c.resolve_step(1, "second", Some(packed(ChatKind::Channel, 77)), 12, 6);
    assert_eq!(r.unwrap_err(), CacheError::ChatIdConflict);
    // A different account may cache the same chat id.
    let mut c2 = ChatCache { rows: c.rows };
    let r = c2.resolve_step(2, "second", Some(packed(ChatKind::Channel, 77)), 13, 7).unwrap();
    assert_eq!(r, Some(1));
}

#[test]
fn join_updates_packed_chat_and_is_idempotent() {
    let mut c = ChatCache::new();
    c.resolve_step(1, "esse", Some(packed(ChatKind::Channel, 10)), 11, 5).unwrap();
    let rotated = PackedChat { kind: ChatKind::Channel, id: 10, access_hash: Some(111) };
    c.apply_join(0, rotated, 20).unwrap();
    assert!(c.rows[0].joined);
    assert_eq!(c.rows[0].chat, rotated);
    assert_eq!(c.rows[0].updated_at, 20);
    // Joining an already joined chat is a no-op.
    let again = PackedChat { kind: ChatKind::Channel, id: 10, access_hash: Some(222) };
    c.apply_join(0, again, 30).unwrap();
    assert_eq!(c.rows[0].chat, rotated);
    assert_eq!(c.rows[0].updated_at, 20);
    // Quitting clears the flag.
    c.apply_quit(0, 40).unwrap();
    assert!(!c.rows[0].joined);
    assert_eq!(c.rows[0].updated_at, 40);
}

#[test]
fn unresolvable_channel_row_is_deleted_and_the_loop_proceeds() {
    // Two seeded channels; the older one does not resolve. After one
    // scheduler iteration its row is gone and the next pick moves on to
    // the next-oldest row.
    let mut w = ChannelWork { rows: vec![
        ChannelWorkRow { id: 1, username: "dead".to_string(), updated_at: 5 },
        ChannelWorkRow { id: 2, username: "live".to_string(), updated_at: 10 },
    ] };
    let first = w.pick_stale().unwrap();
    assert_eq!(w.rows[first].username, "dead");
    w.resolution_outcome(first, false, 100);
    assert_eq!(w.rows.len(), 1);
    assert_eq!(w.rows[0].id, 2);
    let second = w.pick_stale().unwrap();
    assert_eq!(w.rows[second].username, "live");
    w.resolution_outcome(second, true, 100);
    assert_eq!(w.rows.len(), 1);
    assert_eq!(w.rows[0].updated_at, 100);
}

#[test]
fn channel_pick_prefers_the_oldest_and_breaks_ties_in_table_order() {
    let w = ChannelWork { rows: vec![
        ChannelWorkRow { id: 1, username: "a".to_string(), updated_at: 9 },
        ChannelWorkRow { id: 2, username: "b".to_string(), updated_at: 3 },
        ChannelWorkRow { id: 3, username: "c".to_string(), updated_at: 3 },
    ] };
    assert_eq!(w.pick_stale(), Some(1));
    let empty = ChannelWork { rows: vec![] };
    assert_eq!(empty.pick_stale(), None);
}

#[test]
fn dead_usernames_are_marked_not_deleted_and_skipped() {
    let mut w = UsernameWork { rows: vec![
        UsernameWorkRow {
            id: 1,
            source: None,
            username: "gone".to_string(),
            is_valid: None,
            updated_at: 1,
        },
        UsernameWorkRow {
            id: 2,
            source: Some(9),
            username: "there".to_string(),
            is_valid: None,
            updated_at: 2,
        },
    ] };
    let first = w.pick_stale().unwrap();
    assert_eq!(first, 0);
    w.resolution_outcome(first, false, 100);
    // The row stays, marked invalid, its timestamp untouched.
    assert_eq!(w.rows.len(), 2);
    assert_eq!(w.rows[0].is_valid, Some(false));
    assert_eq!(w.rows[0].updated_at, 1);
    // The next pick skips it.
    let second = w.pick_stale().unwrap();
    assert_eq!(second, 1);
    w.resolution_outcome(second, true, 100);
    assert_eq!(w.rows[1].is_valid, Some(true));
    assert_eq!(w.rows[1].updated_at, 100);
}

#[test]
fn seeded_username_starts_unresolved() {
    let mut w = UsernameWork { rows: vec![] };
    w.seed(8, Some(2), "fresh".to_string(), 77);
    assert_eq!(w.rows[0].is_valid, None);
    assert_eq!(w.rows[0].updated_at, 77);
}

#[test]
fn freshness_gate_skips_snapshots_younger_than_a_day() {
    let now = 1_000_000;
    assert!(full_info_is_fresh(Some(now - 100), now));
    assert!(full_info_is_fresh(Some(now - FRESH_SECONDS + 1), now));
    assert!(!full_info_is_fresh(Some(now - FRESH_SECONDS), now));
    assert!(!full_info_is_fresh(None, now));
}

#[test]
fn full_info_dispatches_on_chat_kind() {
    assert_eq!(full_info_plan(&packed(ChatKind::User, 1)).unwrap(), FetchPlan::FetchUser);
    assert_eq!(full_info_plan(&packed(ChatKind::Channel, 1)).unwrap(), FetchPlan::FetchChannel);
    assert_eq!(full_info_plan(&packed(ChatKind::Group, 1)).unwrap_err(), InfoError::WrongKind);
    let no_hash = PackedChat { kind: ChatKind::User, id: 1, access_hash: None };
    assert_eq!(full_info_plan(&no_hash).unwrap_err(), InfoError::NoAccessHash);
}

#[test]
fn full_info_log_is_append_only_and_tracks_last_snapshot() {
    let mut log = FullInfoLog::new();
    assert_eq!(log.last_snapshot_time("esse"), None);
    log.append_snapshot(FullInfoRow {
        id: 1,
        chat_fk: 10,
        chat_id: 1000,
        username: Some("esse".to_string()),
        payload: InfoPayload::Channel(vec![1, 2]),
        updated_at: 50,
    });
    log.append_snapshot(FullInfoRow {
        id: 2,
        chat_fk: 10,
        chat_id: 1000,
        username: Some("esse".to_string()),
        payload: InfoPayload::Channel(vec![3]),
        updated_at: 80,
    });
    log.append_snapshot(FullInfoRow {
        id: 3,
        chat_fk: 11,
        chat_id: 1001,
        username: Some("who".to_string()),
        payload: InfoPayload::User(vec![4]),
        updated_at: 90,
    });
    assert_eq!(log.last_snapshot_time("esse"), Some(80));
    assert_eq!(log.last_snapshot_time("who"), Some(90));
    assert_eq!(log.last_snapshot_time("none"), None);
    assert_eq!(log.rows.len(), 3);
}

#[test]
fn api_config_holds_its_fields() {
    let c = ApiConfig::new(1234, "0123456789abcdef".to_string());
    assert_eq!(c.api_id, 1234);
    assert_eq!(c.api_hash, "0123456789abcdef");
    let p = packed(ChatKind::User, 5);
    assert!(p.is_user());
    assert!(!p.is_channel());
}

#[test]
fn join_of_missing_row_is_refused() {
    let mut c = ChatCache::new();
    let chat = packed(ChatKind::Channel, 5);
    assert_eq!(c.apply_join(3, chat, 10).unwrap_err(), CacheError::NoSuchRow);
    assert_eq!(c.apply_quit(3, 10).unwrap_err(), CacheError::NoSuchRow);
}
