use gram::history::{next_chunk, ChatHistory, HistoryError};

#[test]
fn empty_store_primes_and_backfills_in_one_pass() {
    // A chat with server ids 1..=200, first pass with the default
    // forward budget: the prime stores the 100 newest ids, archaeology
    // clips its 500-item request to the 100 below, catch-up has nothing
    // above id 200.
    let mut h = ChatHistory { span: None };
    let (total, old_n, new_n) = h.expand_pass(200, 50).unwrap();
    assert_eq!(h.span, Some((1, 200)));
    assert_eq!(total, 200);
    assert_eq!(old_n, 100);
    assert_eq!(new_n, 0);
    // The next pass inserts nothing in either direction.
    let (total, old_n, new_n) = h.expand_pass(200, 1).unwrap();
    assert_eq!((total, old_n, new_n), (200, 0, 0));
    assert_eq!(h.span, Some((1, 200)));
}

#[test]
fn full_sync_covers_the_whole_chat() {
    let mut h = ChatHistory { span: None };
    let added = h.sync_history(200).unwrap();
    assert_eq!(added, 200);
    assert_eq!(h.span, Some((1, 200)));
}

#[test]
fn sync_of_empty_remote_chat_fails() {
    let mut h = ChatHistory { span: None };
    assert_eq!(h.sync_history(0).unwrap_err(), HistoryError::EmptyChat);
    assert_eq!(h.span, None);
}

#[test]
fn deep_history_takes_several_passes() {
    let mut h = ChatHistory { span: None };
    let added = h.sync_history(2000).unwrap();
    assert_eq!(added, 2000);
    assert_eq!(h.span, Some((1, 2000)));
}

#[test]
fn rerunning_a_finished_sync_adds_nothing() {
    let mut h = ChatHistory { span: None };
    h.sync_history(300).unwrap();
    assert_eq!(h.span, Some((1, 300)));
    let added = h.sync_history(300).unwrap();
    assert_eq!(added, 0);
    assert_eq!(h.span, Some((1, 300)));
}

#[test]
fn catch_up_discards_ids_at_or_below_the_stored_high_end() {
    // Stored [1, 100] against a remote with 160 messages: the fetch is
    // bounded by 100 + 50 from above, walks down to id 100, and id 100
    // itself is discarded.
    let mut h = ChatHistory { span: Some((1, 100)) };
    let (total, old_n, new_n) = h.expand_pass(160, 50).unwrap();
    assert_eq!(h.span, Some((1, 149)));
    assert_eq!((total, old_n, new_n), (149, 0, 49));
}

#[test]
fn archaeology_extends_downward_in_chunks() {
    let mut h = ChatHistory { span: Some((900, 1000)) };
    let (total, old_n, new_n) = h.expand_pass(1000, 1).unwrap();
    assert_eq!(h.span, Some((400, 1000)));
    assert_eq!((total, old_n, new_n), (601, 500, 0));
}

#[test]
fn budget_policy_follows_the_transition_table() {
    // Fully caught up: terminate.
    assert_eq!(next_chunk(0, 0, 50), None);
    // Archaeology done, still new rows: open the throttle.
    assert_eq!(next_chunk(0, 5, 50), Some(500));
    // Archaeology running, catch-up stalled: probe minimally.
    assert_eq!(next_chunk(3, 0, 50), Some(1));
    // Catch-up below the steady bound: match its realized rate.
    assert_eq!(next_chunk(3, 7, 50), Some(7));
    assert_eq!(next_chunk(3, 49, 50), Some(49));
    // At the steady bound: keep the current budget.
    assert_eq!(next_chunk(3, 50, 50), Some(50));
}

#[test]
fn a_pass_with_zero_budget_still_backfills() {
    let mut h = ChatHistory { span: Some((600, 700)) };
    let (total, old_n, new_n) = h.expand_pass(700, 0).unwrap();
    assert_eq!(h.span, Some((100, 700)));
    assert_eq!((total, old_n, new_n), (601, 500, 0));
}
