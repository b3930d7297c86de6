use gram::extract::{extract_from_message, extract_usernames_json, Entity, ExtractError};
use gram::text::utf16_range_to_utf8;

fn sorted(mut v: Vec<String>) -> Vec<String> {
    v.sort();
    v
}

fn msg_json(text: &str, entities_json: &str) -> String {
    let mut s = String::new();
    s.push_str("{\"Message\":{");
    s.push_str("\"out\":false,\"mentioned\":false,\"media_unread\":false,\"silent\":false,");
    s.push_str("\"post\":false,\"from_scheduled\":false,\"legacy\":false,\"edit_hide\":false,");
    s.push_str("\"pinned\":false,\"noforwards\":false,\"invert_media\":false,\"offline\":false,");
    s.push_str("\"video_processing_pending\":false,\"paid_suggested_post_stars\":false,");
    s.push_str("\"paid_suggested_post_ton\":false,");
    s.push_str("\"id\":1,\"peer_id\":{\"User\":{\"user_id\":7}},\"date\":0,");
    s.push_str("\"message\":");
    s.push_str(&serde_json::to_string(text).unwrap());
    if !entities_json.is_empty() {
        s.push_str(",\"entities\":");
        s.push_str(entities_json);
    }
    s.push_str("}}");
    s
}

#[test]
fn mentions_are_extracted_and_lowercased() {
    // Two server-side mentions: "@Alice" and "@BOB".
    let json = msg_json(
        "hi @Alice and @BOB!",
        "[{\"Mention\":{\"offset\":3,\"length\":6}},{\"Mention\":{\"offset\":14,\"length\":4}}]",
    );
    let (names, ids) = extract_usernames_json(&json).unwrap();
    assert_eq!(sorted(names), vec!["alice".to_string(), "bob".to_string()]);
    assert!(ids.is_empty());
}

#[test]
fn bare_deep_links_are_scanned_and_private_invites_rejected() {
    let json = msg_json("see t.me/foo and t.me/+secret", "");
    let (names, ids) = extract_usernames_json(&json).unwrap();
    assert_eq!(names, vec!["foo".to_string()]);
    assert!(ids.is_empty());
}

#[test]
fn mixed_script_mention_uses_utf16_offsets() {
    // "你好@Тест": the mention span "@Тест" starts after two BMP characters
    // and is five UTF-16 units long.
    let json = msg_json("你好@Тест", "[{\"Mention\":{\"offset\":2,\"length\":5}}]");
    let (names, ids) = extract_usernames_json(&json).unwrap();
    assert_eq!(names, vec!["тест".to_string()]);
    assert!(ids.is_empty());
}

#[test]
fn mention_by_id_contributes_user_id() {
    let json = msg_json(
        "ping @Carol",
        "[{\"MentionName\":{\"offset\":5,\"length\":6,\"user_id\":42}}]",
    );
    let (names, ids) = extract_usernames_json(&json).unwrap();
    assert_eq!(names, vec!["carol".to_string()]);
    assert_eq!(ids, vec![42i64]);
}

#[test]
fn text_url_entity_contributes_deep_link_username() {
    let entities = vec![
        Entity::TextUrl { url: "https://t.me/SomeName".to_string() },
        Entity::TextUrl { url: "https://t.me/+invite".to_string() },
        Entity::TextUrl { url: "https://example.com/foo".to_string() },
        Entity::TextUrl { url: "http://t.me/Other".to_string() },
    ];
    let (names, ids) = extract_from_message("click here", &entities);
    assert_eq!(sorted(names), vec!["other".to_string(), "somename".to_string()]);
    assert!(ids.is_empty());
}

#[test]
fn out_of_bounds_entity_is_dropped_others_proceed() {
    let entities = vec![
        Entity::Mention { offset: 50, length: 4 },
        Entity::Mention { offset: 0, length: 4 },
    ];
    let (names, ids) = extract_from_message("@abc def", &entities);
    assert_eq!(names, vec!["abc".to_string()]);
    assert!(ids.is_empty());
}

#[test]
fn entity_inside_surrogate_pair_is_dropped() {
    // "😀@ab": the emoji occupies two UTF-16 units, so offset 1 falls
    // inside its surrogate pair.
    let entities = vec![Entity::Mention { offset: 1, length: 3 }];
    let (names, _) = extract_from_message("😀@ab", &entities);
    assert!(names.is_empty());
    // The correct offset works.
    let entities = vec![Entity::Mention { offset: 2, length: 3 }];
    let (names, _) = extract_from_message("😀@ab", &entities);
    assert_eq!(names, vec!["ab".to_string()]);
}

#[test]
fn duplicate_names_are_reported_once() {
    let entities = vec![
        Entity::Mention { offset: 0, length: 2 },
        Entity::Mention { offset: 3, length: 2 },
    ];
    let (names, _) = extract_from_message("@a @a t.me/a", &entities);
    assert_eq!(names, vec!["a".to_string()]);
}

#[test]
fn service_message_yields_nothing() {
    let json = "{\"Empty\":{\"id\":3}}";
    let (names, ids) = extract_usernames_json(json).unwrap();
    assert!(names.is_empty());
    assert!(ids.is_empty());
}

#[test]
fn invalid_json_is_rejected() {
    let r = extract_usernames_json("not a message");
    assert_eq!(r.unwrap_err(), ExtractError::InvalidJson);
}

#[test]
fn utf16_offsets_map_to_utf8_byte_ranges() {
    // "a😀b": 'a' is 1 byte / 1 unit, the emoji 4 bytes / 2 units,
    // 'b' 1 byte / 1 unit.
    let s = "a😀b";
    assert_eq!(utf16_range_to_utf8(s, 0, 1), Some((0, 1)));
    assert_eq!(utf16_range_to_utf8(s, 1, 2), Some((1, 5)));
    assert_eq!(utf16_range_to_utf8(s, 3, 1), Some((5, 6)));
    // An empty span may sit at the very end.
    assert_eq!(utf16_range_to_utf8(s, 4, 0), Some((6, 6)));
    // Offset 2 falls inside the surrogate pair.
    assert_eq!(utf16_range_to_utf8(s, 2, 1), None);
    // Past the end.
    assert_eq!(utf16_range_to_utf8(s, 5, 0), None);
    assert_eq!(utf16_range_to_utf8(s, 3, 2), None);
}

#[test]
fn ascii_text_maps_one_to_one() {
    let s = "hello";
    assert_eq!(utf16_range_to_utf8(s, 0, 5), Some((0, 5)));
    assert_eq!(utf16_range_to_utf8(s, 2, 2), Some((2, 4)));
}

#[test]
fn bare_deep_link_usernames_are_ascii_lowercased() {
    let entities: Vec<Entity> = vec![];
    let (names, _) = extract_from_message("go to https://t.me/MixedCase_99 now", &entities);
    assert_eq!(names, vec!["mixedcase_99".to_string()]);
}

#[test]
fn deep_link_at_end_of_text_is_found() {
    let entities: Vec<Entity> = vec![];
    let (names, _) = extract_from_message("t.me/tail", &entities);
    assert_eq!(names, vec!["tail".to_string()]);
    let (names, _) = extract_from_message("t.me/", &entities);
    assert!(names.is_empty());
}
