//! Mention extraction.
//!
//! A message carries a text body and an optional list of entities whose
//! spans are measured in UTF-16 code units. Mention entities contribute
//! usernames cut from the body; mention-by-id entities additionally
//! contribute numeric user ids; text-url entities and bare deep links in
//! the body contribute the usernames their URLs name.

use vstd::prelude::*;
use vstd::string::StrSliceExecFns;

use crate::deeplink::{deeplink_names, scan_deeplinks_into, url_candidate, url_username};
use crate::interop::{decode_message, decoded_message, lower_of, lowercase};
use crate::names::{
    distinct_seq, has_no_upper_ascii, insert_unique, insert_unique_i64, lemma_lower_ascii_has_no_upper,
    lower_ascii, norm_username, string_views,
};
use crate::text::{lemma_utf16_cut_ordered, utf16_cut, utf16_range_to_chars};

verus! {

/// A typed span over a message's text. Offsets and lengths are in UTF-16
/// code units, as the platform transmits them.
#[derive(Debug, Clone, PartialEq)]
pub enum Entity {
    /// A `@username` mention, generated server-side.
    Mention { offset: i32, length: i32 },
    /// An inline mention of a user by numeric id.
    MentionName { offset: i32, length: i32, user_id: i64 },
    /// A span linked to a URL.
    TextUrl { url: String },
    /// Any other entity kind; nothing is extracted from it.
    Other,
}

/// A message decoded from its JSON form.
#[derive(Debug, Clone, PartialEq)]
pub enum DecodedMessage {
    /// A service or empty message: it carries no text body.
    Other,
    /// A plain message: its body and its entities.
    Text { text: String, entities: Vec<Entity> },
}

/// Why extraction can fail.
#[derive(Debug, Clone, PartialEq, Eq)]
pub enum ExtractError {
    /// The input is not valid JSON for a message object.
    InvalidJson,
}

/// The username a mention span names: the span must map onto character
/// boundaries, must begin with `@`, and what follows the `@`, lowercased,
/// must be an acceptable username.
pub open spec fn mention_span(t: Seq<char>, off: int, len: int) -> Option<Seq<char>> {
    if 0 <= off && 0 <= len && utf16_cut(t, off) is Some && utf16_cut(t, off + len) is Some {
        let i = utf16_cut(t, off)->0;
        let j = utf16_cut(t, off + len)->0;
        if i < j && t[i] == '@' {
            norm_username(lower_of(t.subrange(i + 1, j)))
        } else {
            None
        }
    } else {
        None
    }
}

/// The username one entity's span names, if any.
pub open spec fn mention_of(t: Seq<char>, e: Entity) -> Option<Seq<char>> {
    match e {
        Entity::Mention { offset, length } => mention_span(t, offset as int, length as int),
        Entity::MentionName { offset, length, .. } => mention_span(
            t,
            offset as int,
            length as int,
        ),
        _ => None,
    }
}

/// Usernames named by the spans of the first `n` entities.
pub open spec fn mention_names_upto(t: Seq<char>, es: Seq<Entity>, n: int) -> Set<Seq<char>>
    decreases n,
{
    if n <= 0 {
        Set::empty()
    } else {
        match mention_of(t, es[n - 1]) {
            Some(u) => mention_names_upto(t, es, n - 1).insert(u),
            None => mention_names_upto(t, es, n - 1),
        }
    }
}

pub open spec fn mention_names(t: Seq<char>, es: Seq<Entity>) -> Set<Seq<char>> {
    mention_names_upto(t, es, es.len() as int)
}

/// User ids carried by the first `n` entities.
pub open spec fn mention_ids_upto(es: Seq<Entity>, n: int) -> Set<i64>
    decreases n,
{
    if n <= 0 {
        Set::empty()
    } else {
        match es[n - 1] {
            Entity::MentionName { user_id, .. } => mention_ids_upto(es, n - 1).insert(user_id),
            _ => mention_ids_upto(es, n - 1),
        }
    }
}

pub open spec fn mention_ids(es: Seq<Entity>) -> Set<i64> {
    mention_ids_upto(es, es.len() as int)
}

/// Usernames named by the URLs of the first `n` entities.
pub open spec fn texturl_names_upto(es: Seq<Entity>, n: int) -> Set<Seq<char>>
    decreases n,
{
    if n <= 0 {
        Set::empty()
    } else {
        match es[n - 1] {
            Entity::TextUrl { url } => match url_username(url@) {
                Some(u) => texturl_names_upto(es, n - 1).insert(u),
                None => texturl_names_upto(es, n - 1),
            },
            _ => texturl_names_upto(es, n - 1),
        }
    }
}

pub open spec fn texturl_names(es: Seq<Entity>) -> Set<Seq<char>> {
    texturl_names_upto(es, es.len() as int)
}

/// Everything a message's text and entities name: bare deep links, mention
/// spans, and text-url entities.
pub open spec fn extracted_names(t: Seq<char>, es: Seq<Entity>) -> Set<Seq<char>> {
    deeplink_names(t).union(mention_names(t, es)).union(texturl_names(es))
}

/// Every user id the entities carry.
pub open spec fn extracted_ids(es: Seq<Entity>) -> Set<i64> {
    mention_ids(es)
}

/// Cut the mention span `[offset, offset + length)` out of the body and
/// normalize it into a username, if the span is acceptable.
fn mention_candidate(text: &str, offset: i32, length: i32) -> (r: Option<String>)
    ensures
        match r {
            Some(u) => mention_span(text@, offset as int, length as int) == Some(u@),
            None => mention_span(text@, offset as int, length as int) is None,
        },
{
    if offset < 0 || length < 0 {
        return None;
    }
    let off = offset as usize;
    let len = length as usize;
    match utf16_range_to_chars(text, off, len) {
        None => None,
        Some((i, j)) => {
            proof {
                if utf16_cut(text@, off as int) is Some && utf16_cut(text@, off + len) is Some {
                    lemma_utf16_cut_ordered(text@, off as int, off + len, i as int, j as int);
                }
            }
            if i < j && text.get_char(i) == '@' {
                let sub = text.substring_char(i + 1, j);
                let low = lowercase(sub);
                if low.as_str().unicode_len() == 0 {
                    None
                } else if low.as_str().get_char(0) == '+' {
                    None
                } else {
                    Some(low)
                }
            } else {
                None
            }
        },
    }
}

/// Extract every username and user id that the message body and its
/// entities name. The returned lists carry no duplicates.
pub fn extract_from_message(text: &str, entities: &Vec<Entity>) -> (r: (Vec<String>, Vec<i64>))
    ensures
        string_views(r.0@).to_set() == extracted_names(text@, entities@),
        distinct_seq(string_views(r.0@)),
        r.1@.to_set() == extracted_ids(entities@),
        distinct_seq(r.1@),
{
    let ghost t = text@;
    let ghost es = entities@;
    let mut names: Vec<String> = Vec::new();
    let mut ids: Vec<i64> = Vec::new();
    scan_deeplinks_into(text, &mut names);
    proof {
        assert(string_views(names@).to_set() =~= deeplink_names(t).union(
            mention_names_upto(t, es, 0),
        ).union(texturl_names_upto(es, 0)));
        assert(ids@.to_set() =~= mention_ids_upto(es, 0));
    }
    let mut idx: usize = 0;
    while idx < entities.len()
        invariant
            idx <= es.len(),
            es == entities@,
            t == text@,
            distinct_seq(string_views(names@)),
            distinct_seq(ids@),
            string_views(names@).to_set() == deeplink_names(t).union(
                mention_names_upto(t, es, idx as int),
            ).union(texturl_names_upto(es, idx as int)),
            ids@.to_set() == mention_ids_upto(es, idx as int),
        decreases es.len() - idx,
    {
        match &entities[idx] {
            Entity::Mention { offset, length } => {
                match mention_candidate(text, *offset, *length) {
                    Some(u) => insert_unique(&mut names, u),
                    None => {},
                }
            },
            Entity::MentionName { offset, length, user_id } => {
                insert_unique_i64(&mut ids, *user_id);
                match mention_candidate(text, *offset, *length) {
                    Some(u) => insert_unique(&mut names, u),
                    None => {},
                }
            },
            Entity::TextUrl { url } => {
                match url_candidate(url.as_str()) {
                    Some(u) => insert_unique(&mut names, u),
                    None => {},
                }
            },
            Entity::Other => {},
        }
        proof {
            assert(string_views(names@).to_set() =~= deeplink_names(t).union(
                mention_names_upto(t, es, idx + 1),
            ).union(texturl_names_upto(es, idx + 1)));
            assert(ids@.to_set() =~= mention_ids_upto(es, idx + 1));
        }
        idx = idx + 1;
    }
    (names, ids)
}

/// Extract usernames and user ids out of a message given as JSON text.
/// Text that does not parse as a message is rejected; a message without a
/// text body yields nothing.
pub fn extract_usernames_json(msg: &str) -> (r: Result<(Vec<String>, Vec<i64>), ExtractError>)
    ensures
        ({
            let d = decoded_message(msg@);
            match r {
                Ok(p) => {
                    &&& d is Some
                    &&& distinct_seq(string_views(p.0@))
                    &&& distinct_seq(p.1@)
                    &&& match d->0 {
                        DecodedMessage::Text { text, entities } => string_views(p.0@).to_set()
                            == extracted_names(text@, entities@) && p.1@.to_set() == extracted_ids(
                            entities@,
                        ),
                        DecodedMessage::Other => p.0@.len() == 0 && p.1@.len() == 0,
                    }
                },
                Err(e) => d is None && e == ExtractError::InvalidJson,
            }
        }),
{
    match decode_message(msg) {
        None => Err(ExtractError::InvalidJson),
        Some(DecodedMessage::Other) => Ok((Vec::new(), Vec::new())),
        Some(DecodedMessage::Text { text, entities }) => Ok(
            extract_from_message(text.as_str(), &entities),
        ),
    }
}

/// Every deep-link username is normalized: non-empty, no private-invite
/// marker, and free of uppercase ASCII.
proof fn lemma_deeplinks_normalized(t: Seq<char>, n: int, u: Seq<char>)
    requires
        crate::deeplink::deeplinks_upto(t, n).contains(u),
    ensures
        u.len() > 0,
        u[0] != '+',
        has_no_upper_ascii(u),
    decreases n,
{
    if n <= 0 {
    } else {
        match crate::deeplink::deeplink_at(t, n - 1) {
            Some(w) => {
                if u == w {
                    let p = n - 1 + 5;
                    let seg = t.subrange(p, crate::deeplink::seg_run_end(t, p));
                    lemma_lower_ascii_has_no_upper(seg);
                } else {
                    lemma_deeplinks_normalized(t, n - 1, u);
                }
            },
            None => {
                lemma_deeplinks_normalized(t, n - 1, u);
            },
        }
    }
}

/// Every mention-span username is normalized and is a lowercasing of some
/// raw span.
proof fn lemma_mentions_normalized(t: Seq<char>, es: Seq<Entity>, n: int, u: Seq<char>)
    requires
        mention_names_upto(t, es, n).contains(u),
    ensures
        u.len() > 0,
        u[0] != '+',
        exists|raw: Seq<char>| u == lower_of(raw),
    decreases n,
{
    if n <= 0 {
    } else {
        match mention_of(t, es[n - 1]) {
            Some(w) => {
                if u == w {
                    match es[n - 1] {
                        Entity::Mention { offset, length } => {
                            let i = utf16_cut(t, offset as int)->0;
                            let j = utf16_cut(t, offset + length)->0;
                            assert(u == lower_of(t.subrange(i + 1, j)));
                        },
                        Entity::MentionName { offset, length, .. } => {
                            let i = utf16_cut(t, offset as int)->0;
                            let j = utf16_cut(t, offset + length)->0;
                            assert(u == lower_of(t.subrange(i + 1, j)));
                        },
                        _ => {
                            assert(false);
                        },
                    }
                } else {
                    lemma_mentions_normalized(t, es, n - 1, u);
                }
            },
            None => {
                lemma_mentions_normalized(t, es, n - 1, u);
            },
        }
    }
}

/// Every text-url username is normalized and free of uppercase ASCII.
proof fn lemma_texturls_normalized(es: Seq<Entity>, n: int, u: Seq<char>)
    requires
        texturl_names_upto(es, n).contains(u),
    ensures
        u.len() > 0,
        u[0] != '+',
        has_no_upper_ascii(u),
    decreases n,
{
    if n <= 0 {
    } else {
        match es[n - 1] {
            Entity::TextUrl { url } => {
                match url_username(url@) {
                    Some(w) => {
                        if u == w {
                            let p = crate::deeplink::scheme_skip(url@) + 5;
                            let seg = url@.subrange(p, crate::deeplink::seg_run_end(url@, p));
                            lemma_lower_ascii_has_no_upper(seg);
                        } else {
                            lemma_texturls_normalized(es, n - 1, u);
                        }
                    },
                    None => {
                        lemma_texturls_normalized(es, n - 1, u);
                    },
                }
            },
            _ => {
                lemma_texturls_normalized(es, n - 1, u);
            },
        }
    }
}

/// Mention normalization: every extracted username is non-empty, does not
/// begin with `+`, and is lowercased — by ASCII lowercasing for names cut
/// from URLs, and by the standard library's lowercase mapping for names
/// cut from mention spans.
pub proof fn lemma_extracted_names_normalized(t: Seq<char>, es: Seq<Entity>, u: Seq<char>)
    requires
        extracted_names(t, es).contains(u),
    ensures
        u.len() > 0,
        u[0] != '+',
        has_no_upper_ascii(u) || (exists|raw: Seq<char>| u == lower_of(raw)),
{
    if deeplink_names(t).contains(u) {
        lemma_deeplinks_normalized(t, t.len() as int, u);
    } else if mention_names(t, es).contains(u) {
        lemma_mentions_normalized(t, es, es.len() as int, u);
    } else {
        lemma_texturls_normalized(es, es.len() as int, u);
    }
}

} // verus!
