//! Trusted declarations for the outside calls the library relies on.
//!
//! Each function here is believed, not proved: its body makes one call into
//! the standard library or an outside crate, and its contract states only
//! what that call's own documentation or source shows.

use vstd::prelude::*;

use crate::extract::{DecodedMessage, Entity};
use grammers_tl_types::enums::MessageEntity as TlEntity;

verus! {

/// What `str::to_lowercase` returns for a given character sequence. The
/// full case-mapping tables are not written out here; the name stands for
/// the result, which depends on the characters alone.
pub uninterp spec fn lower_of(s: Seq<char>) -> Seq<char>;

/// What parsing a message out of its JSON text yields, when the text is
/// valid JSON for a message object: `None` for text that does not parse.
pub uninterp spec fn decoded_message(s: Seq<char>) -> Option<DecodedMessage>;

/// Relies on `str::to_lowercase` of std: the lowercase mapping is a
/// function of the characters alone, and maps nothing to more than it had;
/// in particular an empty string stays empty.
#[verifier::external_body]
pub(crate) fn lowercase(s: &str) -> (r: String)
    ensures
        r@ == lower_of(s@),
        s@.len() == 0 ==> r@.len() == 0,
{
    s.to_lowercase()
}

/// Relies on `str`'s `PartialEq` of std: two string slices are equal
/// exactly when their characters are.
#[verifier::external_body]
pub(crate) fn str_eq(a: &str, b: &str) -> (r: bool)
    ensures
        r == (a@ == b@),
{
    a == b
}

/// Relies on `String::push` of std: appends exactly one character.
#[verifier::external_body]
pub(crate) fn string_push(s: &mut String, c: char)
    ensures
        final(s)@ == old(s)@.push(c),
{
    s.push(c);
}

/// Relies on `serde_json::from_str` for `grammers_tl_types::enums::Message`:
/// parsing is a function of the input text alone. A plain message becomes
/// its body and entity list; service and empty messages carry no text.
#[verifier::external_body]
pub(crate) fn decode_message(s: &str) -> (r: Option<DecodedMessage>)
    ensures
        r == decoded_message(s@),
{
    match serde_json::from_str::<grammers_tl_types::enums::Message>(s) {
        Err(_) => None,
        Ok(grammers_tl_types::enums::Message::Message(m)) => Some(DecodedMessage::Text {
            text: m.message,
            entities: convert_entities(m.entities.unwrap_or_default()),
        }),
        Ok(_) => Some(DecodedMessage::Other),
    }
}

/// Conversion half of `decode_message`, split out for its size: each entity
/// variant the extractor reads is moved field by field; all others collapse
/// to `Entity::Other`.
#[verifier::external_body]
fn convert_entities(es: Vec<TlEntity>) -> Vec<Entity> {
    let mut out = Vec::new();
    for e in es {
        out.push(match e {
            TlEntity::Mention(m) => Entity::Mention { offset: m.offset, length: m.length },
            TlEntity::MentionName(m) =>
                Entity::MentionName { offset: m.offset, length: m.length, user_id: m.user_id },
            TlEntity::TextUrl(m) => Entity::TextUrl { url: m.url },
            _ => Entity::Other,
        });
    }
    out
}

#[verifier::external_type_specification]
#[verifier::external_body]
pub struct ExTlEntity(TlEntity);

} // verus!
