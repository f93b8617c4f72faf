//! The change event decoder: from a raw feed notification — a channel name
//! and a payload — to a typed change event, or a decode failure. Failures
//! are non-fatal; the caller logs and discards the input.

use vstd::prelude::*;

use crate::ids;
use crate::text;

verus! {

/// What a change event does to its entity.
#[derive(Debug, Clone, Copy, PartialEq, Eq, Structural)]
pub enum EventKind {
    Insert,
    Update,
    Delete,
}

/// One decoded change: an entity of a topic was inserted, updated or
/// deleted.
#[derive(Debug, Clone, Copy, PartialEq, Eq, Structural)]
pub struct ChangeEvent {
    pub kind: EventKind,
    /// The changed entity (a message).
    pub entity_id: u128,
    /// The topic (a chat channel) the entity belongs to.
    pub topic_id: u128,
}

/// Why a raw notification was rejected.
#[derive(Debug, Clone, Copy, PartialEq, Eq, Structural)]
pub enum DecodeError {
    /// The payload is not exactly two identifiers long.
    PayloadLength,
    /// The notification arrived on a channel name outside the recognized
    /// set.
    UnknownChannel,
    /// A half of the payload is not an identifier in canonical form.
    Identifier,
}

/// The event kind a feed channel name announces, if the name is
/// recognized.
pub open spec fn channel_kind(channel: Seq<char>) -> Option<EventKind> {
    if channel == "insert_message"@ {
        Some(EventKind::Insert)
    } else if channel == "update_message"@ {
        Some(EventKind::Update)
    } else if channel == "delete_message"@ {
        Some(EventKind::Delete)
    } else {
        None
    }
}

/// A payload is well-formed when it is exactly two canonical identifiers,
/// entity first, topic second, with no separator.
pub open spec fn payload_well_formed(payload: Seq<char>) -> bool {
    payload.len() == 72 && ids::is_canonical_id(payload.subrange(0, 36)) && ids::is_canonical_id(
        payload.subrange(36, 72),
    )
}

/// Decode one raw notification.
///
/// Succeeds exactly when the payload is two canonical identifiers and the
/// channel name is recognized; the decoded event carries the first
/// identifier as the entity and the second as the topic. Each rejection
/// names its reason: a wrong length first, then an unrecognized channel,
/// then a malformed identifier.
pub fn decode_notification(channel: &str, payload: &str) -> (r: Result<ChangeEvent, DecodeError>)
    ensures
        r == Err::<ChangeEvent, DecodeError>(DecodeError::PayloadLength) <==> payload@.len() != 72,
        r == Err::<ChangeEvent, DecodeError>(DecodeError::UnknownChannel) <==> payload@.len() == 72
            && channel_kind(channel@) is None,
        r == Err::<ChangeEvent, DecodeError>(DecodeError::Identifier) <==> payload@.len() == 72
            && channel_kind(channel@) is Some && !payload_well_formed(payload@),
        r is Ok <==> payload_well_formed(payload@) && channel_kind(channel@) is Some,
        r is Ok ==> r->Ok_0.kind == channel_kind(channel@)->Some_0 && r->Ok_0.entity_id
            == ids::id_value(payload@.subrange(0, 36)) && r->Ok_0.topic_id == ids::id_value(
            payload@.subrange(36, 72),
        ),
{
    let n = payload.unicode_len();
    if n != 72 {
        return Err(DecodeError::PayloadLength);
    }
    let kind = if text::str_eq(channel, "insert_message") {
        EventKind::Insert
    } else if text::str_eq(channel, "update_message") {
        EventKind::Update
    } else if text::str_eq(channel, "delete_message") {
        EventKind::Delete
    } else {
        return Err(DecodeError::UnknownChannel);
    };
    let entity_text = payload.substring_char(0, 36);
    let topic_text = payload.substring_char(36, 72);
    match (ids::parse_id(entity_text), ids::parse_id(topic_text)) {
        (Some(entity_id), Some(topic_id)) => Ok(ChangeEvent { kind, entity_id, topic_id }),
        _ => Err(DecodeError::Identifier),
    }
}

} // verus!
