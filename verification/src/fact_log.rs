//! The runtime side of the authority's event log: the event a down-channel
//! base assertion republishes, and the read-only fact log's cursor filter,
//! head and truncation point.
use vstd::prelude::*;

use crate::domain::{DomainEvent, EVENT_TOPIC_MESSAGE_UPDATED};
use crate::errors::owned;
use crate::json::{spec_json_string, write_json_string, write_raw};
use crate::runtime_handle::EventFilter;
use crate::text::string_of;

verus! {

/// What a base assertion says of a message: it is present (with some fold
/// state), or it was removed.
#[derive(Clone, Copy, Debug, PartialEq, Eq, Structural)]
pub enum BaseUpdate {
    Present,
    Removed,
}

/// A base assertion the authority server pushes down the link: the message
/// it concerns, what became of it, and the enriched event it carries, if
/// any.
#[derive(Debug)]
pub struct BaseAssertion {
    pub account_id: String,
    pub message_id: String,
    pub update: BaseUpdate,
    pub event: Option<DomainEvent>,
}

pub const REMOVED_PAYLOAD_OPEN: &'static str = "{\"deleted\":true,\"messageId\":";

pub const CHANGED_PAYLOAD_OPEN: &'static str =
    "{\"changes\":{\"keywords\":true,\"mailboxes\":true},\"messageId\":";

/// The payload of the bare event synthesized for an assertion without a
/// carried event: a deletion, or broad change flags.
pub open spec fn spec_bare_payload(update: BaseUpdate, message_id: Seq<char>) -> Seq<char> {
    match update {
        BaseUpdate::Removed => REMOVED_PAYLOAD_OPEN@ + spec_json_string(message_id) + seq!['}'],
        BaseUpdate::Present => CHANGED_PAYLOAD_OPEN@ + spec_json_string(message_id) + seq!['}'],
    }
}

/// The event a base assertion republishes on the local live stream under
/// sequence number `seq`: its carried event restamped with `seq`, or a bare
/// `message.updated` event for its message, occurring at `occurred_at`.
pub fn down_assertion_to_event(assertion: &BaseAssertion, seq: u64, occurred_at: String) -> (r:
    DomainEvent)
    ensures
        match assertion.event {
            Some(e) => r == DomainEvent { seq: seq, ..e },
            None => {
                &&& r.seq == seq
                &&& r.account_id == assertion.account_id
                &&& r.topic@ == EVENT_TOPIC_MESSAGE_UPDATED@
                &&& r.occurred_at == occurred_at
                &&& r.mailbox_id is None
                &&& r.message_id == Some(assertion.message_id)
                &&& r.payload@ == spec_bare_payload(assertion.update, assertion.message_id@)
            },
        },
{
    match &assertion.event {
        Some(e) => {
            let mut event = e.duplicate();
            event.seq = seq;
            event
        },
        None => {
            let mut payload: Vec<char> = Vec::new();
            match assertion.update {
                BaseUpdate::Removed => write_raw(&mut payload, REMOVED_PAYLOAD_OPEN),
                BaseUpdate::Present => write_raw(&mut payload, CHANGED_PAYLOAD_OPEN),
            }
            write_json_string(&mut payload, assertion.message_id.as_str());
            payload.push('}');
            proof {
                assert(payload@ =~= spec_bare_payload(assertion.update, assertion.message_id@));
            }
            DomainEvent {
                seq,
                account_id: assertion.account_id.clone(),
                topic: owned(EVENT_TOPIC_MESSAGE_UPDATED),
                occurred_at,
                mailbox_id: None,
                message_id: Some(assertion.message_id.clone()),
                payload: string_of(payload.as_slice()),
            }
        },
    }
}

/// The filter of a fact-log replay after `after_seq`: the subscriber's own
/// filter (the whole log when it has none) with the cursor in its
/// `after_seq` slot.
pub fn replay_filter(after_seq: u64, filter: Option<EventFilter>) -> (r: EventFilter)
    ensures
        r.after_seq == Some(after_seq),
        match filter {
            Some(f) => r.account_id == f.account_id && r.topic == f.topic && r.mailbox_id
                == f.mailbox_id,
            None => r.account_id is None && r.topic is None && r.mailbox_id is None,
        },
{
    match filter {
        Some(f) => EventFilter {
            account_id: f.account_id,
            topic: f.topic,
            mailbox_id: f.mailbox_id,
            after_seq: Some(after_seq),
        },
        None => EventFilter {
            account_id: None,
            topic: None,
            mailbox_id: None,
            after_seq: Some(after_seq),
        },
    }
}

/// The oldest and newest sequence numbers the event log holds.
#[derive(Clone, Copy, Debug, PartialEq, Eq, Structural)]
pub struct EventLogBounds {
    pub oldest: u64,
    pub newest: u64,
}

/// The fact log's head: the newest sequence number, from the bounds query
/// when it answered (zero for an empty log), else from a scan of the whole
/// log (its last event's, zero when empty).
pub fn highest_seq(bounds: Result<Option<EventLogBounds>, ()>, scan: &Vec<DomainEvent>) -> (r: u64)
    ensures
        r == match bounds {
            Ok(Some(b)) => b.newest,
            Ok(None) => 0,
            Err(()) => if scan@.len() > 0 {
                scan@.last().seq
            } else {
                0
            },
        },
{
    match bounds {
        Ok(Some(b)) => b.newest,
        Ok(None) => 0,
        Err(()) => {
            if scan.len() > 0 {
                scan[scan.len() - 1].seq
            } else {
                0
            }
        },
    }
}

/// The fact log's truncation point: the oldest retained sequence number,
/// from the bounds query when it answered (zero for an empty log), else from
/// a scan of the whole log (its first event's, zero when empty).
pub fn truncation_point(bounds: Result<Option<EventLogBounds>, ()>, scan: &Vec<DomainEvent>) -> (r:
    u64)
    ensures
        r == match bounds {
            Ok(Some(b)) => b.oldest,
            Ok(None) => 0,
            Err(()) => if scan@.len() > 0 {
                scan@[0].seq
            } else {
                0
            },
        },
{
    match bounds {
        Ok(Some(b)) => b.oldest,
        Ok(None) => 0,
        Err(()) => {
            if scan.len() > 0 {
                scan[0].seq
            } else {
                0
            }
        },
    }
}

} // verus!
