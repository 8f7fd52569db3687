//! Plain-value models of the domain records the runtime carries: domain
//! events, command acknowledgements and outbox operations.
use vstd::prelude::*;

verus! {

/// A copy of an optional string.
pub fn dup_opt_string(s: &Option<String>) -> (r: Option<String>)
    ensures
        r == *s,
{
    match s {
        Some(v) => Some(v.clone()),
        None => None,
    }
}

/// A copy of a vector of strings.
pub fn dup_strings(v: &Vec<String>) -> (r: Vec<String>)
    ensures
        r@ == v@,
{
    let mut r: Vec<String> = Vec::new();
    let mut i: usize = 0;
    while i < v.len()
        invariant
            i <= v@.len(),
            r@ == v@.subrange(0, i as int),
        decreases v@.len() - i,
    {
        r.push(v[i].clone());
        i = i + 1;
    }
    assert(r@ =~= v@);
    r
}

/// A domain event as recorded in the event log. `payload` is the JSON text
/// of the event's payload object.
#[derive(Debug)]
pub struct DomainEvent {
    pub seq: u64,
    pub account_id: String,
    pub topic: String,
    pub occurred_at: String,
    pub mailbox_id: Option<String>,
    pub message_id: Option<String>,
    pub payload: String,
}

impl DomainEvent {
    pub fn duplicate(&self) -> (r: Self)
        ensures
            r == *self,
    {
        DomainEvent {
            seq: self.seq,
            account_id: self.account_id.clone(),
            topic: self.topic.clone(),
            occurred_at: self.occurred_at.clone(),
            mailbox_id: dup_opt_string(&self.mailbox_id),
            message_id: dup_opt_string(&self.message_id),
            payload: self.payload.clone(),
        }
    }
}

/// The acknowledgement of an applied command: the events it produced.
#[derive(Debug)]
pub struct CommandAck {
    pub events: Vec<DomainEvent>,
}

impl CommandAck {
    pub fn duplicate(&self) -> (r: Self)
        ensures
            r.events@ == self.events@,
    {
        let mut events: Vec<DomainEvent> = Vec::new();
        let mut i: usize = 0;
        while i < self.events.len()
            invariant
                i <= self.events@.len(),
                events@ == self.events@.subrange(0, i as int),
            decreases self.events@.len() - i,
        {
            events.push(self.events[i].duplicate());
            i = i + 1;
        }
        assert(events@ =~= self.events@);
        CommandAck { events }
    }
}

/// An outbox operation (a draft save/delete or a send).
#[derive(Debug)]
pub struct Operation {
    pub id: String,
    pub account_id: String,
    pub entity_kind: String,
    pub entity_id: String,
    pub kind: String,
    pub state: String,
    pub attempts: u32,
    pub created_at: String,
    pub updated_at: String,
}

impl Operation {
    pub fn duplicate(&self) -> (r: Self)
        ensures
            r == *self,
    {
        Operation {
            id: self.id.clone(),
            account_id: self.account_id.clone(),
            entity_kind: self.entity_kind.clone(),
            entity_id: self.entity_id.clone(),
            kind: self.kind.clone(),
            state: self.state.clone(),
            attempts: self.attempts,
            created_at: self.created_at.clone(),
            updated_at: self.updated_at.clone(),
        }
    }
}

} // verus!

verus! {

pub const EVENT_TOPIC_ACCOUNT_CREATED: &'static str = "account.created";

pub const EVENT_TOPIC_ACCOUNT_UPDATED: &'static str = "account.updated";

pub const EVENT_TOPIC_ACCOUNT_DELETED: &'static str = "account.deleted";

pub const EVENT_TOPIC_ACCOUNT_STATUS_CHANGED: &'static str = "account.status_changed";

pub const EVENT_TOPIC_MESSAGE_UPDATED: &'static str = "message.updated";

pub const EVENT_TOPIC_REV_LOG_APPENDED: &'static str = "rev_log.appended";

/// Why the event store refused an append.
#[derive(Debug)]
pub struct StoreError {
    pub message: String,
}

} // verus!
