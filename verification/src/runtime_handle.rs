//! Runtime handle decisions: whether the runtime serves requests, whether a
//! mutation's account is in the caller's scope, and which events an event
//! subscription delivers.
use vstd::prelude::*;

use crate::domain::DomainEvent;
use crate::errors::{owned, RuntimeAdapterError, RuntimeError, RuntimeErrorCode, Terminality};
use crate::ledger::concat;
use crate::text::{contains_str, str_eq};

verus! {

/// Where the runtime is in its life.
#[derive(Clone, Copy, Debug, PartialEq, Eq, Structural)]
pub enum RuntimeLifecycle {
    Starting,
    Ready,
    Degraded,
    Stopping,
    Stopped,
}

pub open spec fn spec_lifecycle_label(l: RuntimeLifecycle) -> Seq<char> {
    match l {
        RuntimeLifecycle::Starting => "starting"@,
        RuntimeLifecycle::Ready => "ready"@,
        RuntimeLifecycle::Degraded => "degraded"@,
        RuntimeLifecycle::Stopping => "stopping"@,
        RuntimeLifecycle::Stopped => "stopped"@,
    }
}

/// The lower-case name of a lifecycle stage.
pub fn runtime_lifecycle_label(lifecycle: &RuntimeLifecycle) -> (r: &'static str)
    ensures
        r@ == spec_lifecycle_label(*lifecycle),
{
    match lifecycle {
        RuntimeLifecycle::Starting => "starting",
        RuntimeLifecycle::Ready => "ready",
        RuntimeLifecycle::Degraded => "degraded",
        RuntimeLifecycle::Stopping => "stopping",
        RuntimeLifecycle::Stopped => "stopped",
    }
}

/// The runtime serves requests while ready or degraded; otherwise
/// `RuntimeNotReady` ("runtime is {stage}"), with the stage in the details.
pub fn ensure_runtime_active(lifecycle: RuntimeLifecycle) -> (r: Result<(), RuntimeError>)
    ensures
        (lifecycle == RuntimeLifecycle::Ready || lifecycle == RuntimeLifecycle::Degraded) ==> r is Ok,
        !(lifecycle == RuntimeLifecycle::Ready || lifecycle == RuntimeLifecycle::Degraded) ==> (r matches Err(e)
            && e.0.code == RuntimeErrorCode::RuntimeNotReady && e.0.terminality
            == Terminality::Permanent && e.0.message@ == "runtime is "@ + spec_lifecycle_label(
            lifecycle,
        ) && e.0.details@ == "{\"lifecycle\":\""@ + spec_lifecycle_label(lifecycle) + "\"}"@),
{
    match lifecycle {
        RuntimeLifecycle::Ready | RuntimeLifecycle::Degraded => Ok(()),
        _ => {
            let label = runtime_lifecycle_label(&lifecycle);
            let message = concat("runtime is ", label);
            let head = concat("{\"lifecycle\":\"", label);
            let details = concat(head.as_str(), "\"}");
            Err(
                RuntimeError(
                    RuntimeAdapterError {
                        code: RuntimeErrorCode::RuntimeNotReady,
                        message,
                        terminality: Terminality::Permanent,
                        details,
                    },
                ),
            )
        },
    }
}

pub const OUT_OF_SCOPE_MUTATION_MESSAGE: &'static str =
    "mutation source is outside the runtime link account scope";

/// A scoped link may only mutate the accounts of its scope; otherwise
/// `Unauthorized`.
pub fn ensure_account_in_scope(account_id: &str, account_scope: Option<&Vec<String>>) -> (r: Result<
    (),
    RuntimeError,
>)
    ensures
        match account_scope {
            None => r is Ok,
            Some(scope) => if exists|i: int|
                0 <= i < scope@.len() && (#[trigger] scope@[i])@ == account_id@ {
                r is Ok
            } else {
                r matches Err(e) && e.0.code == RuntimeErrorCode::Unauthorized && e.0.terminality
                    == Terminality::Permanent && e.0.message@ == OUT_OF_SCOPE_MUTATION_MESSAGE@
            },
        },
{
    match account_scope {
        None => Ok(()),
        Some(scope) => {
            if contains_str(scope, account_id) {
                Ok(())
            } else {
                Err(
                    RuntimeError::new(
                        RuntimeErrorCode::Unauthorized,
                        owned(OUT_OF_SCOPE_MUTATION_MESSAGE),
                    ),
                )
            }
        },
    }
}

/// Which events an event subscription wants: each given field must match.
#[derive(Debug)]
pub struct EventFilter {
    pub account_id: Option<String>,
    pub topic: Option<String>,
    pub mailbox_id: Option<String>,
    pub after_seq: Option<u64>,
}

pub open spec fn spec_event_matches_filter(event: DomainEvent, filter: EventFilter) -> bool {
    &&& (filter.account_id matches Some(a) ==> event.account_id@ == a@)
    &&& (filter.after_seq matches Some(s) ==> event.seq > s)
    &&& (filter.topic matches Some(t) ==> event.topic@ == t@)
    &&& (filter.mailbox_id matches Some(m) ==> (event.mailbox_id matches Some(em) && em@ == m@))
}

/// An event passes a filter exactly when it meets each criterion the filter
/// sets: the filter's account, a sequence number past `after_seq`, the
/// filter's topic, and the filter's mailbox (an event without a mailbox
/// fails a mailbox criterion); a criterion left unset passes every event.
pub proof fn law_filter_criteria(event: DomainEvent, filter: EventFilter)
    ensures
        spec_event_matches_filter(event, filter) <==> {
            &&& filter.account_id is None || event.account_id@ == filter.account_id->0@
            &&& filter.after_seq is None || event.seq > filter.after_seq->0
            &&& filter.topic is None || event.topic@ == filter.topic->0@
            &&& filter.mailbox_id is None || (event.mailbox_id is Some && event.mailbox_id->0@
                == filter.mailbox_id->0@)
        },
{
}

/// Whether `event` passes `filter`: its account, topic and mailbox as given,
/// and a sequence number past `after_seq`.
pub fn event_matches_filter(event: &DomainEvent, filter: &EventFilter) -> (r: bool)
    ensures
        r == spec_event_matches_filter(*event, *filter),
{
    if let Some(account_id) = &filter.account_id {
        if !str_eq(event.account_id.as_str(), account_id.as_str()) {
            return false;
        }
    }
    if let Some(after_seq) = filter.after_seq {
        if event.seq <= after_seq {
            return false;
        }
    }
    if let Some(topic) = &filter.topic {
        if !str_eq(event.topic.as_str(), topic.as_str()) {
            return false;
        }
    }
    if let Some(mailbox_id) = &filter.mailbox_id {
        match &event.mailbox_id {
            Some(m) => {
                if !str_eq(m.as_str(), mailbox_id.as_str()) {
                    return false;
                }
            },
            None => {
                return false;
            },
        }
    }
    true
}

} // verus!
