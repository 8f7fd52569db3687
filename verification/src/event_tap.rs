//! The event tap's cursor: where a subscriber's live tail starts after its
//! durable prelude, and which events of the live feed, and of a durable
//! replay after the feed overflowed, reach it. The cursor is the highest
//! sequence number the subscriber has been advanced past.
use vstd::prelude::*;

use crate::domain::DomainEvent;
use crate::errors::{RuntimeError, RuntimeErrorCode, Terminality};
use crate::ledger::concat;
use crate::runtime_handle::{event_matches_filter, spec_event_matches_filter, EventFilter};

verus! {

/// Whether an event with sequence number `seq` lies past `cursor`.
pub open spec fn spec_fresh(cursor: Option<u64>, seq: u64) -> bool {
    match cursor {
        None => true,
        Some(c) => seq > c,
    }
}

fn fresh(cursor: Option<u64>, seq: u64) -> (r: bool)
    ensures
        r == spec_fresh(cursor, seq),
{
    match cursor {
        None => true,
        Some(c) => seq > c,
    }
}

/// What the tap does with one event of the live feed: deliver it or not,
/// and where its cursor then stands.
#[derive(Clone, Copy, Debug, PartialEq, Eq, Structural)]
pub struct TapStep {
    pub deliver: bool,
    pub cursor: Option<u64>,
}

/// The live rule: an event past the cursor that passes the filter is
/// delivered; any event past the cursor advances it (one filtered out too,
/// so a later replay does not scan it again).
pub open spec fn spec_live_step(cursor: Option<u64>, event: DomainEvent, filter: EventFilter) -> TapStep {
    let f = spec_fresh(cursor, event.seq);
    TapStep {
        deliver: f && spec_event_matches_filter(event, filter),
        cursor: if f {
            Some(event.seq)
        } else {
            cursor
        },
    }
}

/// Apply the live rule to one event.
pub fn live_step(cursor: Option<u64>, event: &DomainEvent, filter: &EventFilter) -> (r: TapStep)
    ensures
        r == spec_live_step(cursor, *event, *filter),
{
    let f = fresh(cursor, event.seq);
    TapStep {
        deliver: f && event_matches_filter(event, filter),
        cursor: if f {
            Some(event.seq)
        } else {
            cursor
        },
    }
}

/// The events a run of the live feed delivers from `cursor`, and the cursor
/// after it.
pub open spec fn spec_live_run(cursor: Option<u64>, events: Seq<DomainEvent>, filter: EventFilter) -> (
    Seq<DomainEvent>,
    Option<u64>,
)
    decreases events.len(),
{
    if events.len() == 0 {
        (Seq::empty(), cursor)
    } else {
        let (out, c) = spec_live_run(cursor, events.drop_last(), filter);
        let step = spec_live_step(c, events.last(), filter);
        (
            if step.deliver {
                out.push(events.last())
            } else {
                out
            },
            step.cursor,
        )
    }
}

/// The replay rule: after an overflow the durable log's events past the
/// cursor are re-read; those past the cursor that pass the filter are
/// delivered, each advancing the cursor.
pub open spec fn spec_replay(cursor: Option<u64>, events: Seq<DomainEvent>, filter: EventFilter) -> (
    Seq<DomainEvent>,
    Option<u64>,
)
    decreases events.len(),
{
    if events.len() == 0 {
        (Seq::empty(), cursor)
    } else {
        let (out, c) = spec_replay(cursor, events.drop_last(), filter);
        let e = events.last();
        if spec_fresh(c, e.seq) && spec_event_matches_filter(e, filter) {
            (out.push(e), Some(e.seq))
        } else {
            (out, c)
        }
    }
}

/// The events a replay of `events` delivers from `cursor`, in order, and
/// the cursor after it.
pub fn replay(cursor: Option<u64>, events: &Vec<DomainEvent>, filter: &EventFilter) -> (r: (
    Vec<DomainEvent>,
    Option<u64>,
))
    ensures
        (r.0@, r.1) == spec_replay(cursor, events@, *filter),
{
    let mut out: Vec<DomainEvent> = Vec::new();
    let mut c = cursor;
    let mut i: usize = 0;
    while i < events.len()
        invariant
            i <= events@.len(),
            (out@, c) == spec_replay(cursor, events@.take(i as int), *filter),
        decreases events@.len() - i,
    {
        proof {
            let p = events@.take(i + 1);
            assert(p.drop_last() =~= events@.take(i as int));
            assert(p.last() == events@[i as int]);
        }
        let e = &events[i];
        if fresh(c, e.seq) && event_matches_filter(e, filter) {
            c = Some(e.seq);
            out.push(e.duplicate());
        }
        i = i + 1;
    }
    assert(events@.take(events@.len() as int) =~= events@);
    (out, c)
}

/// Every event of `out` lies past `cursor`, in strictly increasing order of
/// sequence number, and `last` is the sequence number of the last of them
/// (`cursor` when there is none).
pub open spec fn spec_delivered_in_order(cursor: Option<u64>, out: Seq<DomainEvent>, last: Option<u64>) -> bool {
    &&& forall|i: int| 0 <= i < out.len() ==> spec_fresh(cursor, #[trigger] out[i].seq)
    &&& forall|i: int, j: int| 0 <= i < j < out.len() ==> (#[trigger] out[i]).seq < (#[trigger] out[j]).seq
    &&& forall|i: int| 0 <= i < out.len() ==> spec_fresh(last, out[i].seq) == false
}

/// A replay never delivers an event at or before the cursor, and what it
/// delivers comes in strictly increasing sequence order: no fact reaches a
/// subscriber twice, and none out of order.
pub proof fn law_replay_delivers_each_fact_once_in_order(
    cursor: Option<u64>,
    events: Seq<DomainEvent>,
    filter: EventFilter,
)
    ensures
        spec_delivered_in_order(cursor, spec_replay(cursor, events, filter).0, spec_replay(cursor, events, filter).1),
        forall|i: int| 0 <= i < spec_replay(cursor, events, filter).0.len() ==> spec_event_matches_filter(#[trigger] spec_replay(cursor, events, filter).0[i], filter),
        spec_replay(cursor, events, filter).1 == cursor || (spec_replay(cursor, events, filter).1 matches Some(k) && spec_fresh(cursor, k)),
    decreases events.len(),
{
    if events.len() > 0 {
        law_replay_delivers_each_fact_once_in_order(cursor, events.drop_last(), filter);
        let (out, c) = spec_replay(cursor, events.drop_last(), filter);
        let e = events.last();
        if spec_fresh(c, e.seq) && spec_event_matches_filter(e, filter) {
            let o2 = out.push(e);
            assert forall|i: int| 0 <= i < o2.len() implies spec_fresh(cursor, #[trigger] o2[i].seq) by {
                if i < out.len() {
                    assert(o2[i] == out[i]);
                }
            }
            assert forall|i: int, j: int| 0 <= i < j < o2.len() implies (#[trigger] o2[i]).seq < (
            #[trigger] o2[j]).seq by {
                if j < out.len() {
                    assert(o2[i] == out[i] && o2[j] == out[j]);
                } else {
                    assert(o2[i] == out[i]);
                    assert(!spec_fresh(c, out[i].seq));
                }
            }
            assert forall|i: int| 0 <= i < o2.len() implies spec_fresh(Some(e.seq), o2[i].seq) == false by {
                if i < out.len() {
                    assert(o2[i] == out[i]);
                    assert(!spec_fresh(c, out[i].seq));
                }
            }
            assert forall|i: int| 0 <= i < o2.len() implies spec_event_matches_filter(#[trigger] o2[i], filter) by {
                if i < out.len() {
                    assert(o2[i] == out[i]);
                }
            }
        }
    }
}

/// The live feed, too, delivers each fact at most once and in strictly
/// increasing sequence order, never one at or before the cursor it started
/// from.
pub proof fn law_live_run_delivers_each_fact_once_in_order(
    cursor: Option<u64>,
    events: Seq<DomainEvent>,
    filter: EventFilter,
)
    ensures
        forall|i: int| 0 <= i < spec_live_run(cursor, events, filter).0.len() ==> spec_fresh(cursor, #[trigger] spec_live_run(cursor, events, filter).0[i].seq),
        forall|i: int, j: int| 0 <= i < j < spec_live_run(cursor, events, filter).0.len() ==> (#[trigger] spec_live_run(cursor, events, filter).0[i]).seq < (#[trigger] spec_live_run(cursor, events, filter).0[j]).seq,
        forall|i: int| 0 <= i < spec_live_run(cursor, events, filter).0.len() ==> !spec_fresh(spec_live_run(cursor, events, filter).1, #[trigger] spec_live_run(cursor, events, filter).0[i].seq),
        spec_live_run(cursor, events, filter).1 == cursor || (spec_live_run(cursor, events, filter).1 matches Some(k) && spec_fresh(cursor, k)),
    decreases events.len(),
{
    if events.len() > 0 {
        law_live_run_delivers_each_fact_once_in_order(cursor, events.drop_last(), filter);
        let (out, c) = spec_live_run(cursor, events.drop_last(), filter);
        let e = events.last();
        let step = spec_live_step(c, e, filter);
        let o2 = if step.deliver {
            out.push(e)
        } else {
            out
        };
        assert forall|i: int| 0 <= i < o2.len() implies spec_fresh(cursor, #[trigger] o2[i].seq) by {
            if i < out.len() {
                assert(o2[i] == out[i]);
            }
        }
        assert forall|i: int, j: int| 0 <= i < j < o2.len() implies (#[trigger] o2[i]).seq < (
        #[trigger] o2[j]).seq by {
            if j < out.len() {
                assert(o2[i] == out[i] && o2[j] == out[j]);
            } else {
                assert(o2[i] == out[i]);
                assert(!spec_fresh(c, out[i].seq));
            }
        }
        assert forall|i: int| 0 <= i < o2.len() implies !spec_fresh(step.cursor, #[trigger] o2[i].seq) by {
            if i < out.len() {
                assert(o2[i] == out[i]);
                assert(!spec_fresh(c, out[i].seq));
            }
        }
    }
}

/// Event `i` of `events` lies past `cursor` and past every event before it.
pub open spec fn spec_ahead_of_all_before(cursor: Option<u64>, events: Seq<DomainEvent>, i: int) -> bool {
    &&& match cursor {
        None => true,
        Some(c) => events[i].seq > c,
    }
    &&& forall|j: int| 0 <= j < i ==> #[trigger] events[j].seq < events[i].seq
}

proof fn lemma_replay_cursor(cursor: Option<u64>, events: Seq<DomainEvent>, filter: EventFilter)
    ensures
        spec_replay(cursor, events, filter).1 == cursor || exists|j: int|
            0 <= j < events.len() && spec_replay(cursor, events, filter).1 == Some(
                #[trigger] events[j].seq,
            ),
    decreases events.len(),
{
    if events.len() > 0 {
        let pre = events.drop_last();
        lemma_replay_cursor(cursor, pre, filter);
        let c = spec_replay(cursor, pre, filter).1;
        if c != cursor {
            let j = choose|j: int| 0 <= j < pre.len() && c == Some(#[trigger] pre[j].seq);
            assert(events[j] == pre[j]);
        }
        let last = events.len() - 1;
        assert(events[last] == events.last());
    }
}

proof fn lemma_live_run_cursor(cursor: Option<u64>, events: Seq<DomainEvent>, filter: EventFilter)
    ensures
        spec_live_run(cursor, events, filter).1 == cursor || exists|j: int|
            0 <= j < events.len() && spec_live_run(cursor, events, filter).1 == Some(
                #[trigger] events[j].seq,
            ),
    decreases events.len(),
{
    if events.len() > 0 {
        let pre = events.drop_last();
        lemma_live_run_cursor(cursor, pre, filter);
        let c = spec_live_run(cursor, pre, filter).1;
        if c != cursor {
            let j = choose|j: int| 0 <= j < pre.len() && c == Some(#[trigger] pre[j].seq);
            assert(events[j] == pre[j]);
        }
        let last = events.len() - 1;
        assert(events[last] == events.last());
    }
}

proof fn lemma_replay_sound(cursor: Option<u64>, events: Seq<DomainEvent>, filter: EventFilter)
    ensures
        forall|x: DomainEvent| #[trigger] spec_replay(cursor, events, filter).0.contains(x) ==> events.contains(x),
    decreases events.len(),
{
    if events.len() > 0 {
        let pre = events.drop_last();
        lemma_replay_sound(cursor, pre, filter);
        let out = spec_replay(cursor, pre, filter).0;
        let e = events.last();
        let full = spec_replay(cursor, events, filter).0;
        assert(full == out || full == out.push(e));
        assert forall|x: DomainEvent| #[trigger] full.contains(x) implies events.contains(x) by {
            let k = choose|k: int| 0 <= k < full.len() && full[k] == x;
            if k < out.len() {
                assert(full[k] == out[k]);
                assert(out.contains(x));
                let m = choose|m: int| 0 <= m < pre.len() && pre[m] == x;
                assert(events[m] == pre[m]);
            } else {
                assert(x == e);
                assert(events[events.len() - 1] == e);
            }
        }
    }
}

proof fn lemma_replay_last_delivered(cursor: Option<u64>, events: Seq<DomainEvent>, filter: EventFilter)
    requires
        events.len() > 0,
        spec_ahead_of_all_before(cursor, events, events.len() - 1),
        spec_event_matches_filter(events.last(), filter),
    ensures
        spec_replay(cursor, events, filter).0.contains(events.last()),
{
    let pre = events.drop_last();
    lemma_replay_cursor(cursor, pre, filter);
    let (out, c) = spec_replay(cursor, pre, filter);
    let e = events.last();
    let last = events.len() - 1;
    assert(events[last] == e);
    if c != cursor {
        let j = choose|j: int| 0 <= j < pre.len() && c == Some(#[trigger] pre[j].seq);
        assert(pre[j] == events[j]);
        assert(events[j].seq < events[last].seq);
    }
    assert(spec_fresh(c, e.seq));
    let full = spec_replay(cursor, events, filter).0;
    assert(full == out.push(e));
    assert(full[out.len() as int] == e);
}

proof fn lemma_replay_complete(cursor: Option<u64>, events: Seq<DomainEvent>, filter: EventFilter, i: int)
    requires
        0 <= i < events.len(),
        spec_ahead_of_all_before(cursor, events, i),
        spec_event_matches_filter(events[i], filter),
    ensures
        spec_replay(cursor, events, filter).0.contains(events[i]),
    decreases events.len(),
{
    let last = events.len() - 1;
    if i == last {
        assert(events[last] == events.last());
        lemma_replay_last_delivered(cursor, events, filter);
    } else {
        let pre = events.drop_last();
        assert(events[i] == pre[i]);
        assert forall|j: int| 0 <= j < i implies #[trigger] pre[j].seq < pre[i].seq by {
            assert(pre[j] == events[j]);
        }
        lemma_replay_complete(cursor, pre, filter, i);
        let out = spec_replay(cursor, pre, filter).0;
        let full = spec_replay(cursor, events, filter).0;
        let k = choose|k: int| 0 <= k < out.len() && out[k] == pre[i];
        assert(full == out || full == out.push(events.last()));
        assert(full[k] == out[k]);
    }
}

proof fn lemma_live_run_sound(cursor: Option<u64>, events: Seq<DomainEvent>, filter: EventFilter)
    ensures
        forall|x: DomainEvent| #[trigger] spec_live_run(cursor, events, filter).0.contains(x) ==> events.contains(x),
    decreases events.len(),
{
    if events.len() > 0 {
        let pre = events.drop_last();
        lemma_live_run_sound(cursor, pre, filter);
        let out = spec_live_run(cursor, pre, filter).0;
        let e = events.last();
        let full = spec_live_run(cursor, events, filter).0;
        assert(full == out || full == out.push(e));
        assert forall|x: DomainEvent| #[trigger] full.contains(x) implies events.contains(x) by {
            let k = choose|k: int| 0 <= k < full.len() && full[k] == x;
            if k < out.len() {
                assert(full[k] == out[k]);
                assert(out.contains(x));
                let m = choose|m: int| 0 <= m < pre.len() && pre[m] == x;
                assert(events[m] == pre[m]);
            } else {
                assert(x == e);
                assert(events[events.len() - 1] == e);
            }
        }
    }
}

proof fn lemma_live_run_last_delivered(cursor: Option<u64>, events: Seq<DomainEvent>, filter: EventFilter)
    requires
        events.len() > 0,
        spec_ahead_of_all_before(cursor, events, events.len() - 1),
        spec_event_matches_filter(events.last(), filter),
    ensures
        spec_live_run(cursor, events, filter).0.contains(events.last()),
{
    let pre = events.drop_last();
    lemma_live_run_cursor(cursor, pre, filter);
    let (out, c) = spec_live_run(cursor, pre, filter);
    let e = events.last();
    let last = events.len() - 1;
    assert(events[last] == e);
    if c != cursor {
        let j = choose|j: int| 0 <= j < pre.len() && c == Some(#[trigger] pre[j].seq);
        assert(pre[j] == events[j]);
        assert(events[j].seq < events[last].seq);
    }
    assert(spec_fresh(c, e.seq));
    let full = spec_live_run(cursor, events, filter).0;
    assert(full == out.push(e));
    assert(full[out.len() as int] == e);
}

proof fn lemma_live_run_complete(cursor: Option<u64>, events: Seq<DomainEvent>, filter: EventFilter, i: int)
    requires
        0 <= i < events.len(),
        spec_ahead_of_all_before(cursor, events, i),
        spec_event_matches_filter(events[i], filter),
    ensures
        spec_live_run(cursor, events, filter).0.contains(events[i]),
    decreases events.len(),
{
    let last = events.len() - 1;
    if i == last {
        assert(events[last] == events.last());
        lemma_live_run_last_delivered(cursor, events, filter);
    } else {
        let pre = events.drop_last();
        assert(events[i] == pre[i]);
        assert forall|j: int| 0 <= j < i implies #[trigger] pre[j].seq < pre[i].seq by {
            assert(pre[j] == events[j]);
        }
        lemma_live_run_complete(cursor, pre, filter, i);
        let out = spec_live_run(cursor, pre, filter).0;
        let full = spec_live_run(cursor, events, filter).0;
        let k = choose|k: int| 0 <= k < out.len() && out[k] == pre[i];
        assert(full == out || full == out.push(events.last()));
        assert(full[k] == out[k]);
    }
}

/// Replay completeness (a fact stream never drops a fact): every replayed
/// event that lies past the cursor and past every event replayed before it,
/// and passes the filter, is delivered; and only replayed events are.
pub proof fn law_replay_delivers_every_fresh_fact(
    cursor: Option<u64>,
    events: Seq<DomainEvent>,
    filter: EventFilter,
)
    ensures
        forall|i: int|
            0 <= i < events.len() && spec_ahead_of_all_before(cursor, events, i)
                && spec_event_matches_filter(events[i], filter) ==> spec_replay(
                cursor,
                events,
                filter,
            ).0.contains(#[trigger] events[i]),
        forall|x: DomainEvent| #[trigger] spec_replay(cursor, events, filter).0.contains(x) ==> events.contains(x),
{
    assert forall|i: int|
        0 <= i < events.len() && spec_ahead_of_all_before(cursor, events, i)
            && spec_event_matches_filter(events[i], filter) implies spec_replay(
            cursor,
            events,
            filter,
        ).0.contains(#[trigger] events[i]) by {
        lemma_replay_complete(cursor, events, filter, i);
    }
    lemma_replay_sound(cursor, events, filter);
}

/// Live completeness: every event of the live feed that lies past the
/// cursor and past every event before it, and passes the filter, is
/// delivered; and only events of the feed are.
pub proof fn law_live_run_delivers_every_fresh_fact(
    cursor: Option<u64>,
    events: Seq<DomainEvent>,
    filter: EventFilter,
)
    ensures
        forall|i: int|
            0 <= i < events.len() && spec_ahead_of_all_before(cursor, events, i)
                && spec_event_matches_filter(events[i], filter) ==> spec_live_run(
                cursor,
                events,
                filter,
            ).0.contains(#[trigger] events[i]),
        forall|x: DomainEvent| #[trigger] spec_live_run(cursor, events, filter).0.contains(x) ==> events.contains(x),
{
    assert forall|i: int|
        0 <= i < events.len() && spec_ahead_of_all_before(cursor, events, i)
            && spec_event_matches_filter(events[i], filter) implies spec_live_run(
            cursor,
            events,
            filter,
        ).0.contains(#[trigger] events[i]) by {
        lemma_live_run_complete(cursor, events, filter, i);
    }
    lemma_live_run_sound(cursor, events, filter);
}

/// How the tap attached a subscriber, with what the attach read.
#[derive(Clone, Copy, Debug, PartialEq, Eq, Structural)]
pub enum TapAttach {
    /// No cursor: nothing is replayed; the log's head was `head` at attach.
    Fresh { head: u64 },
    /// The facts after the cursor were replayed; `last` is the sequence
    /// number of the last of them.
    Replay { last: Option<u64> },
    /// The cursor fell before the oldest retained fact: a gap up to
    /// `highest_seq`, then the retained facts after the cursor, the last of
    /// them numbered `retained_last`.
    Gap { highest_seq: u64, retained_last: Option<u64> },
}

/// Where a subscriber's live tail starts, and the gap it is told of.
#[derive(Clone, Copy, Debug, PartialEq, Eq, Structural)]
pub struct PreludeEnd {
    pub gap: Option<u64>,
    pub replayed_through: Option<u64>,
}

/// Where the live tail of a subscriber resuming after `after_seq` starts
/// once the tap attached it as `attach`: past the head at a fresh attach;
/// past the last replayed fact (the cursor itself when none was); past the
/// last retained fact after a gap (the gap's head when none was), and only
/// a gap is signalled.
pub fn prelude_end(attach: TapAttach, after_seq: Option<u64>) -> (r: PreludeEnd)
    ensures
        r == match attach {
            TapAttach::Fresh { head } => PreludeEnd { gap: None, replayed_through: Some(head) },
            TapAttach::Replay { last } => PreludeEnd {
                gap: None,
                replayed_through: match last {
                    Some(l) => Some(l),
                    None => after_seq,
                },
            },
            TapAttach::Gap { highest_seq, retained_last } => PreludeEnd {
                gap: Some(highest_seq),
                replayed_through: match retained_last {
                    Some(l) => Some(l),
                    None => Some(highest_seq),
                },
            },
        },
{
    match attach {
        TapAttach::Fresh { head } => PreludeEnd { gap: None, replayed_through: Some(head) },
        TapAttach::Replay { last } => PreludeEnd {
            gap: None,
            replayed_through: match last {
                Some(l) => Some(l),
                None => after_seq,
            },
        },
        TapAttach::Gap { highest_seq, retained_last } => PreludeEnd {
            gap: Some(highest_seq),
            replayed_through: match retained_last {
                Some(l) => Some(l),
                None => Some(highest_seq),
            },
        },
    }
}

pub const TAP_ERROR_PREFIX: &'static str = "event tap: ";

/// A failure of the tap's fact log, at the API boundary: an internal error
/// carrying its message.
pub fn tap_error(message: &str) -> (r: RuntimeError)
    ensures
        r.0.code == RuntimeErrorCode::Internal,
        r.0.terminality == Terminality::Permanent,
        r.0.message@ == TAP_ERROR_PREFIX@ + message@,
{
    RuntimeError::new(RuntimeErrorCode::Internal, concat(TAP_ERROR_PREFIX, message))
}

} // verus!
