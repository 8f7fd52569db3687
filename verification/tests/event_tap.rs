use posthaste::domain::DomainEvent;
use posthaste::event_tap::{live_step, prelude_end, replay, tap_error, PreludeEnd, TapAttach, TapStep};
use posthaste::runtime_handle::EventFilter;

fn event(seq: u64, account: &str) -> DomainEvent {
    DomainEvent {
        seq,
        account_id: account.to_string(),
        topic: "message.updated".to_string(),
        occurred_at: String::new(),
        mailbox_id: None,
        message_id: None,
        payload: "{}".to_string(),
    }
}

fn only(account: &str) -> EventFilter {
    EventFilter { account_id: Some(account.to_string()), topic: None, mailbox_id: None, after_seq: None }
}

#[test]
fn the_live_feed_delivers_past_the_cursor() {
    let all = only("a");
    assert_eq!(live_step(Some(4), &event(5, "a"), &all), TapStep { deliver: true, cursor: Some(5) });
    // Covered by the prelude: neither delivered nor moving the cursor.
    assert_eq!(live_step(Some(5), &event(5, "a"), &all), TapStep { deliver: false, cursor: Some(5) });
    // Filtered out: not delivered, but the cursor moves past it.
    assert_eq!(live_step(Some(5), &event(6, "b"), &all), TapStep { deliver: false, cursor: Some(6) });
    assert_eq!(live_step(None, &event(1, "a"), &all), TapStep { deliver: true, cursor: Some(1) });
}

#[test]
fn a_replay_re_delivers_what_the_overflow_dropped() {
    let events = vec![event(3, "a"), event(4, "a"), event(5, "b"), event(6, "a"), event(6, "a")];
    let (out, cursor) = replay(Some(3), &events, &only("a"));
    let seqs: Vec<u64> = out.iter().map(|e| e.seq).collect();
    assert_eq!(seqs, vec![4, 6]);
    assert_eq!(cursor, Some(6));
}

#[test]
fn an_empty_replay_keeps_the_cursor() {
    let (out, cursor) = replay(Some(9), &vec![event(2, "a")], &only("a"));
    assert!(out.is_empty());
    assert_eq!(cursor, Some(9));
}

#[test]
fn a_fresh_attach_tails_past_the_head() {
    assert_eq!(prelude_end(TapAttach::Fresh { head: 40 }, None), PreludeEnd { gap: None, replayed_through: Some(40) });
}

#[test]
fn a_replay_tails_past_its_last_fact() {
    assert_eq!(prelude_end(TapAttach::Replay { last: Some(12) }, Some(9)), PreludeEnd { gap: None, replayed_through: Some(12) });
    assert_eq!(prelude_end(TapAttach::Replay { last: None }, Some(9)), PreludeEnd { gap: None, replayed_through: Some(9) });
}

#[test]
fn a_gap_is_signalled_and_the_retained_tail_still_served() {
    assert_eq!(
        prelude_end(TapAttach::Gap { highest_seq: 50, retained_last: Some(48) }, Some(2)),
        PreludeEnd { gap: Some(50), replayed_through: Some(48) }
    );
    assert_eq!(
        prelude_end(TapAttach::Gap { highest_seq: 50, retained_last: None }, Some(2)),
        PreludeEnd { gap: Some(50), replayed_through: Some(50) }
    );
}

#[test]
fn tap_failures_are_internal_errors() {
    let e = tap_error("backing store offline");
    assert_eq!(e.0.message, "event tap: backing store offline");
}
