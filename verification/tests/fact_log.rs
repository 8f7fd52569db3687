use posthaste::domain::{DomainEvent, EVENT_TOPIC_MESSAGE_UPDATED};
use posthaste::fact_log::{
    down_assertion_to_event, highest_seq, replay_filter, truncation_point, BaseAssertion,
    BaseUpdate, EventLogBounds,
};
use posthaste::runtime_handle::EventFilter;
use serde_json::Value;

fn enriched_event(seq: u64, payload: Value) -> DomainEvent {
    DomainEvent {
        seq,
        account_id: "acct".to_string(),
        topic: EVENT_TOPIC_MESSAGE_UPDATED.to_string(),
        occurred_at: "2026-06-24T00:00:00Z".to_string(),
        mailbox_id: Some("inbox".to_string()),
        message_id: Some("m1".to_string()),
        payload: payload.to_string(),
    }
}

fn projection() -> serde_json::Map<String, Value> {
    let mut p = serde_json::Map::new();
    p.insert("id".to_string(), Value::from("m1"));
    p.insert("sourceId".to_string(), Value::from("acct"));
    p.insert("isRead".to_string(), Value::from(false));
    p.insert("mailboxIds".to_string(), Value::from(vec!["inbox"]));
    p
}

fn mark_read_event(seq: u64) -> DomainEvent {
    let mut p = projection();
    p.insert("isRead".to_string(), Value::from(true));
    p.insert("keywords".to_string(), Value::from(vec!["$seen"]));
    let mut changes = serde_json::Map::new();
    changes.insert("keywords".to_string(), Value::from(true));
    let mut payload = serde_json::Map::new();
    payload.insert("messageId".to_string(), Value::from("m1"));
    payload.insert("changes".to_string(), Value::Object(changes));
    payload.insert("keywords".to_string(), Value::from(vec!["$seen"]));
    payload.insert("projection".to_string(), Value::Object(p));
    enriched_event(seq, Value::Object(payload))
}

fn move_event(seq: u64) -> DomainEvent {
    let mut p = projection();
    p.insert("mailboxIds".to_string(), Value::from(vec!["archive"]));
    let mut changes = serde_json::Map::new();
    changes.insert("mailboxes".to_string(), Value::from(true));
    changes.insert("arrived".to_string(), Value::from(true));
    let mut payload = serde_json::Map::new();
    payload.insert("messageId".to_string(), Value::from("m1"));
    payload.insert("changes".to_string(), Value::Object(changes));
    payload.insert("mailboxIds".to_string(), Value::from(vec!["archive"]));
    payload.insert("arrivedMailboxIds".to_string(), Value::from(vec!["archive"]));
    payload.insert("projection".to_string(), Value::Object(p));
    enriched_event(seq, Value::Object(payload))
}

fn payload(event: &DomainEvent) -> Value {
    serde_json::from_str(&event.payload).expect("payload is JSON")
}

#[test]
fn a_mark_read_assertion_republishes_the_enriched_event_with_the_local_seq() {
    let assertion = BaseAssertion {
        account_id: "acct".to_string(),
        message_id: "m1".to_string(),
        update: BaseUpdate::Present,
        event: Some(mark_read_event(41)),
    };
    let event = down_assertion_to_event(&assertion, 7, String::new());
    assert_eq!(event.topic, EVENT_TOPIC_MESSAGE_UPDATED);
    assert_eq!(event.seq, 7, "restamped with the local live-stream seq");
    assert_eq!(event.account_id, "acct");
    assert_eq!(event.message_id.as_deref(), Some("m1"));
    let payload = payload(&event);
    assert_eq!(payload["projection"]["isRead"], true);
    assert_eq!(payload["changes"]["keywords"], true);
    assert!(payload.get("countDeltas").is_none());
}

#[test]
fn a_move_assertion_republishes_the_post_move_projection() {
    let assertion = BaseAssertion {
        account_id: "acct".to_string(),
        message_id: "m1".to_string(),
        update: BaseUpdate::Present,
        event: Some(move_event(42)),
    };
    let event = down_assertion_to_event(&assertion, 9, String::new());
    assert_eq!(event.seq, 9);
    let payload = payload(&event);
    assert_eq!(payload["changes"]["mailboxes"], true);
    assert_eq!(payload["projection"]["mailboxIds"], Value::from(vec!["archive"]));
    assert!(payload.get("countDeltas").is_none());
}

#[test]
fn an_assertion_without_a_carried_event_falls_back_to_the_bare_shape() {
    let assertion = BaseAssertion {
        account_id: "acct".to_string(),
        message_id: "m1".to_string(),
        update: BaseUpdate::Present,
        event: None,
    };
    let event = down_assertion_to_event(&assertion, 3, "2026-06-24T00:00:00Z".to_string());
    assert_eq!(event.topic, EVENT_TOPIC_MESSAGE_UPDATED);
    assert_eq!(event.seq, 3);
    assert_eq!(event.occurred_at, "2026-06-24T00:00:00Z");
    let p = payload(&event);
    assert_eq!(p["changes"]["keywords"], true);
    assert_eq!(p["changes"]["mailboxes"], true);
    assert_eq!(event.payload, "{\"changes\":{\"keywords\":true,\"mailboxes\":true},\"messageId\":\"m1\"}");

    let removed = BaseAssertion {
        account_id: "acct".to_string(),
        message_id: "m1".to_string(),
        update: BaseUpdate::Removed,
        event: None,
    };
    let event = down_assertion_to_event(&removed, 4, String::new());
    assert_eq!(payload(&event)["deleted"], true);
    assert_eq!(event.payload, "{\"deleted\":true,\"messageId\":\"m1\"}");
}

#[test]
fn a_replay_puts_the_cursor_in_the_subscriber_filter() {
    let own = EventFilter { account_id: Some("acct".to_string()), topic: None, mailbox_id: None, after_seq: Some(1) };
    let f = replay_filter(9, Some(own));
    assert_eq!(f.after_seq, Some(9));
    assert_eq!(f.account_id.as_deref(), Some("acct"));
    let whole = replay_filter(0, None);
    assert_eq!(whole.after_seq, Some(0));
    assert!(whole.account_id.is_none() && whole.topic.is_none() && whole.mailbox_id.is_none());
}

fn event(seq: u64) -> DomainEvent {
    enriched_event(seq, Value::Null)
}

#[test]
fn head_and_truncation_use_the_cheap_bounds_query() {
    let bounds = EventLogBounds { oldest: 3, newest: 17 };
    let scan = vec![event(1), event(2)];
    assert_eq!(highest_seq(Ok(Some(bounds)), &scan), 17);
    assert_eq!(truncation_point(Ok(Some(bounds)), &scan), 3);
    // Without the bounds query the scan answers.
    assert_eq!(highest_seq(Err(()), &scan), 2);
    assert_eq!(truncation_point(Err(()), &scan), 1);
}

#[test]
fn empty_bounds_report_zero() {
    assert_eq!(highest_seq(Ok(None), &Vec::new()), 0);
    assert_eq!(truncation_point(Ok(None), &Vec::new()), 0);
    assert_eq!(highest_seq(Err(()), &Vec::new()), 0);
    assert_eq!(truncation_point(Err(()), &Vec::new()), 0);
}
