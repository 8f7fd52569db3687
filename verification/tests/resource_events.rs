use std::cell::RefCell;

use posthaste::domain::{DomainEvent, StoreError, EVENT_TOPIC_ACCOUNT_UPDATED};
use posthaste::events::{
    account_event_payload, append_and_publish_account_event, EventPublisher, EventStore,
    ResourceChange, ResourceOperation,
};

#[derive(Default)]
struct MemoryEventStore {
    events: RefCell<Vec<DomainEvent>>,
    refuse: bool,
}

impl EventStore for MemoryEventStore {
    fn append_event(
        &self,
        account_id: &str,
        topic: &str,
        mailbox_id: Option<&str>,
        message_id: Option<&str>,
        payload: String,
    ) -> Result<DomainEvent, StoreError> {
        if self.refuse {
            return Err(StoreError { message: "store is read-only".to_string() });
        }
        let mut events = self.events.borrow_mut();
        let event = DomainEvent {
            seq: events.len() as u64 + 1,
            account_id: account_id.to_string(),
            topic: topic.to_string(),
            occurred_at: "2026-01-01T00:00:00Z".to_string(),
            mailbox_id: mailbox_id.map(|m| m.to_string()),
            message_id: message_id.map(|m| m.to_string()),
            payload: payload.clone(),
        };
        events.push(event.duplicate());
        Ok(event)
    }
}

#[derive(Default)]
struct RecordingPublisher {
    published: RefCell<Vec<u64>>,
}

impl EventPublisher for RecordingPublisher {
    fn publish_events(&self, events: &[DomainEvent]) {
        for event in events {
            self.published.borrow_mut().push(event.seq);
        }
    }
}

fn list_events(store: &MemoryEventStore, account_id: &str, topic: &str) -> Vec<DomainEvent> {
    store
        .events
        .borrow()
        .iter()
        .filter(|e| e.account_id == account_id && e.topic == topic)
        .map(|e| e.duplicate())
        .collect()
}

#[test]
fn account_events_include_declarative_resource_payload() {
    let store = MemoryEventStore::default();
    let publisher = RecordingPublisher::default();
    let account_id = "primary";
    append_and_publish_account_event(&store, &publisher, account_id, EVENT_TOPIC_ACCOUNT_UPDATED)
        .expect("account event should append");

    let events = list_events(&store, account_id, EVENT_TOPIC_ACCOUNT_UPDATED);
    assert_eq!(events.len(), 1);
    let payload: serde_json::Value =
        serde_json::from_str(&events[0].payload).expect("payload is JSON");
    assert_eq!(payload["accountId"], account_id);
    assert_eq!(payload["resources"][0]["kind"], "account");
    assert_eq!(payload["resources"][0]["operation"], "updated");
    assert_eq!(payload["resources"][0]["id"], account_id);
    assert_eq!(*publisher.published.borrow(), vec![1]);
}

#[test]
fn refused_append_publishes_nothing() {
    let store = MemoryEventStore { refuse: true, ..Default::default() };
    let publisher = RecordingPublisher::default();
    let error = append_and_publish_account_event(&store, &publisher, "primary", "account.created")
        .expect_err("a refused append is an error");
    assert_eq!(error.message, "store is read-only");
    assert!(publisher.published.borrow().is_empty());
}

#[test]
fn resource_change_serializes_wire_compatible_json() {
    let change = ResourceChange::account(ResourceOperation::Updated, "primary");
    let value: serde_json::Value = serde_json::from_str(&change.to_json()).expect("JSON");
    let mut expected = serde_json::Map::new();
    expected.insert("kind".to_string(), serde_json::Value::from("account"));
    expected.insert("operation".to_string(), serde_json::Value::from("updated"));
    expected.insert("id".to_string(), serde_json::Value::from("primary"));
    expected.insert("accountId".to_string(), serde_json::Value::from("primary"));
    assert_eq!(value, serde_json::Value::Object(expected));
}

#[test]
fn account_event_payload_escapes_the_account_id() {
    let payload = account_event_payload("we\"ird", "account.deleted");
    let value: serde_json::Value = serde_json::from_str(&payload).expect("JSON");
    assert_eq!(value["accountId"], "we\"ird");
    assert_eq!(value["resources"][0]["operation"], "deleted");
}

#[test]
fn smart_mailbox_ids_are_a_slug_and_a_v4_uuid() {
    let id = posthaste::events::generate_smart_mailbox_id("  My Inbox ");
    assert!(id.starts_with("sm-my-inbox-"), "{id}");
    let uuid: Vec<char> = id["sm-my-inbox-".len()..].chars().collect();
    assert_eq!(uuid.len(), 36);
    assert_eq!(uuid[14], '4');
    assert!(matches!(uuid[19], '8' | '9' | 'a' | 'b'));
    for (i, c) in uuid.iter().enumerate() {
        if [8, 13, 18, 23].contains(&i) {
            assert_eq!(*c, '-');
        } else {
            assert!(c.is_ascii_hexdigit() && !c.is_ascii_uppercase());
        }
    }
    assert!(posthaste::events::generate_smart_mailbox_id("!!!").starts_with("sm-mailbox-"));
}

#[test]
fn account_id_seeds_slug_the_first_pattern() {
    let patterns = vec!["  ".to_string(), " *@Example.COM ".to_string()];
    assert_eq!(posthaste::events::generate_account_id_seed("Work", &patterns), "example-com");
    assert_eq!(posthaste::events::generate_account_id_seed("  ", &Vec::new()), "account");
    let seed = posthaste::events::generate_account_id_seed("--Hello, World!!", &Vec::new());
    assert_eq!(seed, "hello--world");
    assert!(seed.chars().all(|c| c.is_ascii_lowercase() || c.is_ascii_digit() || c == '-'));
}
