use posthaste::domain::{DomainEvent, EVENT_TOPIC_MESSAGE_UPDATED, EVENT_TOPIC_REV_LOG_APPENDED};
use posthaste::errors::{RuntimeError, RuntimeErrorCode};
use posthaste::links::{ViewData, ViewFrame, ViewSnapshot};
use posthaste::view_registry::{
    data_same, next_revision, PumpStep, StoredView, ViewDescriptor, ViewRegistry,
    NO_WINDOW_EXTENSION_MESSAGE, VIEW_NOT_FOUND_MESSAGE,
};
use posthaste::views::{
    MailPresentation, MailQueryRequest, SortDirection, ViewKind,
    OUT_OF_SCOPE_MESSAGE,
};

fn snapshot(view_id: &str, revision: u64, data: &str) -> ViewSnapshot {
    ViewSnapshot {
        view_id: view_id.to_string(),
        family: "revLog".to_string(),
        revision,
        data: ViewData::Other(data.to_string()),
    }
}

fn rev_log_view(view_id: &str, account: &str, revision: u64) -> StoredView {
    StoredView {
        view_id: view_id.to_string(),
        descriptor: ViewDescriptor {
            family: "revLog".to_string(),
            payload: format!("{{\"accountId\":\"{account}\"}}"),
            client_self_maintained: false,
        },
        kind: ViewKind::RevLog { account_id: account.to_string() },
        snapshot: snapshot(view_id, revision, "{\"steps\":[]}"),
    }
}

fn mail_list_view(view_id: &str, self_maintained: bool) -> StoredView {
    StoredView {
        view_id: view_id.to_string(),
        descriptor: ViewDescriptor {
            family: "mailList".to_string(),
            payload: "{}".to_string(),
            client_self_maintained: self_maintained,
        },
        kind: ViewKind::MailList(MailQueryRequest {
            query: "in:acct/inbox".to_string(),
            presentation: MailPresentation::Messages {
                limit: Some(50),
                cursor: None,
                sort_field: "date".to_string(),
                sort_direction: SortDirection::Desc,
            },
            visibility: None,
        }),
        snapshot: snapshot(view_id, 1, "{}"),
    }
}

fn event(topic: &str, account: &str) -> DomainEvent {
    DomainEvent {
        seq: 1,
        account_id: account.to_string(),
        topic: topic.to_string(),
        occurred_at: String::new(),
        mailbox_id: None,
        message_id: Some("m1".to_string()),
        payload: "{}".to_string(),
    }
}

fn expect_error(r: Result<impl std::fmt::Debug, RuntimeError>, code: RuntimeErrorCode, message: &str) {
    let e = r.expect_err("an error");
    assert_eq!(e.0.code, code);
    assert_eq!(e.0.message, message);
}

#[test]
fn view_ids_count_up_from_one() {
    let mut views = ViewRegistry::new();
    assert_eq!(views.allocate_view_id(), "view-1");
    assert_eq!(views.allocate_view_id(), "view-2");
    assert_eq!(views.allocate_view_id(), "view-3");
}

#[test]
fn rev_log_view_rejects_an_out_of_scope_account() {
    let mut views = ViewRegistry::new();
    let scope = vec!["other-acct".to_string()];
    let kind = ViewKind::RevLog { account_id: "acct".to_string() };
    expect_error(views.admit_open(&kind, Some(&scope)), RuntimeErrorCode::InvalidDescriptor, OUT_OF_SCOPE_MESSAGE);
    // A refused open draws no id.
    assert_eq!(views.admit_open(&kind, None).unwrap(), "view-1");
    let in_scope = vec!["acct".to_string()];
    assert_eq!(views.admit_open(&kind, Some(&in_scope)).unwrap(), "view-2");
}

#[test]
fn an_opened_view_is_found_until_it_is_closed() {
    let mut views = ViewRegistry::new();
    views.insert_view(rev_log_view("view-1", "acct", 1));
    views.insert_view(rev_log_view("view-2", "acct", 4));
    assert!(views.view_exists("view-1"));
    assert_eq!(views.current_view("view-2").unwrap().snapshot.revision, 4);
    match views.close_view("view-1").unwrap() {
        ViewFrame::Closed { view_id } => assert_eq!(view_id, "view-1"),
        other => panic!("unexpected frame {other:?}"),
    }
    assert!(!views.view_exists("view-1"));
    assert!(views.view_exists("view-2"));
    expect_error(views.current_view("view-1").map(|_| ()), RuntimeErrorCode::NotFound, VIEW_NOT_FOUND_MESSAGE);
    expect_error(views.close_view("view-1"), RuntimeErrorCode::NotFound, VIEW_NOT_FOUND_MESSAGE);
}

#[test]
fn a_rebuild_is_re_served_only_when_its_data_changed() {
    let mut views = ViewRegistry::new();
    views.insert_view(rev_log_view("view-1", "acct", 1));
    let same = snapshot("view-1", 2, "{\"steps\":[]}");
    assert!(views.recompute_if_changed("view-1", same).unwrap().is_none());
    assert_eq!(views.current_view("view-1").unwrap().snapshot.revision, 1);
    let changed = snapshot("view-1", 2, "{\"steps\":[1]}");
    let served = views.recompute_if_changed("view-1", changed).unwrap().expect("changed data is re-served");
    assert_eq!(served.revision, 2);
    assert_eq!(views.current_view("view-1").unwrap().snapshot.revision, 2);
    expect_error(
        views.recompute_if_changed("view-9", snapshot("view-9", 1, "{}")),
        RuntimeErrorCode::NotFound,
        VIEW_NOT_FOUND_MESSAGE,
    );
}

#[test]
fn data_of_different_families_differ() {
    let other = ViewData::Other("{}".to_string());
    assert!(data_same(&other, &ViewData::Other("{}".to_string())));
    assert!(!data_same(&other, &ViewData::Other("[]".to_string())));
}

#[test]
fn a_subscriber_at_the_current_revision_needs_no_catch_up() {
    let mut views = ViewRegistry::new();
    views.insert_view(rev_log_view("view-1", "acct", 3));
    assert!(views.subscription_catch_up("view-1", Some(3), None).unwrap().is_none());
    match views.subscription_catch_up("view-1", Some(2), None).unwrap() {
        Some(ViewFrame::Snapshot { snapshot }) => assert_eq!(snapshot.revision, 3),
        other => panic!("unexpected catch-up {other:?}"),
    }
    assert!(matches!(views.subscription_catch_up("view-1", None, None).unwrap(), Some(ViewFrame::Snapshot { .. })));
    let scope = vec!["other".to_string()];
    expect_error(views.subscription_catch_up("view-1", None, Some(&scope)), RuntimeErrorCode::InvalidDescriptor, OUT_OF_SCOPE_MESSAGE);
    expect_error(views.subscription_catch_up("view-2", None, None), RuntimeErrorCode::NotFound, VIEW_NOT_FOUND_MESSAGE);
}

#[test]
fn only_mail_lists_extend_their_window() {
    let mut views = ViewRegistry::new();
    views.insert_view(mail_list_view("view-1", false));
    views.insert_view(rev_log_view("view-2", "acct", 1));
    match views.extension("view-1", 25, None).unwrap() {
        ViewKind::MailList(request) => match request.presentation {
            MailPresentation::Messages { limit, .. } => assert_eq!(limit, Some(75)),
            other => panic!("unexpected presentation {other:?}"),
        },
        other => panic!("unexpected kind {other:?}"),
    }
    expect_error(views.extension("view-2", 25, None), RuntimeErrorCode::InvalidDescriptor, NO_WINDOW_EXTENSION_MESSAGE);
    expect_error(views.extension("view-3", 25, None), RuntimeErrorCode::NotFound, VIEW_NOT_FOUND_MESSAGE);
}

#[test]
fn an_extension_replaces_the_view_and_is_broadcast() {
    let mut views = ViewRegistry::new();
    views.insert_view(mail_list_view("view-1", false));
    let grown = views.extension("view-1", 10, None).unwrap();
    let rebuilt = snapshot("view-1", next_revision(views.current_view("view-1").unwrap()), "{}");
    match views.store_extension("view-1", grown, rebuilt) {
        Some(ViewFrame::Replace { snapshot }) => assert_eq!(snapshot.revision, 2),
        other => panic!("unexpected frame {other:?}"),
    }
    assert_eq!(views.current_view("view-1").unwrap().snapshot.revision, 2);
    assert!(views.store_extension("view-7", ViewKind::Conversation { conversation_id: "c".to_string() }, snapshot("view-7", 1, "{}")).is_none());
}

#[test]
fn the_event_pump_skips_self_maintained_mail_lists() {
    let mut views = ViewRegistry::new();
    views.insert_view(mail_list_view("view-1", true));
    views.insert_view(mail_list_view("view-2", false));
    views.insert_view(rev_log_view("view-3", "acct", 1));
    let mut updated = event(EVENT_TOPIC_MESSAGE_UPDATED, "acct");
    updated.payload = r#"{"changes":{"keywords":true,"mailboxes":false}}"#.to_string();
    assert_eq!(views.pump_step("view-1", &updated), PumpStep::Skip);
    assert_eq!(views.pump_step("view-2", &updated), PumpStep::Recompute);
    assert_eq!(views.pump_step("view-3", &updated), PumpStep::Skip);
    let appended = event(EVENT_TOPIC_REV_LOG_APPENDED, "acct");
    assert_eq!(views.pump_step("view-3", &appended), PumpStep::Recompute);
    assert_eq!(views.pump_step("view-9", &appended), PumpStep::Stop);
}

#[test]
fn a_failed_rebuild_reports_the_served_revision() {
    let mut views = ViewRegistry::new();
    views.insert_view(rev_log_view("view-1", "acct", 5));
    let error = || RuntimeError::new(RuntimeErrorCode::Internal, "boom".to_string());
    match views.error_frame("view-1", error()) {
        ViewFrame::Error { view_id, revision, error } => {
            assert_eq!(view_id, "view-1");
            assert_eq!(revision, 5);
            assert_eq!(error.message, "boom");
        }
        other => panic!("unexpected frame {other:?}"),
    }
    assert!(matches!(views.error_frame("view-2", error()), ViewFrame::Error { revision: 0, .. }));
}

#[test]
fn a_stored_snapshot_replaces_only_an_open_view() {
    let mut views = ViewRegistry::new();
    views.insert_view(rev_log_view("view-1", "acct", 1));
    assert!(views.store_snapshot("view-1", snapshot("view-1", 2, "{}")));
    assert_eq!(views.current_view("view-1").unwrap().snapshot.revision, 2);
    assert!(!views.store_snapshot("view-2", snapshot("view-2", 1, "{}")));
    assert!(!views.view_exists("view-2"));
}
