use posthaste::domain::DomainEvent;
use posthaste::errors::RuntimeErrorCode;
use posthaste::link_table::{LinkTable, NotificationStep, VIEW_NOT_OPEN_IN_LINK_MESSAGE};
use posthaste::links::{
    LinkFrame, MailOperation, MutationSettlementState, ResumeKind, StoredMutation, ViewData,
    ViewFrame, ViewSnapshot, LINK_FULL_SCOPE_MESSAGE, LINK_SCOPE_MISMATCH_MESSAGE,
    SESSION_IDLE_TTL,
};
use posthaste::mutations::LINK_NOT_FOUND_MESSAGE;

fn snapshot(view_id: &str, revision: u64) -> ViewSnapshot {
    ViewSnapshot {
        view_id: view_id.to_string(),
        family: "conversation".to_string(),
        revision,
        data: ViewData::Other("{}".to_string()),
    }
}

fn scope(ids: &[&str]) -> Vec<String> {
    ids.iter().map(|s| s.to_string()).collect()
}

fn event(account: &str) -> DomainEvent {
    DomainEvent {
        seq: 1,
        account_id: account.to_string(),
        topic: "message.updated".to_string(),
        occurred_at: String::new(),
        mailbox_id: None,
        message_id: None,
        payload: "{}".to_string(),
    }
}

fn mutation(id: u64, state: MutationSettlementState) -> StoredMutation {
    StoredMutation {
        mutation_id: format!("mutation-{id}"),
        client_mutation_id: format!("client-{id}"),
        operation: MailOperation { name: "message.setFlaggedState".to_string(), arguments: "{}".to_string() },
        state,
        error: None,
        output: "null".to_string(),
    }
}

#[test]
fn idle_session_reaped_after_ttl() {
    let mut links = LinkTable::new();
    links.open_link("link-1".to_string(), None, false, 100);
    // Within the TTL the reaper spares it.
    assert!(links.reap_idle(101, &Vec::new()).is_empty());
    assert!(links.link_scope("link-1", None).is_ok());
    // Past the TTL it is reaped and its entry released.
    let reaped = links.reap_idle(100 + SESSION_IDLE_TTL + 1, &Vec::new());
    assert_eq!(reaped.len(), 1);
    assert_eq!(reaped[0].0, "link-1");
    assert_eq!(links.link_scope("link-1", None).unwrap_err().0.message, LINK_NOT_FOUND_MESSAGE);
}

#[test]
fn a_live_stream_is_never_reaped() {
    let mut links = LinkTable::new();
    links.open_link("link-1".to_string(), None, false, 0);
    links.open_link("link-2".to_string(), None, false, 0);
    let live = vec!["link-1".to_string()];
    let reaped = links.reap_idle(SESSION_IDLE_TTL * 10, &live);
    assert_eq!(reaped.len(), 1);
    assert_eq!(reaped[0].0, "link-2");
    assert!(links.link_scope("link-1", None).is_ok());
    // The live link was marked active: once its stream is gone it still has
    // the full TTL.
    assert!(links.reap_idle(SESSION_IDLE_TTL * 10 + 1, &Vec::new()).is_empty());
}

#[test]
fn a_reaped_link_hands_back_its_open_views() {
    let mut links = LinkTable::new();
    links.open_link("link-1".to_string(), None, false, 0);
    links.record_open_view("link-1", snapshot("view-1", 1)).unwrap();
    links.record_open_view("link-1", snapshot("view-2", 1)).unwrap();
    let reaped = links.reap_idle(SESSION_IDLE_TTL + 1, &Vec::new());
    let mut views = reaped[0].1.clone();
    views.sort();
    assert_eq!(views, vec!["view-1".to_string(), "view-2".to_string()]);
}

#[test]
fn callers_must_match_the_link_scope() {
    let mut links = LinkTable::new();
    links.open_link("scoped".to_string(), Some(scope(&["a"])), false, 0);
    links.open_link("full".to_string(), None, false, 0);
    assert_eq!(links.link_scope("scoped", None).unwrap(), Some(scope(&["a"])));
    assert_eq!(links.link_scope("scoped", Some(&scope(&["a"]))).unwrap(), Some(scope(&["a"])));
    let e = links.link_scope("scoped", Some(&scope(&["b"]))).unwrap_err();
    assert_eq!(e.0.code, RuntimeErrorCode::Unauthorized);
    assert_eq!(e.0.message, LINK_SCOPE_MISMATCH_MESSAGE);
    let e = links.link_scope("full", Some(&scope(&["a"]))).unwrap_err();
    assert_eq!(e.0.message, LINK_FULL_SCOPE_MESSAGE);
    assert_eq!(links.link_scope("nope", None).unwrap_err().0.code, RuntimeErrorCode::NotFound);
}

#[test]
fn closing_a_link_releases_it_and_its_views() {
    let mut links = LinkTable::new();
    links.open_link("link-1".to_string(), Some(scope(&["a"])), false, 0);
    links.record_open_view("link-1", snapshot("view-1", 1)).unwrap();
    assert!(links.close_link("link-1", Some(&scope(&["b"]))).is_err());
    assert_eq!(links.close_link("link-1", Some(&scope(&["a"]))).unwrap(), vec!["view-1".to_string()]);
    assert_eq!(links.close_link("link-1", None).unwrap_err().0.message, LINK_NOT_FOUND_MESSAGE);
}

#[test]
fn an_extend_needs_the_view_open_on_the_link() {
    let mut links = LinkTable::new();
    links.open_link("link-1".to_string(), None, false, 0);
    links.record_open_view("link-1", snapshot("view-1", 1)).unwrap();
    assert!(links.require_open_view("link-1", "view-1").is_ok());
    let e = links.require_open_view("link-1", "view-2").unwrap_err();
    assert_eq!(e.0.message, VIEW_NOT_OPEN_IN_LINK_MESSAGE);
    assert_eq!(links.require_open_view("link-2", "view-1").unwrap_err().0.message, LINK_NOT_FOUND_MESSAGE);
    assert_eq!(
        links.record_open_view("link-2", snapshot("view-1", 1)).unwrap_err().0.message,
        LINK_NOT_FOUND_MESSAGE
    );
}

#[test]
fn closing_a_view_on_a_link_forgets_it() {
    let mut links = LinkTable::new();
    links.open_link("link-1".to_string(), None, false, 0);
    links.record_open_view("link-1", snapshot("view-1", 1)).unwrap();
    match links.close_link_view("link-1", "view-1".to_string(), None).unwrap() {
        LinkFrame::ViewClosed { view_id } => assert_eq!(view_id, "view-1"),
        other => panic!("unexpected frame {other:?}"),
    }
    assert!(links.open_view_ids("link-1").is_empty());
    // Frames of the closed view are no longer forwarded.
    assert!(links
        .forward_view_frame("link-1", ViewFrame::Snapshot { snapshot: snapshot("view-1", 2) })
        .is_none());
}

#[test]
fn view_frames_reach_links_holding_the_view() {
    let mut links = LinkTable::new();
    links.open_link("link-1".to_string(), None, false, 0);
    links.record_open_view("link-1", snapshot("view-1", 1)).unwrap();
    match links.forward_view_frame("link-1", ViewFrame::Replace { snapshot: snapshot("view-1", 2) }) {
        Some(LinkFrame::ViewReplace { view_id, revision, .. }) => {
            assert_eq!(view_id, "view-1");
            assert_eq!(revision, 2);
        }
        other => panic!("unexpected frame {other:?}"),
    }
    assert!(links.forward_view_frame("link-9", ViewFrame::Closed { view_id: "view-1".to_string() }).is_none());
}

#[test]
fn notifications_follow_the_link_scope() {
    let mut links = LinkTable::new();
    links.open_link("scoped".to_string(), Some(scope(&["a"])), false, 0);
    links.open_link("full".to_string(), None, false, 0);
    assert_eq!(links.notification_step("scoped", &event("a")), NotificationStep::Forward);
    assert_eq!(links.notification_step("scoped", &event("b")), NotificationStep::Skip);
    assert_eq!(links.notification_step("full", &event("b")), NotificationStep::Forward);
    assert_eq!(links.notification_step("gone", &event("a")), NotificationStep::Stop);
}

#[test]
fn a_refresh_updates_only_views_still_open() {
    let mut links = LinkTable::new();
    links.open_link("link-1".to_string(), None, false, 0);
    links.record_open_view("link-1", snapshot("view-1", 1)).unwrap();
    assert!(links.refresh_snapshot("link-1", snapshot("view-1", 5)));
    assert!(!links.refresh_snapshot("link-1", snapshot("view-2", 5)));
    assert!(!links.refresh_snapshot("link-2", snapshot("view-1", 5)));
    let frames = links.collapse("link-1", None, &Vec::new()).unwrap();
    match &frames[0] {
        LinkFrame::ViewSnapshot { revision, .. } => assert_eq!(*revision, 5),
        other => panic!("unexpected frame {other:?}"),
    }
}

#[test]
fn a_current_subscriber_of_an_empty_link_needs_no_catch_up() {
    let mut links = LinkTable::new();
    links.open_link("link-1".to_string(), None, false, 0);
    assert!(links.catch_up("link-1", ResumeKind::Fresh, &Vec::new()).unwrap().is_empty());
    assert!(links.catch_up("link-1", ResumeKind::Replay, &Vec::new()).unwrap().is_empty());
    // A pending window re-serves on a first subscribe.
    let window = vec![mutation(1, MutationSettlementState::Confirmed)];
    assert_eq!(links.catch_up("link-1", ResumeKind::Fresh, &window).unwrap().len(), 1);
    links.record_open_view("link-1", snapshot("view-1", 1)).unwrap();
    assert_eq!(links.catch_up("link-1", ResumeKind::Fresh, &Vec::new()).unwrap().len(), 1);
    assert_eq!(links.catch_up("link-1", ResumeKind::Collapse, &window).unwrap().len(), 2);
    assert_eq!(links.catch_up("link-9", ResumeKind::Collapse, &window).unwrap_err().0.code, RuntimeErrorCode::NotFound);
}

#[test]
fn a_collapse_checks_the_caller() {
    let mut links = LinkTable::new();
    links.open_link("link-1".to_string(), Some(scope(&["a"])), false, 0);
    assert!(links.collapse("link-1", Some(&scope(&["b"])), &Vec::new()).is_err());
    assert!(links.collapse("link-1", None, &Vec::new()).unwrap().is_empty());
}

#[test]
fn marking_active_defers_the_reaper() {
    let mut links = LinkTable::new();
    links.open_link("link-1".to_string(), None, false, 0);
    links.mark_active("link-1", 1000);
    assert!(links.reap_idle(1000 + SESSION_IDLE_TTL, &Vec::new()).is_empty());
    assert_eq!(links.reap_idle(1001 + SESSION_IDLE_TTL, &Vec::new()).len(), 1);
}

#[test]
fn settlements_of_an_unknown_link_read_as_nothing() {
    let mut links = LinkTable::new();
    links.open_link("link-1".to_string(), Some(scope(&["a"])), false, 0);
    assert_eq!(links.settlement_access("link-9", None).unwrap(), false);
    assert_eq!(links.settlement_access("link-1", Some(&scope(&["a"]))).unwrap(), true);
    assert!(links.settlement_access("link-1", Some(&scope(&["b"]))).is_err());
}
