use posthaste::domain::{DomainEvent, EVENT_TOPIC_MESSAGE_UPDATED};
use posthaste::errors::RuntimeErrorCode;
use posthaste::views::{
    complete_coverage, event_affects_view, grow_message_window, local_watermark,
    mail_query_contains_source_scope, message_event_affects_list, message_event_flags,
    parse_view_family, validate_kind_account_scope, MailPresentation, MailQueryRequest,
    MessageEventFlags, SortDirection, ViewFamily, ViewKind,
};

fn updated_with(payload: &str) -> DomainEvent {
    DomainEvent {
        seq: 1,
        account_id: "acct".to_string(),
        topic: EVENT_TOPIC_MESSAGE_UPDATED.to_string(),
        occurred_at: "2026-06-23T00:00:00Z".to_string(),
        mailbox_id: None,
        message_id: Some("m1".to_string()),
        payload: payload.to_string(),
    }
}

fn message_event(topic: &str, account: &str, message: Option<&str>) -> DomainEvent {
    DomainEvent {
        seq: 1,
        account_id: account.to_string(),
        topic: topic.to_string(),
        occurred_at: "2026-06-23T00:00:00Z".to_string(),
        mailbox_id: None,
        message_id: message.map(|m| m.to_string()),
        payload: "{}".to_string(),
    }
}

fn mail_list(query: &str, limit: Option<usize>) -> ViewKind {
    ViewKind::MailList(MailQueryRequest {
        query: query.to_string(),
        presentation: MailPresentation::Messages {
            limit,
            cursor: None,
            sort_field: "date".to_string(),
            sort_direction: SortDirection::Desc,
        },
        visibility: None,
    })
}

#[test]
fn keyword_change_affects_list() {
    assert!(message_event_affects_list(&updated_with(
        r#"{ "changes": { "keywords": true, "mailboxes": false } }"#
    )));
}

#[test]
fn mailbox_change_affects_list() {
    assert!(message_event_affects_list(&updated_with(
        r#"{ "changes": { "keywords": false, "mailboxes": true } }"#
    )));
}

#[test]
fn new_message_affects_list() {
    assert!(message_event_affects_list(&updated_with(
        r#"{ "created": true, "changes": { "keywords": true, "mailboxes": true } }"#
    )));
}

#[test]
fn deletion_affects_list() {
    assert!(message_event_affects_list(&updated_with(r#"{ "deleted": true }"#)));
}

#[test]
fn unrelated_payload_does_not_affect_list() {
    assert!(!message_event_affects_list(&updated_with(
        r#"{ "changes": { "keywords": false, "mailboxes": false } }"#
    )));
}

#[test]
fn payload_flags_are_read_where_the_payload_holds_true() {
    assert_eq!(
        message_event_flags(r#"{ "created": true, "changes": { "keywords": false, "mailboxes": true } }"#),
        MessageEventFlags { keywords_changed: false, mailboxes_changed: true, created: true, deleted: false }
    );
    assert_eq!(
        message_event_flags(r#"{ "deleted": "yes", "changes": [true] }"#),
        MessageEventFlags { keywords_changed: false, mailboxes_changed: false, created: false, deleted: false }
    );
    assert_eq!(
        message_event_flags("not json"),
        MessageEventFlags { keywords_changed: false, mailboxes_changed: false, created: false, deleted: false }
    );
}

#[test]
fn view_families_recompute_on_their_own_events() {
    let update = message_event(EVENT_TOPIC_MESSAGE_UPDATED, "acct", Some("m1"));
    let keyword_update = updated_with(r#"{ "changes": { "keywords": true } }"#);
    assert!(event_affects_view(&mail_list("in:acct/inbox", None), &keyword_update));
    assert!(!event_affects_view(&mail_list("in:acct/inbox", None), &update));

    let detail = ViewKind::MessageDetail { source_id: "acct".to_string(), message_id: "m1".to_string() };
    assert!(event_affects_view(&detail, &update));
    let other = message_event(EVENT_TOPIC_MESSAGE_UPDATED, "acct", Some("m2"));
    assert!(!event_affects_view(&detail, &other));

    let conversation = ViewKind::Conversation { conversation_id: "c1".to_string() };
    assert!(event_affects_view(&conversation, &other));

    let all_accounts = ViewKind::AccountStatus { account_id: None };
    let one_account = ViewKind::AccountStatus { account_id: Some("acct".to_string()) };
    let created = message_event("account.created", "other", None);
    assert!(event_affects_view(&all_accounts, &created));
    assert!(!event_affects_view(&one_account, &created));
    assert!(!event_affects_view(&all_accounts, &update));

    let rev_log = ViewKind::RevLog { account_id: "acct".to_string() };
    assert!(event_affects_view(&rev_log, &message_event("rev_log.appended", "acct", None)));
    assert!(!event_affects_view(&rev_log, &update));
}

#[test]
fn query_scope_reads_in_selectors_of_whitespace_tokens() {
    assert!(mail_query_contains_source_scope("in:acct/inbox", "acct"));
    assert!(mail_query_contains_source_scope("  from:x   IN:acct/archive  ", "acct"));
    assert!(mail_query_contains_source_scope("!-+in:acct/inbox", "acct"));
    assert!(!mail_query_contains_source_scope("in:acct", "acct"));
    assert!(!mail_query_contains_source_scope("In:acct/inbox", "acct"));
    assert!(!mail_query_contains_source_scope("in:other/acct", "acct"));
    assert!(!mail_query_contains_source_scope("xin:acct/inbox", "acct"));
    assert!(!mail_query_contains_source_scope("", "acct"));
}

#[test]
fn scoped_callers_only_open_views_inside_their_scope() {
    let scope = vec!["acct".to_string()];
    assert!(validate_kind_account_scope(&mail_list("in:other/inbox", None), None).is_ok());
    assert!(validate_kind_account_scope(&mail_list("in:acct/inbox", None), Some(&scope)).is_ok());
    let error = validate_kind_account_scope(&mail_list("in:other/inbox", None), Some(&scope))
        .expect_err("outside the scope");
    assert_eq!(error.0.code, RuntimeErrorCode::InvalidDescriptor);
    assert_eq!(error.0.message, "view descriptor is outside the caller account scope");
    assert!(validate_kind_account_scope(&mail_list("anything", None), Some(&Vec::new())).is_ok());
    let conversation = ViewKind::Conversation { conversation_id: "c".to_string() };
    assert!(validate_kind_account_scope(&conversation, Some(&scope)).is_ok());
    let all_accounts = ViewKind::AccountStatus { account_id: None };
    assert!(validate_kind_account_scope(&all_accounts, Some(&scope)).is_ok());
    let rev_log = ViewKind::RevLog { account_id: "other".to_string() };
    assert!(validate_kind_account_scope(&rev_log, Some(&scope)).is_err());
}

#[test]
fn extending_grows_the_window_saturating() {
    let mut kind = mail_list("q", None);
    if let ViewKind::MailList(request) = &mut kind {
        grow_message_window(request, 50);
        grow_message_window(request, 25);
        match &request.presentation {
            MailPresentation::Messages { limit, .. } => assert_eq!(*limit, Some(75)),
            _ => panic!("presentation kind changed"),
        }
        grow_message_window(request, usize::MAX);
        match &request.presentation {
            MailPresentation::Messages { limit, .. } => assert_eq!(*limit, Some(usize::MAX)),
            _ => panic!("presentation kind changed"),
        }
    }
    let mut collapsed = MailQueryRequest {
        query: "q".to_string(),
        presentation: MailPresentation::CollapsedByConversation {
            limit: 10,
            cursor: Some("c".to_string()),
            sort_field: "date".to_string(),
            sort_direction: SortDirection::Asc,
        },
        visibility: None,
    };
    grow_message_window(&mut collapsed, 5);
    match &collapsed.presentation {
        MailPresentation::CollapsedByConversation { limit, cursor, .. } => {
            assert_eq!(*limit, 15);
            assert_eq!(cursor.as_deref(), Some("c"));
        }
        _ => panic!("presentation kind changed"),
    }
}

#[test]
fn view_families_parse_by_name() {
    assert_eq!(parse_view_family("mailList").ok(), Some(ViewFamily::MailList));
    assert_eq!(parse_view_family("revLog").ok(), Some(ViewFamily::RevLog));
    let error = parse_view_family("calendar").expect_err("unknown family");
    assert_eq!(error.0.code, RuntimeErrorCode::InvalidDescriptor);
    assert_eq!(error.0.message, "unsupported view family 'calendar'");
}

#[test]
fn local_reads_are_complete_with_a_local_watermark() {
    assert_eq!(local_watermark().map(|w| w.value), Some("local".to_string()));
    let coverage = complete_coverage();
    assert_eq!(coverage.ranges.len(), 1);
    assert!(coverage.ranges[0].from.is_none() && coverage.ranges[0].to.is_none());
}
