use posthaste::errors::RuntimeErrorCode;
use posthaste::mail_list::{
    mail_list_state, presentation_sort, presentation_window, MailQueryPage, MessagePage,
    MessageRow, MESSAGE_PRESENTATION_REQUIRED,
};
use posthaste::views::{MailPresentation, MailQueryRequest, SortDirection};

fn request() -> MailQueryRequest {
    MailQueryRequest {
        query: "in:acct/inbox".to_string(),
        presentation: MailPresentation::Messages {
            limit: Some(2),
            cursor: None,
            sort_field: "date".to_string(),
            sort_direction: SortDirection::Desc,
        },
        visibility: None,
    }
}

fn message(id: &str, received_at: &str) -> MessageRow {
    MessageRow {
        source_id: "acct".to_string(),
        id: id.to_string(),
        received_at: received_at.to_string(),
        projection: format!("{{\"id\":\"{id}\"}}"),
    }
}

#[test]
fn a_message_page_becomes_rows_in_page_order() {
    let page = MessagePage {
        items: vec![message("m2", "2026-06-02T00:00:00Z"), message("m1", "2026-06-01T00:00:00Z")],
        next_cursor: Some("\"c2\"".to_string()),
    };
    let state = mail_list_state(&request(), MailQueryPage::Messages(page)).unwrap();
    assert_eq!(state.scope, "{\"query\":\"in:acct/inbox\"}");
    assert_eq!(state.projection_kind, "\"message\"");
    assert_eq!(state.sort, "{\"direction\":\"desc\",\"field\":\"date\"}");
    assert_eq!(state.window_request, "{\"cursor\":null,\"limit\":2}");
    assert_eq!(state.rows.len(), 2);
    assert_eq!(state.rows[0].row_key, "acct:m2");
    assert_eq!(state.rows[0].resource_ref.as_deref(), Some("message:acct:m2"));
    assert_eq!(state.rows[0].sort_key, "[\"2026-06-02T00:00:00Z\",\"m2\"]");
    assert_eq!(state.rows[0].order_key, "00000000");
    assert_eq!(state.rows[1].order_key, "00000001");
    assert_eq!(state.rows[1].projection, "{\"id\":\"m1\"}");
    assert!(state.continuation.has_after);
    assert!(!state.continuation.has_before);
    assert_eq!(state.continuation.after_cursor.as_deref(), Some("\"c2\""));
    assert_eq!(state.read_watermark.as_deref(), Some("local"));
    // A next page exists: the coverage reaches down to the last held row.
    assert_eq!(
        state.coverage,
        "{\"ranges\":[{\"from\":null,\"to\":[\"2026-06-01T00:00:00Z\",\"m1\"]}]}"
    );
    assert_eq!(state.anchor, "{\"kind\":\"notRequested\"}");
}

#[test]
fn the_last_page_covers_the_whole_order() {
    let page = MessagePage { items: vec![message("m1", "t")], next_cursor: None };
    let state = mail_list_state(&request(), MailQueryPage::Messages(page)).unwrap();
    assert!(!state.continuation.has_after);
    assert_eq!(state.coverage, "{\"ranges\":[{\"from\":null,\"to\":null}]}");
}

#[test]
fn a_conversation_page_cannot_back_a_mail_list() {
    let e = mail_list_state(&request(), MailQueryPage::Conversations("[]".to_string())).unwrap_err();
    assert_eq!(e.0.code, RuntimeErrorCode::InvalidDescriptor);
    assert_eq!(e.0.message, MESSAGE_PRESENTATION_REQUIRED);
}

#[test]
fn order_keys_pad_to_eight_digits() {
    let items: Vec<MessageRow> = (0..12).map(|i| message(&format!("m{i}"), "t")).collect();
    let page = MessagePage { items, next_cursor: None };
    let state = mail_list_state(&request(), MailQueryPage::Messages(page)).unwrap();
    assert_eq!(state.rows[11].order_key, "00000011");
}

#[test]
fn presentations_render_their_sort_and_window() {
    let collapsed = MailPresentation::CollapsedByConversation {
        limit: 30,
        cursor: Some("c\"1".to_string()),
        sort_field: "date".to_string(),
        sort_direction: SortDirection::Asc,
    };
    assert_eq!(presentation_sort(&collapsed), "{\"direction\":\"asc\",\"field\":\"date\"}");
    assert_eq!(presentation_window(&collapsed), "{\"cursor\":\"c\\\"1\",\"limit\":30}");
    let unbounded = MailPresentation::Messages {
        limit: None,
        cursor: None,
        sort_field: "from".to_string(),
        sort_direction: SortDirection::Desc,
    };
    assert_eq!(presentation_window(&unbounded), "{\"cursor\":null,\"limit\":null}");
}

#[test]
fn order_keys_sort_rows_by_position() {
    let items: Vec<MessageRow> = (0..120).map(|i| message(&format!("m{i}"), "t")).collect();
    let page = MessagePage { items, next_cursor: None };
    let state = mail_list_state(&request(), MailQueryPage::Messages(page)).unwrap();
    let keys: Vec<&str> = state.rows.iter().map(|r| r.order_key.as_str()).collect();
    let mut sorted = keys.clone();
    sorted.sort();
    assert_eq!(keys, sorted);
}
