use posthaste::compose::{
    admit_attachment_size, recipient_email_is_empty, validate_save_draft_request,
    validate_send_message_request, OutgoingAttachment, Recipient, SaveDraftRequest,
    SendMessageRequest, MAX_SEND_ATTACHMENT_BYTES,
};
use posthaste::detail::{
    apply_resource_transform, escape_content_disposition_filename, rewrite_inline_attachment_urls,
    MessageAttachment, MessageResourceKind, RuntimeResourceBytes,
};
use posthaste::errors::{ApiError, ApiErrorCode, BAD_REQUEST};
use posthaste::gateway::require_live_gateway;

fn recipient(email: &str) -> Recipient {
    Recipient { name: None, email: email.to_string() }
}

fn attachment(filename: &str, content: &str) -> OutgoingAttachment {
    OutgoingAttachment {
        filename: filename.to_string(),
        mime_type: "application/octet-stream".to_string(),
        content_base64: content.to_string(),
    }
}

fn request() -> SendMessageRequest {
    SendMessageRequest {
        from: None,
        to: vec![recipient("bob@example.test")],
        cc: Vec::new(),
        bcc: Vec::new(),
        subject: "Hello".to_string(),
        body: "Hi Bob".to_string(),
        attachments: Vec::new(),
    }
}

fn compose_error(result: Result<(), ApiError>) -> String {
    let error = result.expect_err("the request must be refused");
    assert_eq!(error.status, BAD_REQUEST);
    assert_eq!(error.body.code, ApiErrorCode::InvalidCompose);
    error.body.message
}

#[test]
fn a_complete_request_is_accepted() {
    let mut r = request();
    r.from = Some(recipient("me@example.test"));
    r.attachments.push(attachment("a.txt", "aGVsbG8="));
    assert!(validate_send_message_request(&r).is_ok());
}

#[test]
fn header_rules_are_checked_in_order() {
    let mut r = request();
    r.from = Some(recipient("   "));
    r.to.clear();
    assert_eq!(compose_error(validate_send_message_request(&r)), "sender email address cannot be empty");

    let mut r = request();
    r.to.clear();
    assert_eq!(compose_error(validate_send_message_request(&r)), "at least one To recipient is required");

    let mut r = request();
    r.subject = " \t".to_string();
    assert_eq!(compose_error(validate_send_message_request(&r)), "subject is required");

    let mut r = request();
    r.body = "\n".to_string();
    assert_eq!(compose_error(validate_send_message_request(&r)), "message body is required");

    let mut r = request();
    r.bcc.push(recipient(""));
    assert_eq!(
        compose_error(validate_send_message_request(&r)),
        "recipient email addresses cannot be empty"
    );

    let mut r = request();
    for i in 0..11 {
        r.attachments.push(attachment(&format!("f{i}"), "AA=="));
    }
    assert_eq!(compose_error(validate_send_message_request(&r)), "too many attachments");
}

#[test]
fn attachments_must_be_named_valid_base64() {
    let mut r = request();
    r.attachments.push(attachment("  ", "AA=="));
    assert_eq!(compose_error(validate_send_message_request(&r)), "attachment filename is required");

    let mut r = request();
    r.attachments.push(attachment("a.bin", "not base64!"));
    assert_eq!(
        compose_error(validate_send_message_request(&r)),
        "attachment content must be valid base64"
    );

    // Surrounding whitespace is trimmed before decoding.
    let mut r = request();
    r.attachments.push(attachment("a.bin", "  aGVsbG8=\n"));
    assert!(validate_send_message_request(&r).is_ok());
}

#[test]
fn attachment_budget_limits_each_and_all() {
    assert_eq!(admit_attachment_size(0, Some(5)).ok(), Some(5));
    assert_eq!(
        admit_attachment_size(0, Some(MAX_SEND_ATTACHMENT_BYTES)).ok(),
        Some(MAX_SEND_ATTACHMENT_BYTES)
    );
    assert_eq!(
        compose_error(admit_attachment_size(0, Some(MAX_SEND_ATTACHMENT_BYTES + 1)).map(|_| ())),
        "attachment is too large"
    );
    assert_eq!(
        compose_error(admit_attachment_size(20 * 1024 * 1024, Some(6 * 1024 * 1024)).map(|_| ())),
        "attachments are too large"
    );
    assert_eq!(
        admit_attachment_size(20 * 1024 * 1024, Some(5 * 1024 * 1024)).ok(),
        Some(25 * 1024 * 1024)
    );
    assert_eq!(
        compose_error(admit_attachment_size(0, None).map(|_| ())),
        "attachment content must be valid base64"
    );
    // The running total saturates rather than wrapping.
    assert_eq!(
        compose_error(admit_attachment_size(u64::MAX, Some(1)).map(|_| ())),
        "attachments are too large"
    );
}

#[test]
fn decoded_sizes_add_up_across_attachments() {
    // Three attachments of 9 MiB each: each fits, the third breaks the total.
    let nine_mib = "A".repeat(9 * 1024 * 1024 / 3 * 4);
    let mut r = request();
    r.attachments.push(attachment("a", &nine_mib));
    r.attachments.push(attachment("b", &nine_mib));
    assert!(validate_send_message_request(&r).is_ok());
    r.attachments.push(attachment("c", &nine_mib));
    assert_eq!(compose_error(validate_send_message_request(&r)), "attachments are too large");
}

#[test]
fn recipient_emptiness_ignores_surrounding_whitespace() {
    assert!(recipient_email_is_empty(&recipient("  \t")));
    assert!(!recipient_email_is_empty(&recipient(" a@b ")));
}

#[test]
fn a_draft_may_be_incomplete_but_not_name_an_empty_sender() {
    let mut message = request();
    message.to.clear();
    message.subject.clear();
    let draft = SaveDraftRequest { draft_id: None, message };
    assert!(validate_save_draft_request(&draft).is_ok());

    let mut message = request();
    message.from = Some(recipient(" "));
    let draft = SaveDraftRequest { draft_id: Some("d1".to_string()), message };
    assert_eq!(
        compose_error(validate_save_draft_request(&draft)),
        "sender email address cannot be empty"
    );
}

fn inline_attachment(id: &str, cid: &str) -> MessageAttachment {
    MessageAttachment {
        id: id.to_string(),
        blob_id: "blob-1".to_string(),
        part_id: None,
        filename: None,
        mime_type: "image/png".to_string(),
        size: 0,
        disposition: Some("inline".to_string()),
        cid: Some(cid.to_string()),
        is_inline: true,
    }
}

#[test]
fn inline_cid_urls_point_at_the_attachment_endpoint() {
    let html = r#"<img src="cid:img1"><img src="cid:<img1>"><img src="cid:other">"#;
    let out = rewrite_inline_attachment_urls(html, "acct", "msg", &[inline_attachment("att-1", " <img1> ")]);
    assert_eq!(
        out,
        r#"<img src="/v1/sources/acct/messages/msg/attachments/att-1"><img src="/v1/sources/acct/messages/msg/attachments/att-1"><img src="cid:other">"#
    );
    assert!(!out.contains("cid:img1"));
}

#[test]
fn attachments_that_are_not_inline_or_lack_a_cid_are_left_alone() {
    let html = r#"<img src="cid:img1">"#;
    let mut not_inline = inline_attachment("att-1", "img1");
    not_inline.is_inline = false;
    let mut no_cid = inline_attachment("att-2", "img1");
    no_cid.cid = None;
    assert_eq!(rewrite_inline_attachment_urls(html, "a", "m", &[not_inline, no_cid]), html);
}

#[test]
fn content_disposition_filenames_lose_quotes_and_backslashes() {
    assert_eq!(escape_content_disposition_filename(r#"a\b"c.txt"#), "a_b'c.txt");
    assert_eq!(escape_content_disposition_filename("plain.pdf"), "plain.pdf");
}

#[test]
fn a_missing_gateway_is_a_gateway_unavailable_error() {
    assert_eq!(require_live_gateway(Some(7), "acct").ok(), Some(7));
    let error = require_live_gateway::<u8>(None, "acct").expect_err("no gateway");
    assert_eq!(error.status, 503);
    assert_eq!(error.body.code, ApiErrorCode::GatewayUnavailable);
    assert!(error.body.message.contains("acct"));
}

#[test]
fn resources_are_served_inline_or_as_downloads() {
    let h = posthaste::detail::resource_headers("image/png", Some("a\"b\\c.png"), false).unwrap();
    assert_eq!(h.content_type, "image/png");
    assert_eq!(h.content_disposition, "inline; filename=\"a'b_c.png\"");
    assert_eq!(h.cache_control, "private, max-age=300");
    let h = posthaste::detail::resource_headers("text/plain", None, true).unwrap();
    assert_eq!(h.content_disposition, "attachment; filename=\"resource\"");
}

#[test]
fn an_unusable_content_type_falls_back_to_octet_stream() {
    let h = posthaste::detail::resource_headers("text/html\n", Some("x"), false).unwrap();
    assert_eq!(h.content_type, "application/octet-stream");
}

#[test]
fn a_filename_with_control_characters_is_an_internal_error() {
    let e = posthaste::detail::resource_headers("text/plain", Some("bad\u{7f}name"), true).unwrap_err();
    assert_eq!(e.status, 500);
    assert_eq!(e.body.message, "invalid content disposition header");
}

#[test]
fn a_conversation_reads_all_its_messages_oldest_first() {
    let q = posthaste::detail::conversation_query("c-42");
    assert_eq!(q.query, "conversation:c-42");
    match q.presentation {
        posthaste::views::MailPresentation::Messages { limit, cursor, sort_field, sort_direction } => {
            assert!(limit.is_none() && cursor.is_none());
            assert_eq!(sort_field, "date");
            assert_eq!(sort_direction, posthaste::views::SortDirection::Asc);
        }
        other => panic!("unexpected presentation {other:?}"),
    }
}

#[test]
fn a_conversation_takes_its_newest_subject() {
    let subjects = vec![Some("first".to_string()), None, Some("Re: first".to_string())];
    assert_eq!(posthaste::detail::conversation_subject(&subjects).unwrap().as_deref(), Some("Re: first"));
    let subjects = vec![None, Some("middle".to_string()), Some("later".to_string()), None];
    assert_eq!(posthaste::detail::conversation_subject(&subjects).unwrap().as_deref(), Some("middle"));
    assert_eq!(posthaste::detail::conversation_subject(&vec![None, None]).unwrap(), None);
    let e = posthaste::detail::conversation_subject(&Vec::new()).unwrap_err();
    assert_eq!(e.status, 404);
    assert_eq!(e.body.message, "conversation not found");
}

/// Drops `<script>` elements: the sanitizer the transform runs before it
/// rewrites `cid:` URLs.
fn strip_scripts(html: &str) -> String {
    let mut out = String::new();
    let mut rest = html;
    while let Some(start) = rest.find("<script>") {
        out.push_str(&rest[..start]);
        match rest[start..].find("</script>") {
            Some(end) => rest = &rest[start + end + "</script>".len()..],
            None => rest = "",
        }
    }
    out.push_str(rest);
    out
}

#[test]
fn body_html_transform_sanitizes_then_rewrites_cid_urls() {
    let resource = RuntimeResourceBytes {
        bytes: br#"<script>alert(1)</script><img src="cid:img1"><p>hi</p>"#.to_vec(),
        content_type: "text/html; charset=utf-8".to_string(),
        filename: None,
        inline_attachments: vec![inline_attachment("att-1", "img1")],
    };
    let out = apply_resource_transform(&strip_scripts, "acct", "msg", &MessageResourceKind::BodyHtml, resource);
    let html = String::from_utf8(out.bytes).expect("utf8");
    assert!(!html.contains("<script>"), "script must be sanitized out: {html}");
    assert!(
        html.contains("/v1/sources/acct/messages/msg/attachments/att-1"),
        "cid must be rewritten to the attachment URL: {html}"
    );
    assert!(!html.contains("cid:img1"), "raw cid must be gone: {html}");
    assert_eq!(out.content_type, "text/html; charset=utf-8");
}

#[test]
fn non_body_resources_are_served_verbatim() {
    let raw = b"\x00\x01raw-bytes<script>".to_vec();
    let resource = RuntimeResourceBytes {
        bytes: raw.clone(),
        content_type: "application/octet-stream".to_string(),
        filename: Some("f.bin".to_string()),
        inline_attachments: Vec::new(),
    };
    let out = apply_resource_transform(
        &strip_scripts,
        "a",
        "m",
        &MessageResourceKind::Attachment("x".to_string()),
        resource,
    );
    assert_eq!(out.bytes, raw);
}
