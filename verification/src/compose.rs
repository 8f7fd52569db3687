//! Outgoing mail: the shape of a send or draft request and the checks made
//! before it is handed to the runtime.
use vstd::prelude::*;

use crate::errors::{bad_request, check_outcome, ApiError, ApiErrorCode};
use crate::text::{is_blank, spec_is_blank, spec_trim, trim_str};

verus! {

/// At most this many attachments per message.
pub const MAX_SEND_ATTACHMENTS: usize = 10;

/// At most this many decoded bytes per attachment (10 MiB).
pub const MAX_SEND_ATTACHMENT_BYTES: u64 = 10 * 1024 * 1024;

/// At most this many decoded attachment bytes per message (25 MiB).
pub const MAX_SEND_TOTAL_ATTACHMENT_BYTES: u64 = 25 * 1024 * 1024;

pub const SENDER_EMPTY_MESSAGE: &'static str = "sender email address cannot be empty";

pub const TO_REQUIRED_MESSAGE: &'static str = "at least one To recipient is required";

pub const SUBJECT_REQUIRED_MESSAGE: &'static str = "subject is required";

pub const BODY_REQUIRED_MESSAGE: &'static str = "message body is required";

pub const RECIPIENT_EMPTY_MESSAGE: &'static str = "recipient email addresses cannot be empty";

pub const TOO_MANY_ATTACHMENTS_MESSAGE: &'static str = "too many attachments";

pub const ATTACHMENT_FILENAME_MESSAGE: &'static str = "attachment filename is required";

pub const ATTACHMENT_BASE64_MESSAGE: &'static str = "attachment content must be valid base64";

pub const ATTACHMENT_TOO_LARGE_MESSAGE: &'static str = "attachment is too large";

pub const ATTACHMENTS_TOO_LARGE_MESSAGE: &'static str = "attachments are too large";

/// A sender or recipient address.
#[derive(Debug)]
pub struct Recipient {
    pub name: Option<String>,
    pub email: String,
}

/// An attachment of an outgoing message, its content base64-encoded.
#[derive(Debug)]
pub struct OutgoingAttachment {
    pub filename: String,
    pub mime_type: String,
    pub content_base64: String,
}

/// A message to send (or the content of a draft).
#[derive(Debug)]
pub struct SendMessageRequest {
    pub from: Option<Recipient>,
    pub to: Vec<Recipient>,
    pub cc: Vec<Recipient>,
    pub bcc: Vec<Recipient>,
    pub subject: String,
    pub body: String,
    pub attachments: Vec<OutgoingAttachment>,
}

/// Request body of a draft save: the draft being edited, if any, and its
/// content (every field may still be empty while composing).
#[derive(Debug)]
pub struct SaveDraftRequest {
    pub draft_id: Option<String>,
    pub message: SendMessageRequest,
}

/// Request body of a draft deletion.
#[derive(Debug)]
pub struct DeleteDraftRequest {
    pub draft_id: String,
}

/// A compose error with `message`.
pub open spec fn compose_error(message: Seq<char>) -> Option<(ApiErrorCode, Seq<char>)> {
    Some((ApiErrorCode::InvalidCompose, message))
}

pub open spec fn spec_recipient_email_is_empty(r: Recipient) -> bool {
    spec_is_blank(r.email@)
}

/// Whether the address of `recipient` is empty once trimmed.
pub fn recipient_email_is_empty(recipient: &Recipient) -> (r: bool)
    ensures
        r == spec_recipient_email_is_empty(*recipient),
{
    is_blank(recipient.email.as_str())
}

pub open spec fn spec_sender_is_empty(from: Option<Recipient>) -> bool {
    match from {
        Some(f) => spec_recipient_email_is_empty(f),
        None => false,
    }
}

pub open spec fn spec_any_empty_recipient(rs: Seq<Recipient>) -> bool {
    exists|i: int| 0 <= i < rs.len() && spec_recipient_email_is_empty(#[trigger] rs[i])
}

fn any_empty_recipient(rs: &Vec<Recipient>) -> (r: bool)
    ensures
        r == spec_any_empty_recipient(rs@),
{
    let mut i: usize = 0;
    while i < rs.len()
        invariant
            i <= rs@.len(),
            forall|j: int| 0 <= j < i ==> !spec_recipient_email_is_empty(#[trigger] rs@[j]),
        decreases rs@.len() - i,
    {
        if recipient_email_is_empty(&rs[i]) {
            return true;
        }
        i = i + 1;
    }
    false
}

/// The number of bytes that base64's standard engine decodes from `content`,
/// or `None` where `content` is not valid standard, padded base64.
pub uninterp spec fn base64_decoded_size(content: Seq<char>) -> Option<u64>;

/// Streams `content` through `base64::read::DecoderReader` (standard alphabet,
/// canonical padding) into `std::io::sink` with `std::io::copy`, and keeps the
/// byte count, or `None` where decoding fails. The contract claims only that
/// the result is a function of the text; which texts decode, and to how many
/// bytes, is left to the crate.
#[verifier::external_body]
fn decoded_attachment_size(content: &str) -> (r: Option<u64>)
    ensures
        r == base64_decoded_size(content@),
{
    let mut decoder = base64::read::DecoderReader::new(
        content.as_bytes(),
        &base64::engine::general_purpose::STANDARD,
    );
    std::io::copy(&mut decoder, &mut std::io::sink()).ok()
}

/// Admitting one attachment whose decoded size is `size` (`None`: not valid
/// base64) into a running total: the new total, or the message of the rule it
/// breaks. The total adds with saturation.
pub open spec fn spec_admit_attachment(total: u64, size: Option<u64>) -> Result<u64, Seq<char>> {
    match size {
        None => Err(ATTACHMENT_BASE64_MESSAGE@),
        Some(n) => if n > MAX_SEND_ATTACHMENT_BYTES {
            Err(ATTACHMENT_TOO_LARGE_MESSAGE@)
        } else {
            let t: u64 = if total + n > u64::MAX {
                u64::MAX
            } else {
                (total + n) as u64
            };
            if t > MAX_SEND_TOTAL_ATTACHMENT_BYTES {
                Err(ATTACHMENTS_TOO_LARGE_MESSAGE@)
            } else {
                Ok(t)
            }
        },
    }
}

/// One step of the attachment budget: the new running total, or a 400
/// `invalid_compose` naming the rule the attachment breaks.
pub fn admit_attachment_size(total: u64, size: Option<u64>) -> (r: Result<u64, ApiError>)
    ensures
        match spec_admit_attachment(total, size) {
            Ok(t) => r matches Ok(v) && v == t,
            Err(m) => check_outcome(r, compose_error(m)),
        },
{
    match size {
        None => Err(bad_request(ApiErrorCode::InvalidCompose, ATTACHMENT_BASE64_MESSAGE)),
        Some(n) => {
            if n > MAX_SEND_ATTACHMENT_BYTES {
                return Err(bad_request(ApiErrorCode::InvalidCompose, ATTACHMENT_TOO_LARGE_MESSAGE));
            }
            let t = total.saturating_add(n);
            if t > MAX_SEND_TOTAL_ATTACHMENT_BYTES {
                return Err(
                    bad_request(ApiErrorCode::InvalidCompose, ATTACHMENTS_TOO_LARGE_MESSAGE),
                );
            }
            Ok(t)
        },
    }
}

/// The first attachment rule broken from attachment `i` on, with `total`
/// decoded bytes admitted before it: a blank filename, then the budget.
pub open spec fn spec_attachments_check(
    atts: Seq<OutgoingAttachment>,
    i: int,
    total: u64,
) -> Option<(ApiErrorCode, Seq<char>)>
    decreases atts.len() - i,
{
    if i < 0 || i >= atts.len() {
        None
    } else if spec_is_blank(atts[i].filename@) {
        compose_error(ATTACHMENT_FILENAME_MESSAGE@)
    } else {
        match spec_admit_attachment(total, base64_decoded_size(spec_trim(atts[i].content_base64@))) {
            Err(m) => compose_error(m),
            Ok(t) => spec_attachments_check(atts, i + 1, t),
        }
    }
}

/// The first header rule a send request breaks, in the order they are tried.
pub open spec fn spec_send_header_check(req: SendMessageRequest) -> Option<(ApiErrorCode, Seq<char>)> {
    if spec_sender_is_empty(req.from) {
        compose_error(SENDER_EMPTY_MESSAGE@)
    } else if req.to@.len() == 0 {
        compose_error(TO_REQUIRED_MESSAGE@)
    } else if spec_is_blank(req.subject@) {
        compose_error(SUBJECT_REQUIRED_MESSAGE@)
    } else if spec_is_blank(req.body@) {
        compose_error(BODY_REQUIRED_MESSAGE@)
    } else if spec_any_empty_recipient(req.to@) || spec_any_empty_recipient(req.cc@)
        || spec_any_empty_recipient(req.bcc@) {
        compose_error(RECIPIENT_EMPTY_MESSAGE@)
    } else if req.attachments@.len() > MAX_SEND_ATTACHMENTS {
        compose_error(TOO_MANY_ATTACHMENTS_MESSAGE@)
    } else {
        None
    }
}

/// The first rule a send request breaks, if any.
pub open spec fn spec_send_check(req: SendMessageRequest) -> Option<(ApiErrorCode, Seq<char>)> {
    match spec_send_header_check(req) {
        Some(e) => Some(e),
        None => spec_attachments_check(req.attachments@, 0, 0),
    }
}

/// The decoded size of an attachment's (trimmed) base64 content, when it is
/// valid base64.
pub open spec fn spec_attachment_size(a: OutgoingAttachment) -> Option<u64> {
    base64_decoded_size(spec_trim(a.content_base64@))
}

/// An attachment on its own is acceptable: it is named, its content is
/// valid base64, and it decodes to at most 10 MiB.
pub open spec fn spec_attachment_acceptable(a: OutgoingAttachment) -> bool {
    &&& !spec_is_blank(a.filename@)
    &&& spec_attachment_size(a) is Some
    &&& spec_attachment_size(a)->0 <= 10 * 1024 * 1024
}

/// The decoded sizes of the attachments from `i` on, added up.
pub open spec fn spec_sizes_from(atts: Seq<OutgoingAttachment>, i: int) -> nat
    decreases atts.len() - i,
{
    if i < 0 || i >= atts.len() {
        0
    } else {
        (match spec_attachment_size(atts[i]) {
            Some(n) => n as nat,
            None => 0,
        }) + spec_sizes_from(atts, i + 1)
    }
}

proof fn lemma_attachments_accepted_from(atts: Seq<OutgoingAttachment>, i: int, total: u64)
    requires
        0 <= i <= atts.len(),
        total <= 25 * 1024 * 1024,
    ensures
        spec_attachments_check(atts, i, total) is None <==> (forall|k: int|
            i <= k < atts.len() ==> spec_attachment_acceptable(#[trigger] atts[k])) && total
            + spec_sizes_from(atts, i) <= 25 * 1024 * 1024,
    decreases atts.len() - i,
{
    if i < atts.len() {
        let a = atts[i];
        match spec_attachment_size(a) {
            Some(n) => {
                if !spec_is_blank(a.filename@) && n <= MAX_SEND_ATTACHMENT_BYTES {
                    let t = (total + n) as u64;
                    assert(total + n <= u64::MAX);
                    if t <= MAX_SEND_TOTAL_ATTACHMENT_BYTES {
                        lemma_attachments_accepted_from(atts, i + 1, t);
                    }
                }
            },
            None => {},
        }
        if !spec_attachment_acceptable(a) {
            assert(!(forall|k: int| i <= k < atts.len() ==> spec_attachment_acceptable(#[trigger] atts[k])));
        }
    }
}

/// The attachments of a send are accepted exactly when each is acceptable
/// on its own (named, valid base64, at most 10 MiB decoded) and together
/// they decode to at most 25 MiB.
pub proof fn law_attachments_accepted(atts: Seq<OutgoingAttachment>)
    ensures
        spec_attachments_check(atts, 0, 0) is None <==> (forall|k: int|
            0 <= k < atts.len() ==> spec_attachment_acceptable(#[trigger] atts[k]))
            && spec_sizes_from(atts, 0) <= 25 * 1024 * 1024,
{
    lemma_attachments_accepted_from(atts, 0, 0);
}

/// Some address of `rs` is blank.
pub open spec fn spec_has_blank_address(rs: Seq<Recipient>) -> bool {
    exists|i: int| 0 <= i < rs.len() && spec_is_blank((#[trigger] rs[i]).email@)
}

/// The header rules of a send, in the order they are checked: a given
/// sender must have an address; there must be a `To` recipient; subject and
/// body must not be blank; no `To`, `Cc` or `Bcc` address may be blank;
/// there may be at most ten attachments. The first rule broken refuses the
/// request with `invalid_compose` and its message; a request breaking none
/// goes on to the attachment checks.
pub proof fn law_send_header_rules(req: SendMessageRequest)
    ensures
        ({
            let sender_blank = req.from is Some && spec_is_blank(req.from->0.email@);
            let blank_address = spec_has_blank_address(req.to@) || spec_has_blank_address(req.cc@)
                || spec_has_blank_address(req.bcc@);
            let r = spec_send_check(req);
            let refused = |m: Seq<char>| r == Some((ApiErrorCode::InvalidCompose, m));
            &&& sender_blank ==> refused(SENDER_EMPTY_MESSAGE@)
            &&& !sender_blank && req.to@.len() == 0 ==> refused(TO_REQUIRED_MESSAGE@)
            &&& !sender_blank && req.to@.len() > 0 && spec_is_blank(req.subject@) ==> refused(
                SUBJECT_REQUIRED_MESSAGE@,
            )
            &&& !sender_blank && req.to@.len() > 0 && !spec_is_blank(req.subject@) && spec_is_blank(
                req.body@,
            ) ==> refused(BODY_REQUIRED_MESSAGE@)
            &&& !sender_blank && req.to@.len() > 0 && !spec_is_blank(req.subject@) && !spec_is_blank(
                req.body@,
            ) && blank_address ==> refused(RECIPIENT_EMPTY_MESSAGE@)
            &&& !sender_blank && req.to@.len() > 0 && !spec_is_blank(req.subject@) && !spec_is_blank(
                req.body@,
            ) && !blank_address && req.attachments@.len() > 10 ==> refused(
                TOO_MANY_ATTACHMENTS_MESSAGE@,
            )
            &&& !sender_blank && req.to@.len() > 0 && !spec_is_blank(req.subject@) && !spec_is_blank(
                req.body@,
            ) && !blank_address && req.attachments@.len() <= 10 ==> r == spec_attachments_check(
                req.attachments@,
                0,
                0,
            )
        }),
{
    assert(spec_has_blank_address(req.to@) == spec_any_empty_recipient(req.to@));
    assert(spec_has_blank_address(req.cc@) == spec_any_empty_recipient(req.cc@));
    assert(spec_has_blank_address(req.bcc@) == spec_any_empty_recipient(req.bcc@));
}

/// Check a send request: a non-empty sender when one is given, at least one
/// `To`, a subject and a body, no empty recipient address, at most ten
/// attachments, each named and valid base64 of at most 10 MiB, 25 MiB in all.
pub fn validate_send_message_request(request: &SendMessageRequest) -> (r: Result<(), ApiError>)
    ensures
        check_outcome(r, spec_send_check(*request)),
{
    let sender_empty = match &request.from {
        Some(f) => recipient_email_is_empty(f),
        None => false,
    };
    if sender_empty {
        return Err(bad_request(ApiErrorCode::InvalidCompose, SENDER_EMPTY_MESSAGE));
    }
    if request.to.len() == 0 {
        return Err(bad_request(ApiErrorCode::InvalidCompose, TO_REQUIRED_MESSAGE));
    }
    if is_blank(request.subject.as_str()) {
        return Err(bad_request(ApiErrorCode::InvalidCompose, SUBJECT_REQUIRED_MESSAGE));
    }
    if is_blank(request.body.as_str()) {
        return Err(bad_request(ApiErrorCode::InvalidCompose, BODY_REQUIRED_MESSAGE));
    }
    if any_empty_recipient(&request.to) || any_empty_recipient(&request.cc) || any_empty_recipient(
        &request.bcc,
    ) {
        return Err(bad_request(ApiErrorCode::InvalidCompose, RECIPIENT_EMPTY_MESSAGE));
    }
    if request.attachments.len() > MAX_SEND_ATTACHMENTS {
        return Err(bad_request(ApiErrorCode::InvalidCompose, TOO_MANY_ATTACHMENTS_MESSAGE));
    }
    let mut total: u64 = 0;
    let mut i: usize = 0;
    while i < request.attachments.len()
        invariant
            i <= request.attachments@.len(),
            spec_send_header_check(*request) is None,
            spec_send_check(*request) == spec_attachments_check(
                request.attachments@,
                i as int,
                total,
            ),
        decreases request.attachments@.len() - i,
    {
        let attachment = &request.attachments[i];
        if is_blank(attachment.filename.as_str()) {
            return Err(bad_request(ApiErrorCode::InvalidCompose, ATTACHMENT_FILENAME_MESSAGE));
        }
        let size = decoded_attachment_size(trim_str(attachment.content_base64.as_str()));
        match admit_attachment_size(total, size) {
            Err(e) => {
                return Err(e);
            },
            Ok(t) => {
                total = t;
            },
        }
        i = i + 1;
    }
    Ok(())
}

/// A draft may be incomplete, but a sender it names must have an address.
pub fn validate_save_draft_request(request: &SaveDraftRequest) -> (r: Result<(), ApiError>)
    ensures
        check_outcome(
            r,
            if spec_sender_is_empty(request.message.from) {
                compose_error(SENDER_EMPTY_MESSAGE@)
            } else {
                None
            },
        ),
{
    let sender_empty = match &request.message.from {
        Some(f) => recipient_email_is_empty(f),
        None => false,
    };
    if sender_empty {
        return Err(bad_request(ApiErrorCode::InvalidCompose, SENDER_EMPTY_MESSAGE));
    }
    Ok(())
}

} // verus!
