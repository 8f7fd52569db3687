//! Message detail: a conversation's query and subject, inline `cid:` URLs
//! rewritten to attachment endpoints, and the headers a resource is served
//! with.
use vstd::prelude::*;

use crate::errors::{internal_error, owned, ApiError, ApiErrorCode, INTERNAL_SERVER_ERROR, NOT_FOUND};
use crate::ledger::concat;
use crate::views::{MailPresentation, MailQueryRequest, SortDirection};
use crate::json::write_raw;

use crate::text::{
    append_chars, chars_of, replace_chars, spec_replace, spec_trim, spec_trim_end_char,
    spec_trim_start_char, string_of, trim_chars, trim_end_char, trim_start_char,
};

verus! {

/// An attachment of a stored message.
#[derive(Debug)]
pub struct MessageAttachment {
    pub id: String,
    pub blob_id: String,
    pub part_id: Option<String>,
    pub filename: Option<String>,
    pub mime_type: String,
    pub size: u64,
    pub disposition: Option<String>,
    pub cid: Option<String>,
    pub is_inline: bool,
}

/// A content id without surrounding whitespace and angle brackets.
pub open spec fn spec_normalize_cid(cid: Seq<char>) -> Seq<char> {
    spec_trim_end_char(spec_trim_start_char(spec_trim(cid), '<'), '>')
}

/// The URL of attachment `attachment_id` of a message.
pub open spec fn spec_attachment_url(
    source_id: Seq<char>,
    message_id: Seq<char>,
    attachment_id: Seq<char>,
) -> Seq<char> {
    "/v1/sources/"@ + source_id + "/messages/"@ + message_id + "/attachments/"@ + attachment_id
}

/// `html` with the `cid:` references of one inline attachment, bare or in
/// angle brackets, pointing at the attachment's URL.
pub open spec fn spec_rewrite_one(
    html: Seq<char>,
    source_id: Seq<char>,
    message_id: Seq<char>,
    a: MessageAttachment,
) -> Seq<char> {
    match a.cid {
        Some(cid) => if a.is_inline {
            let n = spec_normalize_cid(cid@);
            let url = spec_attachment_url(source_id, message_id, a.id@);
            spec_replace(spec_replace(html, "cid:"@ + n, url), "cid:<"@ + n + ">"@, url)
        } else {
            html
        },
        None => html,
    }
}

/// `html` rewritten for each attachment in turn.
pub open spec fn spec_rewrite_inline(
    html: Seq<char>,
    source_id: Seq<char>,
    message_id: Seq<char>,
    atts: Seq<MessageAttachment>,
) -> Seq<char>
    decreases atts.len(),
{
    if atts.len() == 0 {
        html
    } else {
        spec_rewrite_one(
            spec_rewrite_inline(html, source_id, message_id, atts.drop_last()),
            source_id,
            message_id,
            atts.last(),
        )
    }
}

fn rewrite_one(html: Vec<char>, source_id: &str, message_id: &str, a: &MessageAttachment) -> (r:
    Vec<char>)
    ensures
        r@ == spec_rewrite_one(html@, source_id@, message_id@, *a),
{
    if !a.is_inline {
        return html;
    }
    let cid = match &a.cid {
        Some(c) => c,
        None => {
            return html;
        },
    };
    let c = chars_of(cid.as_str());
    let t = trim_chars(c.as_slice());
    let s = trim_start_char(t.as_slice(), '<');
    let n = trim_end_char(s.as_slice(), '>');
    let mut url = chars_of("/v1/sources/");
    append_chars(&mut url, chars_of(source_id).as_slice());
    append_chars(&mut url, chars_of("/messages/").as_slice());
    append_chars(&mut url, chars_of(message_id).as_slice());
    append_chars(&mut url, chars_of("/attachments/").as_slice());
    append_chars(&mut url, chars_of(a.id.as_str()).as_slice());
    let mut bare = chars_of("cid:");
    append_chars(&mut bare, n.as_slice());
    let mut bracketed = chars_of("cid:<");
    append_chars(&mut bracketed, n.as_slice());
    append_chars(&mut bracketed, chars_of(">").as_slice());
    proof {
        reveal_strlit("cid:");
        reveal_strlit("cid:<");
    }
    let once = replace_chars(html.as_slice(), bare.as_slice(), url.as_slice());
    replace_chars(once.as_slice(), bracketed.as_slice(), url.as_slice())
}

/// Point the `cid:` references of `html` at the attachment endpoint of each
/// inline attachment that has a content id.
pub fn rewrite_inline_attachment_urls(
    html: &str,
    source_id: &str,
    message_id: &str,
    attachments: &[MessageAttachment],
) -> (r: String)
    ensures
        r@ == spec_rewrite_inline(html@, source_id@, message_id@, attachments@),
{
    let mut rewritten = chars_of(html);
    let mut i: usize = 0;
    assert(attachments@.subrange(0, 0) =~= Seq::<MessageAttachment>::empty());
    while i < attachments.len()
        invariant
            i <= attachments@.len(),
            rewritten@ == spec_rewrite_inline(
                html@,
                source_id@,
                message_id@,
                attachments@.subrange(0, i as int),
            ),
        decreases attachments@.len() - i,
    {
        assert(attachments@.subrange(0, i + 1).drop_last() =~= attachments@.subrange(0, i as int));
        rewritten = rewrite_one(rewritten, source_id, message_id, &attachments[i]);
        i = i + 1;
    }
    assert(attachments@.subrange(0, attachments@.len() as int) =~= attachments@);
    string_of(rewritten.as_slice())
}

/// Which lazy resource of a message is served.
#[derive(Debug)]
pub enum MessageResourceKind {
    Attachment(String),
    BodyHtml,
    BodyText,
}

/// The bytes of a message resource as the runtime hands them out.
#[derive(Debug)]
pub struct RuntimeResourceBytes {
    pub bytes: Vec<u8>,
    pub content_type: String,
    pub filename: Option<String>,
    pub inline_attachments: Vec<MessageAttachment>,
}

/// What `String::from_utf8_lossy` makes of `bytes`.
pub uninterp spec fn utf8_lossy(bytes: Seq<u8>) -> Seq<char>;

/// `String::from_utf8_lossy(bytes)` as an owned string: the text `bytes`
/// encode, invalid sequences replaced by U+FFFD. Its result is named, a
/// function of the bytes alone.
#[verifier::external_body]
fn from_utf8_lossy(bytes: &[u8]) -> (r: String)
    ensures
        r@ == utf8_lossy(bytes@),
{
    String::from_utf8_lossy(bytes).into_owned()
}

fn bytes_of(s: &str) -> (r: Vec<u8>)
    ensures
        r@ == vstd::utf8::encode_utf8(s@),
{
    let b = s.as_bytes();
    let mut r: Vec<u8> = Vec::new();
    let mut i: usize = 0;
    while i < b.len()
        invariant
            i <= b@.len(),
            r@ == b@.subrange(0, i as int),
        decreases b@.len() - i,
    {
        r.push(b[i]);
        i = i + 1;
    }
    assert(b@.subrange(0, b@.len() as int) =~= b@);
    r
}

/// The served form of a resource: a body's HTML decoded (lossily) as UTF-8,
/// sanitized, then its inline `cid:` URLs pointed at the attachment
/// endpoint; every other resource verbatim.
pub fn apply_resource_transform<S: Fn(&str) -> String>(
    sanitize: &S,
    source_id: &str,
    message_id: &str,
    kind: &MessageResourceKind,
    resource: RuntimeResourceBytes,
) -> (r: RuntimeResourceBytes)
    requires
        forall|h: &str| #[trigger] sanitize.requires((h,)),
    ensures
        r.content_type == resource.content_type,
        r.filename == resource.filename,
        r.inline_attachments == resource.inline_attachments,
        match kind {
            MessageResourceKind::BodyHtml => exists|html: &str, clean: String|
                #![trigger sanitize.ensures((html,), clean)]
                html@ == utf8_lossy(resource.bytes@) && sanitize.ensures((html,), clean) && r.bytes@
                    == vstd::utf8::encode_utf8(
                    spec_rewrite_inline(
                        clean@,
                        source_id@,
                        message_id@,
                        resource.inline_attachments@,
                    ),
                ),
            _ => r.bytes == resource.bytes,
        },
{
    match kind {
        MessageResourceKind::BodyHtml => {
            let html_text = from_utf8_lossy(resource.bytes.as_slice());
            let html = html_text.as_str();
            let clean = sanitize(html);
            let rewritten = rewrite_inline_attachment_urls(
                clean.as_str(),
                source_id,
                message_id,
                resource.inline_attachments.as_slice(),
            );
            let bytes = bytes_of(rewritten.as_str());
            assert(sanitize.ensures((html,), clean));
            RuntimeResourceBytes { bytes, ..resource }
        },
        _ => resource,
    }
}

/// A filename character as it may stand inside a quoted header parameter.
pub open spec fn spec_escape_filename_char(c: char) -> char {
    if c == '\\' {
        '_'
    } else if c == '"' {
        '\''
    } else {
        c
    }
}

/// `filename` with backslashes made `_` and double quotes made `'`.
pub fn escape_content_disposition_filename(filename: &str) -> (r: String)
    ensures
        r@ == filename@.map_values(|c: char| spec_escape_filename_char(c)),
{
    let v = chars_of(filename);
    let mut out: Vec<char> = Vec::new();
    let mut i: usize = 0;
    while i < v.len()
        invariant
            i <= v@.len(),
            v@ == filename@,
            out@ =~= v@.subrange(0, i as int).map_values(|c: char| spec_escape_filename_char(c)),
        decreases v@.len() - i,
    {
        let c = v[i];
        let e = if c == '\\' {
            '_'
        } else if c == '"' {
            '\''
        } else {
            c
        };
        out.push(e);
        i = i + 1;
    }
    assert(v@.subrange(0, v@.len() as int) =~= v@);
    string_of(out.as_slice())
}

/// A byte an HTTP header value may hold: a tab, or any byte from space up
/// but DEL.
pub open spec fn spec_header_byte_ok(b: u8) -> bool {
    b == 9 || (b >= 32 && b != 127)
}

/// Whether `s` can stand as an HTTP header value: each byte of its UTF-8
/// encoding may.
pub open spec fn spec_header_value_ok(s: Seq<char>) -> bool {
    forall|i: int|
        0 <= i < vstd::utf8::encode_utf8(s).len() ==> spec_header_byte_ok(
            #[trigger] vstd::utf8::encode_utf8(s)[i],
        )
}

fn header_value_ok(s: &str) -> (r: bool)
    ensures
        r == spec_header_value_ok(s@),
{
    let bytes = s.as_bytes();
    let mut i: usize = 0;
    while i < bytes.len()
        invariant
            bytes@ == vstd::utf8::encode_utf8(s@),
            i <= bytes@.len(),
            forall|j: int| 0 <= j < i ==> spec_header_byte_ok(#[trigger] bytes@[j]),
        decreases bytes@.len() - i,
    {
        let b = bytes[i];
        if !(b == 9 || (b >= 32 && b != 127)) {
            return false;
        }
        i = i + 1;
    }
    true
}

pub const OCTET_STREAM: &'static str = "application/octet-stream";

pub const DEFAULT_RESOURCE_NAME: &'static str = "resource";

pub const RESOURCE_CACHE_CONTROL: &'static str = "private, max-age=300";

pub const INVALID_DISPOSITION_MESSAGE: &'static str = "invalid content disposition header";

pub const DISPOSITION_ATTACHMENT: &'static str = "attachment";

pub const DISPOSITION_INLINE: &'static str = "inline";

pub const FILENAME_PARAM: &'static str = "; filename=\"";

/// The headers a message resource is served with.
#[derive(Debug)]
pub struct ResourceHeaders {
    pub content_type: String,
    pub content_disposition: String,
    pub cache_control: String,
}

/// The `Content-Disposition` of a resource named `filename` (`resource`
/// when unnamed), as a download or inline.
pub open spec fn spec_disposition(filename: Option<Seq<char>>, download: bool) -> Seq<char> {
    let name = match filename {
        Some(f) => f,
        None => DEFAULT_RESOURCE_NAME@,
    };
    (if download {
        DISPOSITION_ATTACHMENT@
    } else {
        DISPOSITION_INLINE@
    }) + FILENAME_PARAM@ + name.map_values(|c: char| spec_escape_filename_char(c)) + seq!['"']
}

/// The headers of a resource of `content_type` named `filename`: its
/// content type (`application/octet-stream` when that is no valid header
/// value), its disposition, and a private five-minute cache. A disposition
/// that is no valid header value is an internal error.
pub fn resource_headers(content_type: &str, filename: Option<&str>, download: bool) -> (r: Result<
    ResourceHeaders,
    ApiError,
>)
    ensures
        ({
            let d = spec_disposition(
                match filename {
                    Some(f) => Some(f@),
                    None => None,
                },
                download,
            );
            if spec_header_value_ok(d) {
                r matches Ok(h) && h.content_disposition@ == d && h.cache_control@
                    == RESOURCE_CACHE_CONTROL@ && h.content_type@ == if spec_header_value_ok(
                    content_type@,
                ) {
                    content_type@
                } else {
                    OCTET_STREAM@
                }
            } else {
                r matches Err(e) && e.status == INTERNAL_SERVER_ERROR && e.body.code
                    == ApiErrorCode::InternalError && e.body.message@ == INVALID_DISPOSITION_MESSAGE@
            }
        }),
{
    let name = match filename {
        Some(f) => f,
        None => DEFAULT_RESOURCE_NAME,
    };
    let mut disposition: Vec<char> = Vec::new();
    if download {
        write_raw(&mut disposition, DISPOSITION_ATTACHMENT);
    } else {
        write_raw(&mut disposition, DISPOSITION_INLINE);
    }
    write_raw(&mut disposition, FILENAME_PARAM);
    let escaped = escape_content_disposition_filename(name);
    write_raw(&mut disposition, escaped.as_str());
    disposition.push('"');
    let disposition = string_of(disposition.as_slice());
    proof {
        assert(disposition@ =~= spec_disposition(
            match filename {
                Some(f) => Some(f@),
                None => None,
            },
            download,
        ));
    }
    if !header_value_ok(disposition.as_str()) {
        return Err(internal_error(owned(INVALID_DISPOSITION_MESSAGE)));
    }
    let content_type = if header_value_ok(content_type) {
        owned(content_type)
    } else {
        owned(OCTET_STREAM)
    };
    Ok(
        ResourceHeaders {
            content_type,
            content_disposition: disposition,
            cache_control: owned(RESOURCE_CACHE_CONTROL),
        },
    )
}

pub const CONVERSATION_QUERY_PREFIX: &'static str = "conversation:";

pub const DATE_SORT_FIELD: &'static str = "date";

pub const CONVERSATION_NOT_FOUND_MESSAGE: &'static str = "conversation not found";

/// The query that reads a whole conversation: every message of it, oldest
/// first.
pub fn conversation_query(conversation_id: &str) -> (r: MailQueryRequest)
    ensures
        r.query@ == CONVERSATION_QUERY_PREFIX@ + conversation_id@,
        r.visibility is None,
        r.presentation matches MailPresentation::Messages { limit, cursor, sort_field, sort_direction }
            && limit is None && cursor is None && sort_field@ == DATE_SORT_FIELD@ && sort_direction
            == SortDirection::Asc,
{
    MailQueryRequest {
        query: concat(CONVERSATION_QUERY_PREFIX, conversation_id),
        presentation: MailPresentation::Messages {
            limit: None,
            cursor: None,
            sort_field: owned(DATE_SORT_FIELD),
            sort_direction: SortDirection::Asc,
        },
        visibility: None,
    }
}

/// The first subject of `subjects` that is present, if any.
pub open spec fn spec_first_subject(subjects: Seq<Option<String>>) -> Option<String>
    decreases subjects.len(),
{
    if subjects.len() == 0 {
        None
    } else if subjects[0] is Some {
        subjects[0]
    } else {
        spec_first_subject(subjects.drop_first())
    }
}

/// The subject of a conversation whose messages (oldest first) have
/// `subjects`: the newest message's, else the first one present. A
/// conversation without messages is not found.
pub fn conversation_subject(subjects: &Vec<Option<String>>) -> (r: Result<Option<String>, ApiError>)
    ensures
        subjects@.len() == 0 ==> (r matches Err(e) && e.status == NOT_FOUND && e.body.code
            == ApiErrorCode::NotFound && e.body.message@ == CONVERSATION_NOT_FOUND_MESSAGE@),
        subjects@.len() > 0 ==> (r matches Ok(s) && s == if subjects@.last() is Some {
            subjects@.last()
        } else {
            spec_first_subject(subjects@)
        }),
{
    let n = subjects.len();
    if n == 0 {
        return Err(
            ApiError::new(NOT_FOUND, ApiErrorCode::NotFound, owned(CONVERSATION_NOT_FOUND_MESSAGE)),
        );
    }
    if let Some(s) = &subjects[n - 1] {
        return Ok(Some(s.clone()));
    }
    let mut i: usize = 0;
    assert(subjects@.skip(0) =~= subjects@);
    while i < n
        invariant
            n == subjects@.len(),
            n > 0,
            subjects@.last() is None,
            i <= n,
            forall|j: int| 0 <= j < i ==> (#[trigger] subjects@[j]) is None,
            spec_first_subject(subjects@) == spec_first_subject(subjects@.skip(i as int)),
        decreases n - i,
    {
        proof {
            assert(subjects@.skip(i as int).drop_first() =~= subjects@.skip(i + 1));
            assert(subjects@.skip(i as int)[0] == subjects@[i as int]);
        }
        if let Some(s) = &subjects[i] {
            return Ok(Some(s.clone()));
        }
        i = i + 1;
    }
    proof {
        assert(subjects@.skip(n as int) =~= Seq::<Option<String>>::empty());
    }
    Ok(None)
}

} // verus!
