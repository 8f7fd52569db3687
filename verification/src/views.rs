//! Runtime views: what a view is, which domain events make it recompute, which
//! callers may open it, and how an extend grows its window.
use vstd::prelude::*;

use crate::domain::{
    DomainEvent, EVENT_TOPIC_ACCOUNT_CREATED, EVENT_TOPIC_ACCOUNT_DELETED,
    EVENT_TOPIC_ACCOUNT_STATUS_CHANGED, EVENT_TOPIC_ACCOUNT_UPDATED, EVENT_TOPIC_MESSAGE_UPDATED,
    EVENT_TOPIC_REV_LOG_APPENDED,
};
use crate::errors::{RuntimeError, RuntimeErrorCode, Terminality};
use crate::json::{json_pointer_is_true, json_true_at};
use crate::ledger::concat;
use crate::text::{
    chars_eq, chars_of, find_char_from, is_whitespace, lemma_find_char_bound, matches_at,
    slice_chars, spec_find_char, spec_is_whitespace, spec_trim_start_char, str_eq, trim_start_char,
};

verus! {

/// Sort direction of a message listing.
#[derive(Clone, Copy, Debug, PartialEq, Eq, Structural)]
pub enum SortDirection {
    Asc,
    Desc,
}

/// How a mail query presents its result, with the window it asks for.
#[derive(Debug)]
#[allow(inconsistent_fields)]
pub enum MailPresentation {
    Messages {
        limit: Option<usize>,
        cursor: Option<String>,
        sort_field: String,
        sort_direction: SortDirection,
    },
    CollapsedByConversation {
        limit: usize,
        cursor: Option<String>,
        sort_field: String,
        sort_direction: SortDirection,
    },
}

/// A mail query: the search text and its presentation.
#[derive(Debug)]
pub struct MailQueryRequest {
    pub query: String,
    pub presentation: MailPresentation,
    pub visibility: Option<String>,
}

impl MailPresentation {
    pub fn duplicate(&self) -> (r: Self)
        ensures
            r == *self,
    {
        match self {
            MailPresentation::Messages { limit, cursor, sort_field, sort_direction } => {
                MailPresentation::Messages {
                    limit: *limit,
                    cursor: crate::domain::dup_opt_string(cursor),
                    sort_field: sort_field.clone(),
                    sort_direction: *sort_direction,
                }
            },
            MailPresentation::CollapsedByConversation { limit, cursor, sort_field, sort_direction } => {
                MailPresentation::CollapsedByConversation {
                    limit: *limit,
                    cursor: crate::domain::dup_opt_string(cursor),
                    sort_field: sort_field.clone(),
                    sort_direction: *sort_direction,
                }
            },
        }
    }
}

impl MailQueryRequest {
    pub fn duplicate(&self) -> (r: Self)
        ensures
            r == *self,
    {
        MailQueryRequest {
            query: self.query.clone(),
            presentation: self.presentation.duplicate(),
            visibility: crate::domain::dup_opt_string(&self.visibility),
        }
    }
}

/// The family-specific identity of a runtime view.
#[derive(Debug)]
#[allow(inconsistent_fields)]
pub enum ViewKind {
    MailList(MailQueryRequest),
    MessageDetail { source_id: String, message_id: String },
    Conversation { conversation_id: String },
    /// `None`: every account; `Some`: one account.
    AccountStatus { account_id: Option<String> },
    RevLog { account_id: String },
}

/// The view families a descriptor may name.
#[derive(Clone, Copy, Debug, PartialEq, Eq, Structural)]
pub enum ViewFamily {
    MailList,
    MessageDetail,
    Conversation,
    AccountStatus,
    RevLog,
}

pub open spec fn spec_view_family(family: Seq<char>) -> Option<ViewFamily> {
    if family == "mailList"@ {
        Some(ViewFamily::MailList)
    } else if family == "messageDetail"@ {
        Some(ViewFamily::MessageDetail)
    } else if family == "conversation"@ {
        Some(ViewFamily::Conversation)
    } else if family == "accountStatus"@ {
        Some(ViewFamily::AccountStatus)
    } else if family == "revLog"@ {
        Some(ViewFamily::RevLog)
    } else {
        None
    }
}

/// The family a descriptor names, or `InvalidDescriptor` naming the
/// unsupported family.
pub fn parse_view_family(family: &str) -> (r: Result<ViewFamily, RuntimeError>)
    ensures
        match spec_view_family(family@) {
            Some(f) => r matches Ok(g) && g == f,
            None => r matches Err(e) && e.0.code == RuntimeErrorCode::InvalidDescriptor
                && e.0.terminality == Terminality::Permanent && e.0.message@
                == "unsupported view family '"@ + family@ + "'"@,
        },
{
    if str_eq(family, "mailList") {
        Ok(ViewFamily::MailList)
    } else if str_eq(family, "messageDetail") {
        Ok(ViewFamily::MessageDetail)
    } else if str_eq(family, "conversation") {
        Ok(ViewFamily::Conversation)
    } else if str_eq(family, "accountStatus") {
        Ok(ViewFamily::AccountStatus)
    } else if str_eq(family, "revLog") {
        Ok(ViewFamily::RevLog)
    } else {
        let head = concat("unsupported view family '", family);
        let message = concat(head.as_str(), "'");
        Err(RuntimeError::new(RuntimeErrorCode::InvalidDescriptor, message))
    }
}

/// The name a descriptor gives family `f`.
pub open spec fn spec_family_name(f: ViewFamily) -> Seq<char> {
    match f {
        ViewFamily::MailList => "mailList"@,
        ViewFamily::MessageDetail => "messageDetail"@,
        ViewFamily::Conversation => "conversation"@,
        ViewFamily::AccountStatus => "accountStatus"@,
        ViewFamily::RevLog => "revLog"@,
    }
}

fn family_name(f: ViewFamily) -> (r: &'static str)
    ensures
        r@ == spec_family_name(f),
{
    match f {
        ViewFamily::MailList => "mailList",
        ViewFamily::MessageDetail => "messageDetail",
        ViewFamily::Conversation => "conversation",
        ViewFamily::AccountStatus => "accountStatus",
        ViewFamily::RevLog => "revLog",
    }
}

/// The error for a descriptor of family `f` whose payload does not parse,
/// carrying the parser's `detail`.
pub fn descriptor_parse_error(f: ViewFamily, detail: &str) -> (r: RuntimeError)
    ensures
        r.0.code == RuntimeErrorCode::InvalidDescriptor,
        r.0.terminality == Terminality::Permanent,
        r.0.message@ == "invalid "@ + spec_family_name(f) + " descriptor: "@ + detail@,
{
    let head = concat("invalid ", family_name(f));
    let mid = concat(head.as_str(), " descriptor: ");
    RuntimeError::new(RuntimeErrorCode::InvalidDescriptor, concat(mid.as_str(), detail))
}

/// What a `message.updated` payload says changed: the `changes.keywords` and
/// `changes.mailboxes` flags, and whether the message was created or deleted.
/// A flag is set when the payload holds `true` there.
#[derive(Clone, Copy, Debug, PartialEq, Eq, Structural)]
pub struct MessageEventFlags {
    pub keywords_changed: bool,
    pub mailboxes_changed: bool,
    pub created: bool,
    pub deleted: bool,
}

/// The change flags of a `message.updated` payload (JSON text).
pub open spec fn spec_message_event_flags(payload: Seq<char>) -> MessageEventFlags {
    MessageEventFlags {
        keywords_changed: json_true_at(payload, "/changes/keywords"@),
        mailboxes_changed: json_true_at(payload, "/changes/mailboxes"@),
        created: json_true_at(payload, "/created"@),
        deleted: json_true_at(payload, "/deleted"@),
    }
}

/// Read the change flags of a `message.updated` payload: each is set when
/// the payload holds `true` at `changes.keywords`, `changes.mailboxes`,
/// `created` and `deleted`.
pub fn message_event_flags(payload: &str) -> (r: MessageEventFlags)
    ensures
        r == spec_message_event_flags(payload@),
{
    MessageEventFlags {
        keywords_changed: json_pointer_is_true(payload, "/changes/keywords"),
        mailboxes_changed: json_pointer_is_true(payload, "/changes/mailboxes"),
        created: json_pointer_is_true(payload, "/created"),
        deleted: json_pointer_is_true(payload, "/deleted"),
    }
}

pub open spec fn spec_message_event_affects_list(flags: MessageEventFlags) -> bool {
    flags.keywords_changed || flags.mailboxes_changed || flags.created || flags.deleted
}

/// Whether a message update can change which rows a mail list shows or their
/// order: a keyword or mailbox-membership change, an arrival, a deletion.
pub fn message_event_affects_list(event: &DomainEvent) -> (r: bool)
    ensures
        r == spec_message_event_affects_list(spec_message_event_flags(event.payload@)),
{
    let flags = message_event_flags(event.payload.as_str());
    flags.keywords_changed || flags.mailboxes_changed || flags.created || flags.deleted
}

pub open spec fn spec_is_account_topic(topic: Seq<char>) -> bool {
    topic == EVENT_TOPIC_ACCOUNT_STATUS_CHANGED@ || topic == EVENT_TOPIC_ACCOUNT_CREATED@ || topic
        == EVENT_TOPIC_ACCOUNT_UPDATED@ || topic == EVENT_TOPIC_ACCOUNT_DELETED@
}

/// Whether `event` makes a view of `kind` recompute.
pub open spec fn spec_event_affects_view(kind: ViewKind, event: DomainEvent) -> bool {
    match kind {
        ViewKind::MailList(_) => event.topic@ == EVENT_TOPIC_MESSAGE_UPDATED@
            && spec_message_event_affects_list(spec_message_event_flags(event.payload@)),
        ViewKind::MessageDetail { source_id, message_id } => event.topic@
            == EVENT_TOPIC_MESSAGE_UPDATED@ && event.account_id@ == source_id@ && (
        event.message_id matches Some(m) && m@ == message_id@),
        ViewKind::Conversation { .. } => event.topic@ == EVENT_TOPIC_MESSAGE_UPDATED@,
        ViewKind::AccountStatus { account_id } => spec_is_account_topic(event.topic@) && (
        account_id matches Some(id) ==> event.account_id@ == id@),
        ViewKind::RevLog { account_id } => event.topic@ == EVENT_TOPIC_REV_LOG_APPENDED@
            && event.account_id@ == account_id@,
    }
}

/// Whether a domain event should trigger a recompute for a view of this kind:
/// mail lists on membership or order changes, a message detail on updates to
/// its message, conversations on any message update, account status on
/// account events (its own, for a one-account view), the revision log on
/// appends for its account.
pub fn event_affects_view(kind: &ViewKind, event: &DomainEvent) -> (r: bool)
    ensures
        r == spec_event_affects_view(*kind, *event),
{
    let message_updated = str_eq(event.topic.as_str(), EVENT_TOPIC_MESSAGE_UPDATED);
    match kind {
        ViewKind::MailList(_) => message_updated && message_event_affects_list(event),
        ViewKind::MessageDetail { source_id, message_id } => {
            message_updated && str_eq(event.account_id.as_str(), source_id.as_str()) && match &event.message_id {
                Some(m) => str_eq(m.as_str(), message_id.as_str()),
                None => false,
            }
        },
        ViewKind::Conversation { .. } => message_updated,
        ViewKind::AccountStatus { account_id } => {
            let topic = event.topic.as_str();
            let is_account_event = str_eq(topic, EVENT_TOPIC_ACCOUNT_STATUS_CHANGED) || str_eq(
                topic,
                EVENT_TOPIC_ACCOUNT_CREATED,
            ) || str_eq(topic, EVENT_TOPIC_ACCOUNT_UPDATED) || str_eq(
                topic,
                EVENT_TOPIC_ACCOUNT_DELETED,
            );
            is_account_event && match account_id {
                Some(id) => str_eq(event.account_id.as_str(), id.as_str()),
                None => true,
            }
        },
        ViewKind::RevLog { account_id } => {
            str_eq(event.topic.as_str(), EVENT_TOPIC_REV_LOG_APPENDED) && str_eq(
                event.account_id.as_str(),
                account_id.as_str(),
            )
        },
    }
}

/// Which events make an open view recompute, kind by kind:
/// - a mail list: a `message.updated` event whose payload says the keywords
///   or mailboxes changed, or the message was created or deleted;
/// - a message detail: a `message.updated` event of its own account and
///   message;
/// - a conversation: every `message.updated` event;
/// - account status: every account event (status changed, created,
///   updated, deleted), of its own account when it names one;
/// - the revision log: a `rev_log.appended` event of its account.
pub proof fn law_view_recompute_triggers(kind: ViewKind, event: DomainEvent)
    ensures
        ({
            let t = event.topic@;
            let p = event.payload@;
            match kind {
                ViewKind::MailList(_) => spec_event_affects_view(kind, event) <==> (t
                    == EVENT_TOPIC_MESSAGE_UPDATED@ && (json_true_at(p, "/changes/keywords"@)
                    || json_true_at(p, "/changes/mailboxes"@) || json_true_at(p, "/created"@)
                    || json_true_at(p, "/deleted"@))),
                ViewKind::MessageDetail { source_id, message_id } => spec_event_affects_view(
                    kind,
                    event,
                ) <==> (t == EVENT_TOPIC_MESSAGE_UPDATED@ && event.account_id@ == source_id@
                    && event.message_id is Some && event.message_id->0@ == message_id@),
                ViewKind::Conversation { .. } => spec_event_affects_view(kind, event) <==> t
                    == EVENT_TOPIC_MESSAGE_UPDATED@,
                ViewKind::AccountStatus { account_id } => spec_event_affects_view(kind, event) <==> ((t
                    == EVENT_TOPIC_ACCOUNT_STATUS_CHANGED@ || t == EVENT_TOPIC_ACCOUNT_CREATED@ || t
                    == EVENT_TOPIC_ACCOUNT_UPDATED@ || t == EVENT_TOPIC_ACCOUNT_DELETED@) && (
                account_id is None || event.account_id@ == account_id->0@)),
                ViewKind::RevLog { account_id } => spec_event_affects_view(kind, event) <==> (t
                    == EVENT_TOPIC_REV_LOG_APPENDED@ && event.account_id@ == account_id@),
            }
        }),
{
}

/// Whether a whitespace-separated query token selects a mailbox of account
/// `source_id`: after leading `!`, then `-`, then `+` signs, an `in:` (or
/// `IN:`) selector of the form `{account}/{mailbox}`.
pub open spec fn spec_token_selects_source(token: Seq<char>, source_id: Seq<char>) -> bool {
    let t = spec_trim_start_char(
        spec_trim_start_char(spec_trim_start_char(token, '!'), '-'),
        '+',
    );
    if t.len() >= 3 && (t.subrange(0, 3) == "in:"@ || t.subrange(0, 3) == "IN:"@) {
        let sel = t.skip(3);
        let k = spec_find_char(sel, '/') as int;
        k < sel.len() && sel.take(k) == source_id
    } else {
        false
    }
}

/// `s[i..j]` is one of the tokens `str::split_whitespace` yields: a maximal
/// run of non-whitespace characters.
pub open spec fn spec_is_token(s: Seq<char>, i: int, j: int) -> bool {
    &&& 0 <= i < j <= s.len()
    &&& i == 0 || spec_is_whitespace(s[i - 1])
    &&& j == s.len() || spec_is_whitespace(s[j])
    &&& forall|k: int| i <= k < j ==> !spec_is_whitespace(#[trigger] s[k])
}

/// Whether some token of the query selects a mailbox of `source_id`.
pub open spec fn spec_query_contains_source_scope(query: Seq<char>, source_id: Seq<char>) -> bool {
    exists|i: int, j: int|
        #![trigger spec_is_token(query, i, j)]
        spec_is_token(query, i, j) && spec_token_selects_source(query.subrange(i, j), source_id)
}

fn token_selects_source(token: &[char], source_id: &[char]) -> (r: bool)
    ensures
        r == spec_token_selects_source(token@, source_id@),
{
    let a = trim_start_char(token, '!');
    let b = trim_start_char(a.as_slice(), '-');
    let t = trim_start_char(b.as_slice(), '+');
    let lower = chars_of("in:");
    let upper = chars_of("IN:");
    proof {
        reveal_strlit("in:");
        reveal_strlit("IN:");
    }
    if !(matches_at(t.as_slice(), 0, lower.as_slice()) || matches_at(
        t.as_slice(),
        0,
        upper.as_slice(),
    )) {
        return false;
    }
    let sel = slice_chars(t.as_slice(), 3, t.len());
    assert(sel@ =~= t@.skip(3));
    let k = find_char_from(sel.as_slice(), 0, '/');
    assert(sel@.subrange(0, sel@.len() as int) =~= sel@);
    if k == sel.len() {
        return false;
    }
    let account = slice_chars(sel.as_slice(), 0, k);
    assert(account@ =~= sel@.take(k as int));
    chars_eq(account.as_slice(), source_id)
}

/// Whether a mail query names a mailbox of `source_id` in one of its
/// whitespace-separated `in:{account}/{mailbox}` selectors.
pub fn mail_query_contains_source_scope(query: &str, source_id: &str) -> (r: bool)
    ensures
        r == spec_query_contains_source_scope(query@, source_id@),
{
    let v = chars_of(query);
    let src = chars_of(source_id);
    let n = v.len();
    let mut pos: usize = 0;
    while pos < n
        invariant
            n == v@.len(),
            v@ == query@,
            src@ == source_id@,
            pos <= n,
            pos == 0 || pos == n || spec_is_whitespace(v@[pos - 1]) || spec_is_whitespace(
                v@[pos as int],
            ),
            forall|i: int, j: int|
                #![trigger spec_is_token(v@, i, j)]
                spec_is_token(v@, i, j) && i < pos ==> !spec_token_selects_source(
                    v@.subrange(i, j),
                    src@,
                ),
        decreases n - pos,
    {
        if is_whitespace(v[pos]) {
            pos = pos + 1;
        } else {
            let start = pos;
            let mut end = pos;
            while end < n && !is_whitespace(v[end])
                invariant
                    n == v@.len(),
                    start <= end <= n,
                    forall|k: int| start <= k < end ==> !spec_is_whitespace(#[trigger] v@[k]),
                decreases n - end,
            {
                end = end + 1;
            }
            let token = slice_chars(v.as_slice(), start, end);
            assert(spec_is_token(v@, start as int, end as int));
            if token_selects_source(token.as_slice(), src.as_slice()) {
                return true;
            }
            proof {
                assert forall|i: int, j: int|
                    #![trigger spec_is_token(v@, i, j)]
                    spec_is_token(v@, i, j) && i < end implies !spec_token_selects_source(
                        v@.subrange(i, j),
                        src@,
                    ) by {
                    if i >= start {
                        if i > start {
                            assert(!spec_is_whitespace(v@[i - 1]));
                        }
                        assert(i == start);
                        if j < end {
                            assert(!spec_is_whitespace(v@[j]));
                        }
                        if j > end {
                            assert(!spec_is_whitespace(v@[end as int]));
                        }
                        assert(j == end);
                    }
                }
            }
            pos = end;
        }
    }
    false
}

/// Whether a view of `kind` lies inside the caller's account scope (no scope:
/// every view; an empty scope: every account).
pub open spec fn spec_kind_in_scope(kind: ViewKind, scope: Seq<String>) -> bool {
    let names = |id: Seq<char>| exists|k: int| 0 <= k < scope.len() && (#[trigger] scope[k])@ == id;
    match kind {
        ViewKind::MailList(request) => scope.len() == 0 || exists|k: int|
            0 <= k < scope.len() && spec_query_contains_source_scope(
                request.query@,
                (#[trigger] scope[k])@,
            ),
        ViewKind::MessageDetail { source_id, .. } => scope.len() == 0 || names(source_id@),
        ViewKind::Conversation { .. } => true,
        ViewKind::AccountStatus { account_id } => match account_id {
            None => true,
            Some(id) => scope.len() == 0 || names(id@),
        },
        ViewKind::RevLog { account_id } => scope.len() == 0 || names(account_id@),
    }
}

pub const OUT_OF_SCOPE_MESSAGE: &'static str =
    "view descriptor is outside the caller account scope";

fn scope_selected_by_query(scope: &Vec<String>, query: &str) -> (r: bool)
    ensures
        r == exists|k: int|
            0 <= k < scope@.len() && spec_query_contains_source_scope(
                query@,
                (#[trigger] scope@[k])@,
            ),
{
    let mut k: usize = 0;
    while k < scope.len()
        invariant
            k <= scope@.len(),
            forall|j: int|
                0 <= j < k ==> !spec_query_contains_source_scope(query@, (#[trigger] scope@[j])@),
        decreases scope@.len() - k,
    {
        if mail_query_contains_source_scope(query, scope[k].as_str()) {
            return true;
        }
        k = k + 1;
    }
    false
}

/// A caller restricted to an account scope may only open views inside it;
/// otherwise `InvalidDescriptor`.
pub fn validate_kind_account_scope(kind: &ViewKind, account_scope: Option<&Vec<String>>) -> (r:
    Result<(), RuntimeError>)
    ensures
        match account_scope {
            None => r is Ok,
            Some(scope) => if spec_kind_in_scope(*kind, scope@) {
                r is Ok
            } else {
                r matches Err(e) && e.0.code == RuntimeErrorCode::InvalidDescriptor
                    && e.0.terminality == Terminality::Permanent && e.0.message@
                    == OUT_OF_SCOPE_MESSAGE@
            },
        },
{
    let scope = match account_scope {
        None => {
            return Ok(());
        },
        Some(s) => s,
    };
    let in_scope = match kind {
        ViewKind::MailList(request) => scope.len() == 0 || scope_selected_by_query(
            scope,
            request.query.as_str(),
        ),
        ViewKind::MessageDetail { source_id, .. } => scope.len() == 0 || crate::text::contains_str(
            scope,
            source_id.as_str(),
        ),
        ViewKind::Conversation { .. } => true,
        ViewKind::AccountStatus { account_id } => match account_id {
            None => true,
            Some(id) => scope.len() == 0 || crate::text::contains_str(scope, id.as_str()),
        },
        ViewKind::RevLog { account_id } => scope.len() == 0 || crate::text::contains_str(
            scope,
            account_id.as_str(),
        ),
    };
    if in_scope {
        return Ok(());
    }
    Err(
        RuntimeError::new(RuntimeErrorCode::InvalidDescriptor, crate::errors::owned(OUT_OF_SCOPE_MESSAGE)),
    )
}

/// `limit + count`, saturating at `usize::MAX`.
pub open spec fn spec_grow(limit: usize, count: usize) -> usize {
    if limit + count > usize::MAX {
        usize::MAX
    } else {
        (limit + count) as usize
    }
}

/// `new` is `old` with its window grown by `count` rows (an absent message
/// limit counting as zero), saturating; nothing else differs.
pub open spec fn spec_window_grown(old: MailQueryRequest, new: MailQueryRequest, count: usize) -> bool {
    &&& new.query == old.query
    &&& new.visibility == old.visibility
    &&& match (old.presentation, new.presentation) {
        (
            MailPresentation::Messages { limit: l0, cursor: c0, sort_field: f0, sort_direction: d0 },
            MailPresentation::Messages { limit: l1, cursor: c1, sort_field: f1, sort_direction: d1 },
        ) => l1 == Some(
            spec_grow(
                match l0 {
                    Some(l) => l,
                    None => 0,
                },
                count,
            ),
        ) && c1 == c0 && f1 == f0 && d1 == d0,
        (
            MailPresentation::CollapsedByConversation {
                limit: l0,
                cursor: c0,
                sort_field: f0,
                sort_direction: d0,
            },
            MailPresentation::CollapsedByConversation {
                limit: l1,
                cursor: c1,
                sort_field: f1,
                sort_direction: d1,
            },
        ) => l1 == spec_grow(l0, count) && c1 == c0 && f1 == f0 && d1 == d0,
        _ => false,
    }
}

/// The row window of a mail query (an absent message limit counting as
/// zero).
pub open spec fn spec_window_limit(r: MailQueryRequest) -> int {
    match r.presentation {
        MailPresentation::Messages { limit, .. } => match limit {
            Some(l) => l as int,
            None => 0,
        },
        MailPresentation::CollapsedByConversation { limit, .. } => limit as int,
    }
}

/// Growing a window adds exactly `count` rows to it, up to the largest
/// `usize`; it never shrinks the window and keeps the presentation's kind.
pub proof fn law_window_grows_by_count(old: MailQueryRequest, new: MailQueryRequest, count: usize)
    requires
        spec_window_grown(old, new, count),
    ensures
        spec_window_limit(new) == if spec_window_limit(old) + count <= usize::MAX {
            spec_window_limit(old) + count
        } else {
            usize::MAX as int
        },
        spec_window_limit(new) >= spec_window_limit(old),
        (old.presentation is Messages) == (new.presentation is Messages),
{
}

/// Grow a mail query's window by `count` rows (an absent message limit counts
/// as zero), saturating; nothing else of the request changes.
pub fn grow_message_window(request: &mut MailQueryRequest, count: usize)
    ensures
        spec_window_grown(*old(request), *final(request), count),
{
    match &mut request.presentation {
        MailPresentation::Messages { limit, .. } => {
            let current = match *limit {
                Some(l) => l,
                None => 0,
            };
            *limit = Some(current.saturating_add(count));
        },
        MailPresentation::CollapsedByConversation { limit, .. } => {
            *limit = (*limit).saturating_add(count);
        },
    }
}

/// The watermark of a view read from the local cache.
#[derive(Debug)]
pub struct ReadWatermark {
    pub value: String,
}

/// A range of held rows in sort order; `None` bounds are the top and bottom.
/// Bounds are the JSON text of a sort key.
#[derive(Debug)]
pub struct CoverageRange {
    pub from: Option<String>,
    pub to: Option<String>,
}

/// The rows a view holds, as ranges of its sort order.
#[derive(Debug)]
pub struct RuntimeCoverage {
    pub ranges: Vec<CoverageRange>,
}

/// The watermark of local reads: `local`.
pub fn local_watermark() -> (r: Option<ReadWatermark>)
    ensures
        r matches Some(w) && w.value@ == "local"@,
{
    Some(ReadWatermark { value: crate::errors::owned("local") })
}

/// Complete coverage: one range from the top to the bottom.
pub fn complete_coverage() -> (r: RuntimeCoverage)
    ensures
        r.ranges@.len() == 1,
        r.ranges@[0].from is None,
        r.ranges@[0].to is None,
{
    let mut ranges: Vec<CoverageRange> = Vec::new();
    ranges.push(CoverageRange { from: None, to: None });
    RuntimeCoverage { ranges }
}

} // verus!
