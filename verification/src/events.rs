//! Declarative resource-change payloads of account and configuration events,
//! and the identifiers generated for new accounts and smart mailboxes.
use vstd::prelude::*;

use crate::appearance::spec_is_ascii_alnum;
use crate::appearance::is_ascii_alnum;
use crate::domain::{
    DomainEvent, StoreError, EVENT_TOPIC_ACCOUNT_CREATED, EVENT_TOPIC_ACCOUNT_DELETED,
};
use crate::json::{spec_json_string, write_json_string, write_raw};
use crate::text::{
    ascii_lower, chars_of, spec_trim_start, is_blank, spec_is_ascii_text, spec_is_blank, spec_trim, spec_trim_char, str_eq, string_of, trim,
    trim_char, trim_chars,
};

verus! {

/// The account id global (non-account) events are recorded under.
pub const GLOBAL_EVENT_ACCOUNT_ID: &'static str = "app";

/// The kind of resource a change names.
#[derive(Clone, Copy, Debug, PartialEq, Eq, Structural)]
pub enum ResourceKind {
    Account,
    AppSettings,
    Config,
    SmartMailbox,
}

/// What happened to the resource.
#[derive(Clone, Copy, Debug, PartialEq, Eq, Structural)]
pub enum ResourceOperation {
    Created,
    Updated,
    Deleted,
    Reset,
    Reloaded,
}

/// One declarative resource-change item of an event payload:
/// `{ kind, operation, id?, accountId? }`.
#[derive(Debug, PartialEq, Eq)]
pub struct ResourceChange {
    pub kind: ResourceKind,
    pub operation: ResourceOperation,
    pub id: Option<String>,
    pub account_id: Option<String>,
}

pub open spec fn spec_kind_name(k: ResourceKind) -> Seq<char> {
    match k {
        ResourceKind::Account => "account"@,
        ResourceKind::AppSettings => "appSettings"@,
        ResourceKind::Config => "config"@,
        ResourceKind::SmartMailbox => "smartMailbox"@,
    }
}

pub open spec fn spec_operation_name(o: ResourceOperation) -> Seq<char> {
    match o {
        ResourceOperation::Created => "created"@,
        ResourceOperation::Updated => "updated"@,
        ResourceOperation::Deleted => "deleted"@,
        ResourceOperation::Reset => "reset"@,
        ResourceOperation::Reloaded => "reloaded"@,
    }
}

fn kind_name(k: ResourceKind) -> (r: &'static str)
    ensures
        r@ == spec_kind_name(k),
{
    match k {
        ResourceKind::Account => "account",
        ResourceKind::AppSettings => "appSettings",
        ResourceKind::Config => "config",
        ResourceKind::SmartMailbox => "smartMailbox",
    }
}

fn operation_name(o: ResourceOperation) -> (r: &'static str)
    ensures
        r@ == spec_operation_name(o),
{
    match o {
        ResourceOperation::Created => "created",
        ResourceOperation::Updated => "updated",
        ResourceOperation::Deleted => "deleted",
        ResourceOperation::Reset => "reset",
        ResourceOperation::Reloaded => "reloaded",
    }
}

/// The JSON text of a resource change, fields in declaration order, absent
/// optional fields omitted.
pub open spec fn spec_resource_json(r: ResourceChange) -> Seq<char> {
    "{\"kind\":"@ + spec_json_string(spec_kind_name(r.kind)) + ",\"operation\":"@
        + spec_json_string(spec_operation_name(r.operation)) + match r.id {
        Some(id) => ",\"id\":"@ + spec_json_string(id@),
        None => Seq::empty(),
    } + match r.account_id {
        Some(a) => ",\"accountId\":"@ + spec_json_string(a@),
        None => Seq::empty(),
    } + "}"@
}

impl ResourceChange {
    /// An account resource: `id` and `accountId` are the account id.
    pub fn account(operation: ResourceOperation, account_id: &str) -> (r: Self)
        ensures
            r.kind == ResourceKind::Account,
            r.operation == operation,
            r.id matches Some(i) && i@ == account_id@,
            r.account_id matches Some(a) && a@ == account_id@,
    {
        ResourceChange {
            kind: ResourceKind::Account,
            operation,
            id: Some(crate::errors::owned(account_id)),
            account_id: Some(crate::errors::owned(account_id)),
        }
    }

    pub fn app_settings_updated() -> (r: Self)
        ensures
            r == (ResourceChange {
                kind: ResourceKind::AppSettings,
                operation: ResourceOperation::Updated,
                id: None,
                account_id: None,
            }),
    {
        ResourceChange {
            kind: ResourceKind::AppSettings,
            operation: ResourceOperation::Updated,
            id: None,
            account_id: None,
        }
    }

    pub fn config_reloaded() -> (r: Self)
        ensures
            r == (ResourceChange {
                kind: ResourceKind::Config,
                operation: ResourceOperation::Reloaded,
                id: None,
                account_id: None,
            }),
    {
        ResourceChange {
            kind: ResourceKind::Config,
            operation: ResourceOperation::Reloaded,
            id: None,
            account_id: None,
        }
    }

    /// A smart mailbox resource: `id` is the mailbox id, no account.
    pub fn smart_mailbox(operation: ResourceOperation, smart_mailbox_id: &str) -> (r: Self)
        ensures
            r.kind == ResourceKind::SmartMailbox,
            r.operation == operation,
            r.id matches Some(i) && i@ == smart_mailbox_id@,
            r.account_id is None,
    {
        ResourceChange {
            kind: ResourceKind::SmartMailbox,
            operation,
            id: Some(crate::errors::owned(smart_mailbox_id)),
            account_id: None,
        }
    }

    pub fn smart_mailbox_reset() -> (r: Self)
        ensures
            r == (ResourceChange {
                kind: ResourceKind::SmartMailbox,
                operation: ResourceOperation::Reset,
                id: None,
                account_id: None,
            }),
    {
        ResourceChange {
            kind: ResourceKind::SmartMailbox,
            operation: ResourceOperation::Reset,
            id: None,
            account_id: None,
        }
    }

    fn write_json(&self, out: &mut Vec<char>)
        ensures
            final(out)@ == old(out)@ + spec_resource_json(*self),
    {
        let ghost start = out@;
        write_raw(out, "{\"kind\":");
        write_json_string(out, kind_name(self.kind));
        write_raw(out, ",\"operation\":");
        write_json_string(out, operation_name(self.operation));
        let ghost mid = out@;
        if let Some(id) = &self.id {
            write_raw(out, ",\"id\":");
            write_json_string(out, id.as_str());
        }
        let ghost mid2 = out@;
        if let Some(a) = &self.account_id {
            write_raw(out, ",\"accountId\":");
            write_json_string(out, a.as_str());
        }
        let ghost mid3 = out@;
        write_raw(out, "}");
        assert(out@ =~= start + spec_resource_json(*self));
    }

    /// The JSON text of this change.
    pub fn to_json(&self) -> (r: String)
        ensures
            r@ == spec_resource_json(*self),
    {
        let mut out: Vec<char> = Vec::new();
        self.write_json(&mut out);
        assert(out@ =~= spec_resource_json(*self));
        string_of(out.as_slice())
    }
}

/// The resource operation an account event topic stands for.
pub open spec fn spec_account_operation(topic: Seq<char>) -> ResourceOperation {
    if topic == EVENT_TOPIC_ACCOUNT_CREATED@ {
        ResourceOperation::Created
    } else if topic == EVENT_TOPIC_ACCOUNT_DELETED@ {
        ResourceOperation::Deleted
    } else {
        ResourceOperation::Updated
    }
}

pub fn account_operation_from_topic(topic: &str) -> (r: ResourceOperation)
    ensures
        r == spec_account_operation(topic@),
{
    if str_eq(topic, EVENT_TOPIC_ACCOUNT_CREATED) {
        ResourceOperation::Created
    } else if str_eq(topic, EVENT_TOPIC_ACCOUNT_DELETED) {
        ResourceOperation::Deleted
    } else {
        ResourceOperation::Updated
    }
}

/// The payload of an account lifecycle event:
/// `{"accountId": id, "resources": [the account change]}`.
pub open spec fn spec_account_event_payload(account_id: Seq<char>, topic: Seq<char>) -> Seq<char> {
    "{\"accountId\":"@ + spec_json_string(account_id) + ",\"resources\":["@ + spec_resource_json(
        ResourceChange {
            kind: ResourceKind::Account,
            operation: spec_account_operation(topic),
            id: Some(account_id_string(account_id)),
            account_id: Some(account_id_string(account_id)),
        },
    ) + "]}"@
}

/// Some string whose characters are `s` (strings are equal by their
/// characters in every clause that reads them).
pub open spec fn account_id_string(s: Seq<char>) -> String {
    choose|x: String| x@ == s
}

pub proof fn lemma_resource_json_by_view(a: ResourceChange, b: ResourceChange)
    requires
        a.kind == b.kind,
        a.operation == b.operation,
        (a.id is Some) == (b.id is Some),
        a.id is Some ==> a.id->Some_0@ == b.id->Some_0@,
        (a.account_id is Some) == (b.account_id is Some),
        a.account_id is Some ==> a.account_id->Some_0@ == b.account_id->Some_0@,
    ensures
        spec_resource_json(a) == spec_resource_json(b),
{
}

pub fn account_event_payload(account_id: &str, topic: &str) -> (r: String)
    ensures
        r@ == spec_account_event_payload(account_id@, topic@),
{
    let change = ResourceChange::account(account_operation_from_topic(topic), account_id);
    let mut out: Vec<char> = Vec::new();
    write_raw(&mut out, "{\"accountId\":");
    write_json_string(&mut out, account_id);
    write_raw(&mut out, ",\"resources\":[");
    change.write_json(&mut out);
    write_raw(&mut out, "]}");
    proof {
        let w = account_id_string(account_id@);
        assert(exists|x: String| x@ == account_id@) by {
            assert(change.id->Some_0@ == account_id@);
        }
        lemma_resource_json_by_view(
            change,
            ResourceChange {
                kind: ResourceKind::Account,
                operation: spec_account_operation(topic@),
                id: Some(w),
                account_id: Some(w),
            },
        );
        assert(out@ =~= spec_account_event_payload(account_id@, topic@));
    }
    string_of(out.as_slice())
}

/// The event log that account and configuration events are appended to.
pub trait EventStore {
    /// Appending an event with these fields may end with `out`.
    closed spec fn appends(
        &self,
        account_id: Seq<char>,
        topic: Seq<char>,
        mailbox_id: Option<Seq<char>>,
        message_id: Option<Seq<char>>,
        payload: Seq<char>,
        out: Result<DomainEvent, StoreError>,
    ) -> bool {
        true
    }

    fn append_event(
        &self,
        account_id: &str,
        topic: &str,
        mailbox_id: Option<&str>,
        message_id: Option<&str>,
        payload: String,
    ) -> (r: Result<DomainEvent, StoreError>)
        ensures
            self.appends(
                account_id@,
                topic@,
                match mailbox_id {
                    Some(m) => Some(m@),
                    None => None,
                },
                match message_id {
                    Some(m) => Some(m@),
                    None => None,
                },
                payload@,
                r,
            ),
    ;
}

/// The live broadcast of appended events.
pub trait EventPublisher {
    /// `events` were handed to the broadcast, in order.
    closed spec fn publishes(&self, events: Seq<DomainEvent>) -> bool {
        true
    }

    fn publish_events(&self, events: &[DomainEvent])
        ensures
            self.publishes(events@),
    ;
}

/// Append an account lifecycle event (payload:
/// [`account_event_payload`]) and broadcast it; a refused append is returned
/// and nothing is broadcast.
pub fn append_and_publish_account_event<S: EventStore, P: EventPublisher>(
    store: &S,
    publisher: &P,
    account_id: &str,
    topic: &str,
) -> (r: Result<(), StoreError>)
    ensures
        exists|out: Result<DomainEvent, StoreError>|
            store.appends(
                account_id@,
                topic@,
                None,
                None,
                spec_account_event_payload(account_id@, topic@),
                out,
            ) && match out {
                Ok(event) => r is Ok && publisher.publishes(seq![event]),
                Err(e) => r == Err::<(), StoreError>(e),
            },
{
    let payload = account_event_payload(account_id, topic);
    let appended = store.append_event(account_id, topic, None, None, payload);
    let ghost out = appended;
    match appended {
        Ok(event) => {
            let mut events: Vec<DomainEvent> = Vec::new();
            events.push(event);
            publisher.publish_events(events.as_slice());
            proof {
                assert(events@ =~= seq![out->Ok_0]);
            }
            Ok(())
        },
        Err(e) => Err(e),
    }
}

/// `c` if it is an ASCII alphanumeric, else `-`.
pub open spec fn slug_char(c: char) -> char {
    if spec_is_ascii_alnum(c) {
        c
    } else {
        '-'
    }
}

/// What `str::to_lowercase` returns for `s` (Unicode case mapping).
pub uninterp spec fn lowercase(s: Seq<char>) -> Seq<char>;

/// `str::to_lowercase`. Its result is named; of it the documentation gives
/// that each character maps to one or more characters (so the text never
/// shrinks, and empty text stays empty) and that ASCII text is lower-cased
/// as `to_ascii_lowercase` does it. What it does to other characters is the
/// Unicode case tables and is left unsaid.
#[verifier::external_body]
fn to_lowercase(s: &str) -> (r: String)
    ensures
        r@ == lowercase(s@),
        r@.len() >= s@.len(),
        s@.len() == 0 ==> r@.len() == 0,
        spec_is_ascii_text(s@) ==> r@ == s@.map_values(|c: char| ascii_lower(c)),
{
    s.to_lowercase()
}

/// The slug of `s`: lower-cased, every non-alphanumeric turned into `-`,
/// leading and trailing `-` removed.
pub open spec fn spec_slug(s: Seq<char>) -> Seq<char> {
    spec_trim_char(lowercase(s).map_values(|c: char| slug_char(c)), '-')
}

/// A character a slug of ASCII text is made of: a lower-case ASCII letter,
/// a digit, or `-`.
pub open spec fn spec_is_slug_char(c: char) -> bool {
    ('a' <= c && c <= 'z') || ('0' <= c && c <= '9') || c == '-'
}

/// `s` is slug text: slug characters only, not starting or ending with `-`.
pub open spec fn spec_is_slug_text(s: Seq<char>) -> bool {
    &&& forall|i: int| 0 <= i < s.len() ==> spec_is_slug_char(#[trigger] s[i])
    &&& s.len() > 0 ==> s[0] != '-' && s.last() != '-'
}

fn slug(s: &str) -> (r: Vec<char>)
    ensures
        r@ == spec_slug(s@),
        r@.len() > 0 ==> r@[0] != '-' && r@.last() != '-',
        spec_is_ascii_text(s@) ==> spec_is_slug_text(r@),
{
    let lower = to_lowercase(s);
    let v = chars_of(lower.as_str());
    let mut mapped: Vec<char> = Vec::new();
    let mut i: usize = 0;
    while i < v.len()
        invariant
            i <= v@.len(),
            v@ == lowercase(s@),
            mapped@ == v@.take(i as int).map_values(|c: char| slug_char(c)),
        decreases v@.len() - i,
    {
        let c = v[i];
        mapped.push(if is_ascii_alnum(c) {
            c
        } else {
            '-'
        });
        assert(v@.take(i + 1).map_values(|c: char| slug_char(c)) =~= v@.take(i as int).map_values(
            |c: char| slug_char(c),
        ).push(slug_char(c)));
        i = i + 1;
    }
    assert(v@.take(v@.len() as int) =~= v@);
    let r = trim_char(mapped.as_slice(), '-');
    proof {
        if spec_is_ascii_text(s@) {
            assert(v@ == s@.map_values(|c: char| ascii_lower(c)));
            assert forall|i: int| 0 <= i < mapped@.len() implies spec_is_slug_char(
                #[trigger] mapped@[i],
            ) by {
                assert(v@.take(v@.len() as int) =~= v@);
                assert(mapped@[i] == slug_char(v@[i]));
                assert(v@[i] == ascii_lower(s@[i]));
            }
            let lead = crate::text::lead_len(mapped@, '-') as int;
            crate::text::lemma_lead_len_bound(mapped@, '-');
            let t = mapped@.skip(lead);
            crate::text::lemma_trail_len_bound(t, '-');
            let m = t.len() - crate::text::trail_len(t, '-');
            assert(r@ =~= mapped@.subrange(lead, lead + m));
            assert forall|i: int| 0 <= i < r@.len() implies spec_is_slug_char(#[trigger] r@[i]) by {
                assert(r@[i] == mapped@[lead + i]);
            }
        }
    }
    r
}

proof fn lemma_ascii_trim(s: Seq<char>)
    requires
        spec_is_ascii_text(s),
    ensures
        spec_is_ascii_text(spec_trim(s)),
{
    crate::text::lemma_ws_prefix_len_bound(s);
    let p = crate::text::ws_prefix_len(s) as int;
    let t = spec_trim_start(s);
    crate::text::lemma_ws_suffix_len_bound(t);
    let m = t.len() - crate::text::ws_suffix_len(t);
    assert(spec_trim(s) =~= s.subrange(p, p + m));
    crate::text::lemma_ascii_subrange(s, p, p + m);
}

proof fn lemma_ascii_strip_star_at(s: Seq<char>)
    requires
        spec_is_ascii_text(s),
    ensures
        spec_is_ascii_text(spec_strip_star_at(s)),
    decreases s.len(),
{
    if s.len() >= 2 && s[0] == '*' && s[1] == '@' {
        assert(s.skip(2) =~= s.subrange(2, s.len() as int));
        crate::text::lemma_ascii_subrange(s, 2, s.len() as int);
        lemma_ascii_strip_star_at(s.skip(2));
    }
}

/// `s` with every leading `*@` pair removed (`trim_start_matches("*@")`).
pub open spec fn spec_strip_star_at(s: Seq<char>) -> Seq<char>
    decreases s.len(),
{
    if s.len() >= 2 && s[0] == '*' && s[1] == '@' {
        spec_strip_star_at(s.skip(2))
    } else {
        s
    }
}

fn strip_star_at(v: &Vec<char>) -> (r: Vec<char>)
    ensures
        r@ == spec_strip_star_at(v@),
{
    let mut i: usize = 0;
    assert(v@.skip(0) =~= v@);
    while v.len() >= 2 && i <= v.len() - 2 && v[i] == '*' && v[i + 1] == '@'
        invariant
            i <= v@.len(),
            spec_strip_star_at(v@) == spec_strip_star_at(v@.skip(i as int)),
        decreases v@.len() - i,
    {
        assert(v@.skip(i as int).skip(2) =~= v@.skip(i + 2));
        i = i + 2;
    }
    crate::text::slice_chars(v.as_slice(), i, v.len())
}

/// The first pattern that is not blank, trimmed.
pub open spec fn spec_first_pattern(ps: Seq<String>, i: int) -> Option<Seq<char>>
    decreases ps.len() - i,
{
    if i < 0 || i >= ps.len() {
        None
    } else if !spec_is_blank(ps[i]@) {
        Some(spec_trim(ps[i]@))
    } else {
        spec_first_pattern(ps, i + 1)
    }
}

/// The internal id seed of a new account: the first non-blank email pattern
/// (or the name), trimmed, stripped of leading `*@` and `@`, slugged;
/// `account` when nothing is left.
pub open spec fn spec_account_id_seed(name: Seq<char>, patterns: Seq<String>) -> Seq<char> {
    let seed = match spec_first_pattern(patterns, 0) {
        Some(p) => p,
        None => spec_trim(name),
    };
    let s = spec_slug(crate::text::spec_trim_start_char(spec_strip_star_at(seed), '@'));
    if s.len() == 0 {
        "account"@
    } else {
        s
    }
}

pub fn generate_account_id_seed(name: &str, email_patterns: &Vec<String>) -> (r: String)
    ensures
        r@ == spec_account_id_seed(name@, email_patterns@),
        r@.len() > 0,
        r@[0] != '-' && r@.last() != '-',
        spec_is_ascii_text(name@) && (forall|i: int|
            0 <= i < email_patterns@.len() ==> spec_is_ascii_text(#[trigger] email_patterns@[i]@))
            ==> spec_is_slug_text(r@),
{
    let mut i: usize = 0;
    while i < email_patterns.len() && is_blank(email_patterns[i].as_str())
        invariant
            i <= email_patterns@.len(),
            spec_first_pattern(email_patterns@, 0) == spec_first_pattern(email_patterns@, i as int),
        decreases email_patterns@.len() - i,
    {
        i = i + 1;
    }
    let seed = if i < email_patterns.len() {
        trim(email_patterns[i].as_str())
    } else {
        trim(name)
    };
    let v = chars_of(seed.as_str());
    let a = strip_star_at(&v);
    let b = crate::text::trim_start_char(a.as_slice(), '@');
    let bs = string_of(b.as_slice());
    proof {
        if spec_is_ascii_text(name@) && (forall|i: int|
            0 <= i < email_patterns@.len() ==> spec_is_ascii_text(#[trigger] email_patterns@[i]@)) {
            let src = if i < email_patterns.len() {
                email_patterns@[i as int]@
            } else {
                name@
            };
            assert(spec_is_ascii_text(src));
            lemma_ascii_trim(src);
            lemma_ascii_strip_star_at(v@);
            let a_lead = crate::text::lead_len(a@, '@') as int;
            crate::text::lemma_lead_len_bound(a@, '@');
            assert(bs@ =~= a@.subrange(a_lead, a@.len() as int));
            crate::text::lemma_ascii_subrange(a@, a_lead, a@.len() as int);
        }
    }
    let s = slug(bs.as_str());
    if s.len() == 0 {
        let r = crate::errors::owned("account");
        proof {
            reveal_strlit("account");
        }
        r
    } else {
        string_of(s.as_slice())
    }
}

/// The hyphenated lower-case text of a random (version 4, RFC 4122
/// variant) UUID: 36 characters, hyphens at 8, 13, 18 and 23, lower-case hex
/// digits elsewhere, the version digit `4` at 14 and the variant digit (one
/// of `8`, `9`, `a`, `b`) at 19.
pub open spec fn spec_uuid_v4_text(u: Seq<char>) -> bool {
    &&& u.len() == 36
    &&& forall|i: int|
        0 <= i < 36 ==> if i == 8 || i == 13 || i == 18 || i == 23 {
            #[trigger] u[i] == '-'
        } else {
            ('0' <= u[i] <= '9') || ('a' <= u[i] <= 'f')
        }
    &&& u[14] == '4'
    &&& (u[19] == '8' || u[19] == '9' || u[19] == 'a' || u[19] == 'b')
}

/// A fresh random v4 UUID as text (`Uuid::new_v4().to_string()`). Which
/// UUID comes out is chance; its shape is what `new_v4` (version and variant
/// bits set) and the hyphenated lower-hex `Display` make it.
#[verifier::external_body]
pub(crate) fn new_uuid_v4() -> (r: String)
    ensures
        spec_uuid_v4_text(r@),
{
    uuid::Uuid::new_v4().to_string()
}

/// A smart mailbox id from a human name: `sm-{slug}-{uuid}`, the slug falling
/// back to `mailbox`.
pub open spec fn spec_smart_mailbox_prefix(name: Seq<char>) -> Seq<char> {
    let s = spec_slug(spec_trim(name));
    "sm-"@ + (if s.len() == 0 {
        "mailbox"@
    } else {
        s
    }) + "-"@
}

pub fn generate_smart_mailbox_id(name: &str) -> (r: String)
    ensures
        r@.len() == spec_smart_mailbox_prefix(name@).len() + 36,
        r@.take(spec_smart_mailbox_prefix(name@).len() as int) == spec_smart_mailbox_prefix(name@),
        spec_uuid_v4_text(r@.skip(spec_smart_mailbox_prefix(name@).len() as int)),
        spec_is_ascii_text(name@) ==> forall|i: int|
            0 <= i < spec_smart_mailbox_prefix(name@).len() ==> spec_is_slug_char(#[trigger] r@[i]),
{
    let t = trim(name);
    let s = slug(t.as_str());
    let mut out: Vec<char> = Vec::new();
    write_raw(&mut out, "sm-");
    if s.len() == 0 {
        write_raw(&mut out, "mailbox");
    } else {
        let ss = string_of(s.as_slice());
        write_raw(&mut out, ss.as_str());
    }
    write_raw(&mut out, "-");
    let ghost prefix = out@;
    assert(prefix =~= spec_smart_mailbox_prefix(name@));
    proof {
        if spec_is_ascii_text(name@) {
            lemma_ascii_trim(name@);
            reveal_strlit("sm-");
            reveal_strlit("mailbox");
            reveal_strlit("-");
            let mid = if s@.len() == 0 {
                "mailbox"@
            } else {
                s@
            };
            assert(prefix =~= "sm-"@ + mid + "-"@);
            assert forall|i: int| 0 <= i < prefix.len() implies spec_is_slug_char(#[trigger] prefix[i]) by {
                if 3 <= i < 3 + mid.len() {
                    assert(prefix[i] == mid[i - 3]);
                }
            }
        }
    }
    let id = new_uuid_v4();
    write_raw(&mut out, id.as_str());
    assert(out@.take(prefix.len() as int) =~= prefix);
    assert forall|i: int| 0 <= i < prefix.len() implies out@[i] == prefix[i] by {
        assert(out@.take(prefix.len() as int)[i] == out@[i]);
    }
    assert(out@.skip(prefix.len() as int) =~= id@);
    string_of(out.as_slice())
}

} // verus!
