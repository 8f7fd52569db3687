//! The state a mail-list view serves, projected from one page of a message
//! query: one row per message in page order, the query's sort and window,
//! and the honest coverage of what the page holds.
use vstd::prelude::*;

use crate::errors::{owned, RuntimeError, RuntimeErrorCode, Terminality};
use crate::json::{spec_json_string, write_json_string, write_raw};
use crate::links::{MailListContinuation, MailListRow, MailListViewState};
use crate::ordering::spec_str_lt;
use crate::text::{append_chars, digit_char, push_decimal, spec_decimal, string_of};
use crate::views::{MailPresentation, MailQueryRequest, SortDirection};

verus! {

pub const JSON_NULL: &'static str = "null";

pub const OBJECT_CLOSE: &'static str = "}";

pub const SCOPE_OPEN: &'static str = "{\"query\":";

pub const MESSAGE_PROJECTION: &'static str = "\"message\"";

pub const SORT_OPEN: &'static str = "{\"direction\":";

pub const SORT_FIELD: &'static str = ",\"field\":";

pub const ASC_TEXT: &'static str = "\"asc\"";

pub const DESC_TEXT: &'static str = "\"desc\"";

pub const WINDOW_OPEN: &'static str = "{\"cursor\":";

pub const WINDOW_LIMIT: &'static str = ",\"limit\":";

pub const COVERAGE_OPEN: &'static str = "{\"ranges\":[{\"from\":null,\"to\":";

pub const COVERAGE_CLOSE: &'static str = "}]}";

pub const ANCHOR_NOT_REQUESTED: &'static str = "{\"kind\":\"notRequested\"}";

pub const NO_PENDING_MARKERS: &'static str = "[]";

pub const MESSAGE_REF_PREFIX: &'static str = "message:";

pub const LOCAL_WATERMARK: &'static str = "local";

pub const MESSAGE_PRESENTATION_REQUIRED: &'static str =
    "mailList views require a message presentation";

/// One message of a query page: its account, id, arrival time, and its
/// summary as canonical JSON text.
#[derive(Debug)]
pub struct MessageRow {
    pub source_id: String,
    pub id: String,
    pub received_at: String,
    pub projection: String,
}

/// A page of messages and the JSON text of the cursor to the next page.
#[derive(Debug)]
pub struct MessagePage {
    pub items: Vec<MessageRow>,
    pub next_cursor: Option<String>,
}

/// What a mail query answered: a page of messages, or (JSON text of) a page
/// of conversations.
#[derive(Debug)]
pub enum MailQueryPage {
    Messages(MessagePage),
    Conversations(String),
}

/// `s` as a JSON string, or `null`.
pub open spec fn spec_opt_json_string(s: Option<String>) -> Seq<char> {
    match s {
        Some(x) => spec_json_string(x@),
        None => JSON_NULL@,
    }
}

/// `n` as a JSON number, or `null`.
pub open spec fn spec_opt_number(n: Option<usize>) -> Seq<char> {
    match n {
        Some(x) => spec_decimal(x as nat),
        None => JSON_NULL@,
    }
}

pub open spec fn spec_direction_text(d: SortDirection) -> Seq<char> {
    match d {
        SortDirection::Asc => ASC_TEXT@,
        SortDirection::Desc => DESC_TEXT@,
    }
}

/// The sort of a presentation: `{"direction":…,"field":…}`.
pub open spec fn spec_sort_text(p: MailPresentation) -> Seq<char> {
    let (field, direction) = match p {
        MailPresentation::Messages { sort_field, sort_direction, .. } => (sort_field, sort_direction),
        MailPresentation::CollapsedByConversation { sort_field, sort_direction, .. } => (
            sort_field,
            sort_direction,
        ),
    };
    SORT_OPEN@ + spec_direction_text(direction) + SORT_FIELD@ + spec_json_string(field@)
        + OBJECT_CLOSE@
}

/// The window of a presentation: `{"cursor":…,"limit":…}`.
pub open spec fn spec_window_text(p: MailPresentation) -> Seq<char> {
    let (cursor, limit) = match p {
        MailPresentation::Messages { limit, cursor, .. } => (cursor, spec_opt_number(limit)),
        MailPresentation::CollapsedByConversation { limit, cursor, .. } => (
            cursor,
            spec_decimal(limit as nat),
        ),
    };
    WINDOW_OPEN@ + spec_opt_json_string(cursor) + WINDOW_LIMIT@ + limit + OBJECT_CLOSE@
}

/// The sort key of a message: `[received_at, id]`.
pub open spec fn spec_sort_key_text(received_at: Seq<char>, id: Seq<char>) -> Seq<char> {
    seq!['['] + spec_json_string(received_at) + seq![','] + spec_json_string(id) + seq![']']
}

/// The order key of the `i`-th row: `i` in decimal, zero-padded to eight
/// digits.
pub open spec fn spec_order_key(i: nat) -> Seq<char> {
    let d = spec_decimal(i);
    if d.len() < 8 {
        Seq::new((8 - d.len()) as nat, |k: int| '0') + d
    } else {
        d
    }
}

/// `row` is the row of message `item` at position `i`.
pub open spec fn spec_row_for(item: MessageRow, i: nat, row: MailListRow) -> bool {
    &&& row.row_key@ == item.source_id@ + seq![':'] + item.id@
    &&& row.resource_ref matches Some(r) && r@ == MESSAGE_REF_PREFIX@ + item.source_id@ + seq![':']
        + item.id@
    &&& row.projection == item.projection
    &&& row.sort_key@ == spec_sort_key_text(item.received_at@, item.id@)
    &&& row.order_key@ == spec_order_key(i)
    &&& row.pending_markers@ == NO_PENDING_MARKERS@
}

/// The coverage of a page: from the top down to the last held row when a
/// next page exists, else the whole order.
pub open spec fn spec_coverage_text(page: MessagePage) -> Seq<char> {
    let to = if page.next_cursor is Some && page.items@.len() > 0 {
        let last = page.items@.last();
        spec_sort_key_text(last.received_at@, last.id@)
    } else {
        JSON_NULL@
    };
    COVERAGE_OPEN@ + to + COVERAGE_CLOSE@
}

/// `s` is the state a mail-list view serves for `request` answered by
/// `page`.
pub open spec fn spec_mail_list_state(request: MailQueryRequest, page: MessagePage, s: MailListViewState) -> bool {
    &&& s.scope@ == SCOPE_OPEN@ + spec_json_string(request.query@) + OBJECT_CLOSE@
    &&& s.projection_kind@ == MESSAGE_PROJECTION@
    &&& s.sort@ == spec_sort_text(request.presentation)
    &&& s.window_request@ == spec_window_text(request.presentation)
    &&& s.rows@.len() == page.items@.len()
    &&& forall|i: int| 0 <= i < s.rows@.len() ==> spec_row_for(page.items@[i], i as nat, #[trigger] s.rows@[i])
    &&& s.continuation.before_cursor is None
    &&& s.continuation.after_cursor == page.next_cursor
    &&& !s.continuation.has_before
    &&& s.continuation.has_after == page.next_cursor is Some
    &&& s.read_watermark matches Some(w) && w@ == LOCAL_WATERMARK@
    &&& s.coverage@ == spec_coverage_text(page)
    &&& s.known_total_count is None
    &&& s.anchor@ == ANCHOR_NOT_REQUESTED@
}

fn write_opt_json_string(out: &mut Vec<char>, s: &Option<String>)
    ensures
        final(out)@ == old(out)@ + spec_opt_json_string(*s),
{
    match s {
        Some(x) => write_json_string(out, x.as_str()),
        None => write_raw(out, JSON_NULL),
    }
}

fn write_number(out: &mut Vec<char>, n: usize)
    ensures
        final(out)@ == old(out)@ + spec_decimal(n as nat),
{
    push_decimal(out, n as u64);
}

/// The sort a presentation asks for, as JSON text.
pub fn presentation_sort(presentation: &MailPresentation) -> (r: String)
    ensures
        r@ == spec_sort_text(*presentation),
{
    let (field, direction) = match presentation {
        MailPresentation::Messages { sort_field, sort_direction, .. } => (sort_field, *sort_direction),
        MailPresentation::CollapsedByConversation { sort_field, sort_direction, .. } => (
            sort_field,
            *sort_direction,
        ),
    };
    let mut out: Vec<char> = Vec::new();
    write_raw(&mut out, SORT_OPEN);
    match direction {
        SortDirection::Asc => write_raw(&mut out, ASC_TEXT),
        SortDirection::Desc => write_raw(&mut out, DESC_TEXT),
    }
    write_raw(&mut out, SORT_FIELD);
    write_json_string(&mut out, field.as_str());
    write_raw(&mut out, OBJECT_CLOSE);
    proof {
        assert(out@ =~= spec_sort_text(*presentation));
    }
    string_of(out.as_slice())
}

/// The window a presentation asks for, as JSON text.
pub fn presentation_window(presentation: &MailPresentation) -> (r: String)
    ensures
        r@ == spec_window_text(*presentation),
{
    let mut out: Vec<char> = Vec::new();
    write_raw(&mut out, WINDOW_OPEN);
    match presentation {
        MailPresentation::Messages { limit, cursor, .. } => {
            write_opt_json_string(&mut out, cursor);
            write_raw(&mut out, WINDOW_LIMIT);
            match limit {
                Some(n) => write_number(&mut out, *n),
                None => write_raw(&mut out, JSON_NULL),
            }
        },
        MailPresentation::CollapsedByConversation { limit, cursor, .. } => {
            write_opt_json_string(&mut out, cursor);
            write_raw(&mut out, WINDOW_LIMIT);
            write_number(&mut out, *limit);
        },
    }
    write_raw(&mut out, OBJECT_CLOSE);
    proof {
        assert(out@ =~= spec_window_text(*presentation));
    }
    string_of(out.as_slice())
}

fn write_sort_key(out: &mut Vec<char>, received_at: &str, id: &str)
    ensures
        final(out)@ == old(out)@ + spec_sort_key_text(received_at@, id@),
{
    let ghost start = out@;
    out.push('[');
    write_json_string(out, received_at);
    out.push(',');
    write_json_string(out, id);
    out.push(']');
    assert(out@ =~= start + spec_sort_key_text(received_at@, id@));
}

fn order_key(i: usize) -> (r: String)
    ensures
        r@ == spec_order_key(i as nat),
{
    let mut digits: Vec<char> = Vec::new();
    push_decimal(&mut digits, i as u64);
    assert(digits@ =~= spec_decimal(i as nat));
    let mut out: Vec<char> = Vec::new();
    if digits.len() < 8 {
        let pad = 8 - digits.len();
        let mut k: usize = 0;
        while k < pad
            invariant
                k <= pad,
                out@ =~= Seq::new(k as nat, |j: int| '0'),
            decreases pad - k,
        {
            out.push('0');
            k = k + 1;
        }
    }
    append_chars(&mut out, digits.as_slice());
    proof {
        assert(out@ =~= spec_order_key(i as nat));
    }
    string_of(out.as_slice())
}

fn row_for(item: &MessageRow, i: usize) -> (r: MailListRow)
    ensures
        spec_row_for(*item, i as nat, r),
{
    let mut key: Vec<char> = Vec::new();
    write_raw(&mut key, item.source_id.as_str());
    key.push(':');
    write_raw(&mut key, item.id.as_str());
    let mut reference: Vec<char> = Vec::new();
    write_raw(&mut reference, MESSAGE_REF_PREFIX);
    append_chars(&mut reference, key.as_slice());
    let mut sort_key: Vec<char> = Vec::new();
    write_sort_key(&mut sort_key, item.received_at.as_str(), item.id.as_str());
    let r = MailListRow {
        row_key: string_of(key.as_slice()),
        resource_ref: Some(string_of(reference.as_slice())),
        projection: item.projection.clone(),
        sort_key: string_of(sort_key.as_slice()),
        order_key: order_key(i),
        pending_markers: owned(NO_PENDING_MARKERS),
    };
    proof {
        assert(key@ =~= item.source_id@ + seq![':'] + item.id@);
        assert(reference@ =~= MESSAGE_REF_PREFIX@ + item.source_id@ + seq![':'] + item.id@);
    }
    r
}

fn coverage_text(page: &MessagePage) -> (r: String)
    ensures
        r@ == spec_coverage_text(*page),
{
    let mut out: Vec<char> = Vec::new();
    write_raw(&mut out, COVERAGE_OPEN);
    let n = page.items.len();
    if page.next_cursor.is_some() && n > 0 {
        let last = &page.items[n - 1];
        write_sort_key(&mut out, last.received_at.as_str(), last.id.as_str());
    } else {
        write_raw(&mut out, JSON_NULL);
    }
    write_raw(&mut out, COVERAGE_CLOSE);
    proof {
        assert(out@ =~= spec_coverage_text(*page));
    }
    string_of(out.as_slice())
}

/// Project a mail query's page into the state its mail-list view serves;
/// a page of conversations cannot back a mail list.
pub fn mail_list_state(request: &MailQueryRequest, page: MailQueryPage) -> (r: Result<
    MailListViewState,
    RuntimeError,
>)
    ensures
        match page {
            MailQueryPage::Messages(p) => r matches Ok(s) && spec_mail_list_state(*request, p, s),
            MailQueryPage::Conversations(_) => r matches Err(e) && e.0.code
                == RuntimeErrorCode::InvalidDescriptor && e.0.terminality == Terminality::Permanent
                && e.0.message@ == MESSAGE_PRESENTATION_REQUIRED@,
        },
{
    let page = match page {
        MailQueryPage::Messages(p) => p,
        MailQueryPage::Conversations(_) => {
            return Err(
                RuntimeError::new(
                    RuntimeErrorCode::InvalidDescriptor,
                    owned(MESSAGE_PRESENTATION_REQUIRED),
                ),
            );
        },
    };
    let mut rows: Vec<MailListRow> = Vec::new();
    let mut i: usize = 0;
    while i < page.items.len()
        invariant
            i <= page.items@.len(),
            rows@.len() == i,
            forall|j: int| 0 <= j < i ==> spec_row_for(page.items@[j], j as nat, #[trigger] rows@[j]),
        decreases page.items@.len() - i,
    {
        rows.push(row_for(&page.items[i], i));
        i = i + 1;
    }
    let mut scope: Vec<char> = Vec::new();
    write_raw(&mut scope, SCOPE_OPEN);
    write_json_string(&mut scope, request.query.as_str());
    write_raw(&mut scope, OBJECT_CLOSE);
    let coverage = coverage_text(&page);
    let has_after = page.next_cursor.is_some();
    let state = MailListViewState {
        scope: string_of(scope.as_slice()),
        projection_kind: owned(MESSAGE_PROJECTION),
        sort: presentation_sort(&request.presentation),
        window_request: presentation_window(&request.presentation),
        rows,
        continuation: MailListContinuation {
            before_cursor: None,
            after_cursor: page.next_cursor,
            has_before: false,
            has_after,
        },
        read_watermark: Some(owned(LOCAL_WATERMARK)),
        coverage,
        known_total_count: None,
        anchor: owned(ANCHOR_NOT_REQUESTED),
    };
    Ok(state)
}

/// `10^w`.
pub open spec fn pow10(w: nat) -> nat
    decreases w,
{
    if w == 0 {
        1
    } else {
        10 * pow10((w - 1) as nat)
    }
}

/// The last `w` decimal digits of `n`, most significant first.
pub open spec fn spec_fixed_digits(n: nat, w: nat) -> Seq<char>
    decreases w,
{
    if w == 0 {
        Seq::empty()
    } else {
        spec_fixed_digits(n / 10, (w - 1) as nat).push(digit_char(n % 10))
    }
}

/// `d` left-padded with zeros to `w` characters.
pub open spec fn spec_zero_pad(d: Seq<char>, w: nat) -> Seq<char> {
    if d.len() < w {
        Seq::new((w - d.len()) as nat, |k: int| '0') + d
    } else {
        d
    }
}

proof fn lemma_fixed_len(n: nat, w: nat)
    ensures
        spec_fixed_digits(n, w).len() == w,
    decreases w,
{
    if w > 0 {
        lemma_fixed_len(n / 10, (w - 1) as nat);
    }
}

proof fn lemma_fixed_zero(w: nat)
    ensures
        spec_fixed_digits(0, w) =~= Seq::new(w, |k: int| '0'),
    decreases w,
{
    if w > 0 {
        lemma_fixed_zero((w - 1) as nat);
        assert(digit_char(0) == '0');
    }
}

proof fn lemma_padded_is_fixed(n: nat, w: nat)
    requires
        w >= 1,
        n < pow10(w),
    ensures
        spec_decimal(n).len() <= w,
        spec_zero_pad(spec_decimal(n), w) == spec_fixed_digits(n, w),
    decreases n,
{
    if n < 10 {
        lemma_fixed_zero((w - 1) as nat);
        assert(digit_char(n % 10) == digit_char(n));
        assert(spec_zero_pad(spec_decimal(n), w) =~= spec_fixed_digits(n, w));
    } else {
        if w == 1 {
            assert(pow10(1) == 10 * pow10(0));
            assert(false);
        }
        let w1 = (w - 1) as nat;
        assert(pow10(w) == 10 * pow10(w1));
        assert(n / 10 < pow10(w1));
        lemma_padded_is_fixed(n / 10, w1);
        let d = spec_decimal(n / 10);
        assert(spec_decimal(n) == d.push(digit_char(n % 10)));
        assert(spec_zero_pad(spec_decimal(n), w) =~= spec_zero_pad(d, w1).push(digit_char(n % 10)));
    }
}

proof fn lemma_str_lt_push(a: Seq<char>, b: Seq<char>, x: char, y: char)
    requires
        a.len() == b.len(),
    ensures
        spec_str_lt(a.push(x), b.push(y)) == (spec_str_lt(a, b) || (a == b && x < y)),
    decreases a.len(),
{
    let ax = a.push(x);
    let by = b.push(y);
    assert(ax[0] == (if a.len() == 0 { x } else { a[0] }));
    assert(by[0] == (if b.len() == 0 { y } else { b[0] }));
    if a.len() == 0 {
        assert(a =~= b);
        assert(ax.drop_first() =~= Seq::<char>::empty());
        assert(by.drop_first() =~= Seq::<char>::empty());
        assert(!spec_str_lt(Seq::<char>::empty(), Seq::<char>::empty()));
        assert(!spec_str_lt(a, b));
    } else if a[0] == b[0] {
        lemma_str_lt_push(a.drop_first(), b.drop_first(), x, y);
        assert(ax.drop_first() =~= a.drop_first().push(x));
        assert(by.drop_first() =~= b.drop_first().push(y));
        assert(a =~= seq![a[0]] + a.drop_first());
        assert(b =~= seq![b[0]] + b.drop_first());
        if a.drop_first() == b.drop_first() {
            assert(a =~= b);
        }
    } else {
        assert(a != b);
    }
}

proof fn lemma_fixed_monotone(n: nat, m: nat, w: nat)
    requires
        n < m,
        m < pow10(w),
    ensures
        spec_str_lt(spec_fixed_digits(n, w), spec_fixed_digits(m, w)),
    decreases w,
{
    if w == 0 {
        assert(false);
    } else {
        let w1 = (w - 1) as nat;
        assert(pow10(w) == 10 * pow10(w1));
        lemma_fixed_len(n / 10, w1);
        lemma_fixed_len(m / 10, w1);
        let a = spec_fixed_digits(n / 10, w1);
        let b = spec_fixed_digits(m / 10, w1);
        lemma_str_lt_push(a, b, digit_char(n % 10), digit_char(m % 10));
        if n / 10 < m / 10 {
            lemma_fixed_monotone(n / 10, m / 10, w1);
        } else {
            assert(n / 10 == m / 10);
            assert(n % 10 < m % 10);
            assert(digit_char(n % 10) < digit_char(m % 10));
        }
    }
}

/// The order keys of a mail list sort its rows by position: the row at a
/// smaller position has the smaller key (for lists under a hundred million
/// rows, where every key has its eight digits).
pub proof fn law_order_keys_follow_row_positions(i: nat, j: nat)
    requires
        i < j,
        j < 100_000_000,
    ensures
        spec_str_lt(spec_order_key(i), spec_order_key(j)),
{
    reveal_with_fuel(pow10, 9);
    assert(pow10(8) == 100_000_000);
    lemma_padded_is_fixed(i, 8);
    lemma_padded_is_fixed(j, 8);
    assert(spec_order_key(i) == spec_zero_pad(spec_decimal(i), 8));
    assert(spec_order_key(j) == spec_zero_pad(spec_decimal(j), 8));
    lemma_fixed_monotone(i, j, 8);
}

} // verus!
