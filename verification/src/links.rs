//! The far end of a client runtime link: which views a link holds, how a
//! view frame becomes a link frame (with row-local mail-list deltas for
//! delta-capable links), scope checks between a caller and a link, and the
//! terminal classes of settled mutations.
use vstd::prelude::*;

use crate::domain::DomainEvent;
use crate::errors::{owned, RuntimeAdapterError, RuntimeError, RuntimeErrorCode, Terminality};
use crate::keyed::{keyed_map, keys_unique, lemma_keyed_at, lemma_keyed_push, lemma_keyed_remove, lemma_keyed_update};
use crate::ordering::{spec_is_stable_order, spec_pos_lt, spec_str_lt, stable_order};
use crate::text::str_eq;

verus! {

/// One row of a mail-list view. The JSON-valued fields hold canonical JSON
/// text (object keys sorted), so equal values have equal text.
#[derive(Debug)]
pub struct MailListRow {
    pub row_key: String,
    pub resource_ref: Option<String>,
    pub projection: String,
    pub sort_key: String,
    pub order_key: String,
    pub pending_markers: String,
}

/// Paging state of a mail-list view.
#[derive(Debug)]
pub struct MailListContinuation {
    pub before_cursor: Option<String>,
    pub after_cursor: Option<String>,
    pub has_before: bool,
    pub has_after: bool,
}

/// The state a mail-list view serves. JSON-valued fields hold canonical
/// JSON text.
#[derive(Debug)]
pub struct MailListViewState {
    pub scope: String,
    pub projection_kind: String,
    pub sort: String,
    pub window_request: String,
    pub rows: Vec<MailListRow>,
    pub continuation: MailListContinuation,
    pub read_watermark: Option<String>,
    pub coverage: String,
    pub known_total_count: Option<u64>,
    pub anchor: String,
}

/// What a view snapshot carries: a mail-list state, or the JSON text of any
/// other family's data.
#[derive(Debug)]
pub enum ViewData {
    MailList(MailListViewState),
    Other(String),
}

/// A revision of a view's data.
#[derive(Debug)]
pub struct ViewSnapshot {
    pub view_id: String,
    pub family: String,
    pub revision: u64,
    pub data: ViewData,
}

/// A row-local change of a mail list: the new row-key order when it changed,
/// and the rows that are new or changed.
#[derive(Debug)]
pub struct MailListDelta {
    pub order: Option<Vec<String>>,
    pub upserts: Vec<MailListRow>,
}

pub fn dup_opt_string(s: &Option<String>) -> (r: Option<String>)
    ensures
        r == *s,
{
    crate::domain::dup_opt_string(s)
}

impl MailListRow {
    pub fn duplicate(&self) -> (r: Self)
        ensures
            r == *self,
    {
        MailListRow {
            row_key: self.row_key.clone(),
            resource_ref: dup_opt_string(&self.resource_ref),
            projection: self.projection.clone(),
            sort_key: self.sort_key.clone(),
            order_key: self.order_key.clone(),
            pending_markers: self.pending_markers.clone(),
        }
    }
}

fn dup_rows(rows: &Vec<MailListRow>) -> (r: Vec<MailListRow>)
    ensures
        r@ == rows@,
{
    let mut r: Vec<MailListRow> = Vec::new();
    let mut i: usize = 0;
    while i < rows.len()
        invariant
            i <= rows@.len(),
            r@ == rows@.subrange(0, i as int),
        decreases rows@.len() - i,
    {
        r.push(rows[i].duplicate());
        i = i + 1;
    }
    assert(r@ =~= rows@);
    r
}

/// Two mail-list states hold the same values.
pub open spec fn spec_state_same(a: MailListViewState, b: MailListViewState) -> bool {
    &&& a.scope == b.scope
    &&& a.projection_kind == b.projection_kind
    &&& a.sort == b.sort
    &&& a.window_request == b.window_request
    &&& a.rows@ == b.rows@
    &&& a.continuation == b.continuation
    &&& a.read_watermark == b.read_watermark
    &&& a.coverage == b.coverage
    &&& a.known_total_count == b.known_total_count
    &&& a.anchor == b.anchor
}

/// Two snapshots hold the same values.
pub open spec fn spec_snapshot_same(a: ViewSnapshot, b: ViewSnapshot) -> bool {
    &&& a.view_id == b.view_id
    &&& a.family == b.family
    &&& a.revision == b.revision
    &&& match (a.data, b.data) {
        (ViewData::MailList(x), ViewData::MailList(y)) => spec_state_same(x, y),
        (ViewData::Other(x), ViewData::Other(y)) => x == y,
        _ => false,
    }
}

impl MailListViewState {
    pub fn duplicate(&self) -> (r: Self)
        ensures
            spec_state_same(r, *self),
    {
        MailListViewState {
            scope: self.scope.clone(),
            projection_kind: self.projection_kind.clone(),
            sort: self.sort.clone(),
            window_request: self.window_request.clone(),
            rows: dup_rows(&self.rows),
            continuation: MailListContinuation {
                before_cursor: dup_opt_string(&self.continuation.before_cursor),
                after_cursor: dup_opt_string(&self.continuation.after_cursor),
                has_before: self.continuation.has_before,
                has_after: self.continuation.has_after,
            },
            read_watermark: dup_opt_string(&self.read_watermark),
            coverage: self.coverage.clone(),
            known_total_count: self.known_total_count,
            anchor: self.anchor.clone(),
        }
    }
}

impl ViewSnapshot {
    pub fn duplicate(&self) -> (r: Self)
        ensures
            spec_snapshot_same(r, *self),
    {
        ViewSnapshot {
            view_id: self.view_id.clone(),
            family: self.family.clone(),
            revision: self.revision,
            data: match &self.data {
                ViewData::MailList(s) => ViewData::MailList(s.duplicate()),
                ViewData::Other(j) => ViewData::Other(j.clone()),
            },
        }
    }
}

pub open spec fn spec_opt_eq(a: Option<String>, b: Option<String>) -> bool {
    match (a, b) {
        (None, None) => true,
        (Some(x), Some(y)) => x@ == y@,
        _ => false,
    }
}

pub(crate) fn opt_eq(a: &Option<String>, b: &Option<String>) -> (r: bool)
    ensures
        r == spec_opt_eq(*a, *b),
{
    match (a, b) {
        (None, None) => true,
        (Some(x), Some(y)) => str_eq(x.as_str(), y.as_str()),
        _ => false,
    }
}

/// Two rows carry the same values.
pub open spec fn spec_row_eq(a: MailListRow, b: MailListRow) -> bool {
    &&& a.row_key@ == b.row_key@
    &&& spec_opt_eq(a.resource_ref, b.resource_ref)
    &&& a.projection@ == b.projection@
    &&& a.sort_key@ == b.sort_key@
    &&& a.order_key@ == b.order_key@
    &&& a.pending_markers@ == b.pending_markers@
}

pub(crate) fn row_eq(a: &MailListRow, b: &MailListRow) -> (r: bool)
    ensures
        r == spec_row_eq(*a, *b),
{
    str_eq(a.row_key.as_str(), b.row_key.as_str()) && opt_eq(&a.resource_ref, &b.resource_ref)
        && str_eq(a.projection.as_str(), b.projection.as_str()) && str_eq(
        a.sort_key.as_str(),
        b.sort_key.as_str(),
    ) && str_eq(a.order_key.as_str(), b.order_key.as_str()) && str_eq(
        a.pending_markers.as_str(),
        b.pending_markers.as_str(),
    )
}

/// The two states agree on everything but their rows: scope, projection
/// kind, sort, window and continuation.
pub open spec fn spec_same_structure(a: MailListViewState, b: MailListViewState) -> bool {
    &&& a.scope@ == b.scope@
    &&& a.projection_kind@ == b.projection_kind@
    &&& a.sort@ == b.sort@
    &&& a.window_request@ == b.window_request@
    &&& spec_opt_eq(a.continuation.before_cursor, b.continuation.before_cursor)
    &&& spec_opt_eq(a.continuation.after_cursor, b.continuation.after_cursor)
    &&& a.continuation.has_before == b.continuation.has_before
    &&& a.continuation.has_after == b.continuation.has_after
}

pub(crate) fn same_structure(a: &MailListViewState, b: &MailListViewState) -> (r: bool)
    ensures
        r == spec_same_structure(*a, *b),
{
    str_eq(a.scope.as_str(), b.scope.as_str()) && str_eq(
        a.projection_kind.as_str(),
        b.projection_kind.as_str(),
    ) && str_eq(a.sort.as_str(), b.sort.as_str()) && str_eq(
        a.window_request.as_str(),
        b.window_request.as_str(),
    ) && opt_eq(&a.continuation.before_cursor, &b.continuation.before_cursor) && opt_eq(
        &a.continuation.after_cursor,
        &b.continuation.after_cursor,
    ) && a.continuation.has_before == b.continuation.has_before && a.continuation.has_after
        == b.continuation.has_after
}

/// The row keys of `rows`, in order.
pub open spec fn spec_row_keys(rows: Seq<MailListRow>) -> Seq<Seq<char>> {
    rows.map_values(|r: MailListRow| r.row_key@)
}

/// The last row of `rows` keyed `key` (a later row under a repeated key
/// shadows an earlier one).
pub open spec fn spec_last_row_with_key(rows: Seq<MailListRow>, key: Seq<char>) -> Option<
    MailListRow,
>
    decreases rows.len(),
{
    if rows.len() == 0 {
        None
    } else if rows.last().row_key@ == key {
        Some(rows.last())
    } else {
        spec_last_row_with_key(rows.drop_last(), key)
    }
}

/// A new row is upserted when no old row has its key or the old one differs.
pub open spec fn spec_row_changed(old_rows: Seq<MailListRow>, row: MailListRow) -> bool {
    match spec_last_row_with_key(old_rows, row.row_key@) {
        Some(o) => !spec_row_eq(o, row),
        None => true,
    }
}

/// The new rows that are new or changed, in their new order.
pub open spec fn spec_upserts(old_rows: Seq<MailListRow>, new_rows: Seq<MailListRow>) -> Seq<
    MailListRow,
>
    decreases new_rows.len(),
{
    if new_rows.len() == 0 {
        Seq::empty()
    } else {
        let rest = spec_upserts(old_rows, new_rows.drop_last());
        if spec_row_changed(old_rows, new_rows.last()) {
            rest.push(new_rows.last())
        } else {
            rest
        }
    }
}

/// What `mail_list_delta` returns for two mail-list states: `None` for a
/// structural change; otherwise the new key order if it changed, and the
/// upserts.
pub open spec fn spec_mail_list_delta(old: MailListViewState, new: MailListViewState) -> Option<
    (Option<Seq<Seq<char>>>, Seq<MailListRow>),
> {
    if !spec_same_structure(old, new) {
        None
    } else {
        let order = if spec_row_keys(old.rows@) == spec_row_keys(new.rows@) {
            None
        } else {
            Some(spec_row_keys(new.rows@))
        };
        Some((order, spec_upserts(old.rows@, new.rows@)))
    }
}

/// The delta between two snapshots, when both serve mail lists.
pub open spec fn spec_snapshot_delta(old: ViewSnapshot, new: ViewSnapshot) -> Option<
    (Option<Seq<Seq<char>>>, Seq<MailListRow>),
> {
    match (old.data, new.data) {
        (ViewData::MailList(o), ViewData::MailList(n)) => spec_mail_list_delta(o, n),
        _ => None,
    }
}

/// `d` is the delta `expected` describes.
pub open spec fn spec_delta_is(
    d: MailListDelta,
    expected: (Option<Seq<Seq<char>>>, Seq<MailListRow>),
) -> bool {
    &&& match (d.order, expected.0) {
        (None, None) => true,
        (Some(o), Some(keys)) => o@.map_values(|s: String| s@) == keys,
        _ => false,
    }
    &&& d.upserts@ == expected.1
}

fn keys_equal(a: &Vec<MailListRow>, b: &Vec<MailListRow>) -> (r: bool)
    ensures
        r == (spec_row_keys(a@) == spec_row_keys(b@)),
{
    if a.len() != b.len() {
        proof {
            assert(spec_row_keys(a@).len() != spec_row_keys(b@).len());
        }
        return false;
    }
    let mut i: usize = 0;
    while i < a.len()
        invariant
            i <= a@.len(),
            a@.len() == b@.len(),
            forall|j: int| 0 <= j < i ==> (#[trigger] a@[j]).row_key@ == b@[j].row_key@,
        decreases a@.len() - i,
    {
        if !str_eq(a[i].row_key.as_str(), b[i].row_key.as_str()) {
            proof {
                assert(spec_row_keys(a@)[i as int] != spec_row_keys(b@)[i as int]);
            }
            return false;
        }
        i = i + 1;
    }
    assert(spec_row_keys(a@) =~= spec_row_keys(b@));
    true
}

fn last_row_with_key<'a>(rows: &'a Vec<MailListRow>, key: &str) -> (r: Option<&'a MailListRow>)
    ensures
        match spec_last_row_with_key(rows@, key@) {
            Some(x) => r matches Some(y) && *y == x,
            None => r is None,
        },
{
    let mut k: usize = rows.len();
    assert(rows@.subrange(0, rows@.len() as int) =~= rows@);
    while k > 0
        invariant
            k <= rows@.len(),
            spec_last_row_with_key(rows@, key@) == spec_last_row_with_key(
                rows@.subrange(0, k as int),
                key@,
            ),
        decreases k,
    {
        proof {
            let p = rows@.subrange(0, k as int);
            assert(p.drop_last() =~= rows@.subrange(0, k - 1));
            assert(p.last() == rows@[k - 1]);
        }
        if str_eq(rows[k - 1].row_key.as_str(), key) {
            return Some(&rows[k - 1]);
        }
        k = k - 1;
    }
    None
}

fn row_keys(rows: &Vec<MailListRow>) -> (r: Vec<String>)
    ensures
        r@.map_values(|s: String| s@) == spec_row_keys(rows@),
{
    let mut r: Vec<String> = Vec::new();
    let mut i: usize = 0;
    while i < rows.len()
        invariant
            i <= rows@.len(),
            r@.map_values(|s: String| s@) == spec_row_keys(rows@.subrange(0, i as int)),
        decreases rows@.len() - i,
    {
        let ghost before = r@;
        r.push(rows[i].row_key.clone());
        proof {
            assert(r@.map_values(|s: String| s@) =~= before.map_values(|s: String| s@).push(
                rows@[i as int].row_key@,
            ));
            assert(spec_row_keys(rows@.subrange(0, i + 1)) =~= spec_row_keys(
                rows@.subrange(0, i as int),
            ).push(rows@[i as int].row_key@));
        }
        i = i + 1;
    }
    assert(rows@.subrange(0, rows@.len() as int) =~= rows@);
    r
}

/// The row-local delta between two mail-list states.
pub fn mail_list_state_delta(old: &MailListViewState, new: &MailListViewState) -> (r: Option<
    MailListDelta,
>)
    ensures
        match spec_mail_list_delta(*old, *new) {
            None => r is None,
            Some(expected) => r matches Some(d) && spec_delta_is(d, expected),
        },
{
    if !same_structure(old, new) {
        return None;
    }
    let order = if keys_equal(&old.rows, &new.rows) {
        None
    } else {
        Some(row_keys(&new.rows))
    };
    let mut upserts: Vec<MailListRow> = Vec::new();
    let mut i: usize = 0;
    assert(new.rows@.subrange(0, 0) =~= Seq::<MailListRow>::empty());
    while i < new.rows.len()
        invariant
            i <= new.rows@.len(),
            upserts@ == spec_upserts(old.rows@, new.rows@.subrange(0, i as int)),
        decreases new.rows@.len() - i,
    {
        proof {
            let p = new.rows@.subrange(0, i + 1);
            assert(p.drop_last() =~= new.rows@.subrange(0, i as int));
            assert(p.last() == new.rows@[i as int]);
        }
        let row = &new.rows[i];
        let changed = match last_row_with_key(&old.rows, row.row_key.as_str()) {
            Some(o) => !row_eq(o, row),
            None => true,
        };
        if changed {
            upserts.push(row.duplicate());
        }
        i = i + 1;
    }
    assert(new.rows@.subrange(0, new.rows@.len() as int) =~= new.rows@);
    Some(MailListDelta { order, upserts })
}

/// The row-local delta between two snapshots of a view, or `None` when the
/// change is not row-local: a structural change, or a view that is not a
/// mail list (the caller then re-serves the whole view).
pub fn mail_list_delta(old: &ViewSnapshot, new: &ViewSnapshot) -> (r: Option<MailListDelta>)
    ensures
        match spec_snapshot_delta(*old, *new) {
            None => r is None,
            Some(expected) => r matches Some(d) && spec_delta_is(d, expected),
        },
{
    match (&old.data, &new.data) {
        (ViewData::MailList(o), ViewData::MailList(n)) => mail_list_state_delta(o, n),
        _ => None,
    }
}

/// A frame a view emits toward the links that hold it.
#[derive(Debug)]
pub enum ViewFrame {
    Snapshot { snapshot: ViewSnapshot },
    Replace { snapshot: ViewSnapshot },
    Error { view_id: String, revision: u64, error: RuntimeAdapterError },
    Closed { view_id: String },
}

/// A frame a link sends its client (the link stamps its sequence number).
#[derive(Debug)]
pub enum LinkFrame {
    ViewSnapshot { view_id: String, revision: u64, snapshot: ViewSnapshot },
    ViewReplace { view_id: String, revision: u64, snapshot: ViewSnapshot },
    ViewDelta { view_id: String, revision: u64, delta: MailListDelta },
    ViewError { view_id: String, error: RuntimeAdapterError },
    ViewClosed { view_id: String },
    MutationNotification { client_mutation_id: String, notification: MutationNotification },
}

/// The view ids of `ids`.
pub open spec fn spec_id_set(ids: Seq<String>) -> Set<Seq<char>> {
    Set::new(|k: Seq<char>| exists|i: int| 0 <= i < ids.len() && (#[trigger] ids[i])@ == k)
}

pub open spec fn spec_ids_unique(ids: Seq<String>) -> bool {
    forall|i: int, j: int| 0 <= i < j < ids.len() ==> (#[trigger] ids[i])@ != (#[trigger] ids[j])@
}

pub open spec fn spec_snapshots_unique(s: Seq<ViewSnapshot>) -> bool {
    keys_unique(s, snapshot_key())
}

/// Snapshots are found by their view id.
pub open spec fn snapshot_key() -> spec_fn(ViewSnapshot) -> Seq<char> {
    |s: ViewSnapshot| s.view_id@
}

/// The snapshots of `s` by view id.
pub open spec fn spec_snapshot_map(s: Seq<ViewSnapshot>) -> Map<Seq<char>, ViewSnapshot> {
    keyed_map(s, snapshot_key())
}

proof fn lemma_snapshot_map_at(s: Seq<ViewSnapshot>, i: int)
    requires
        spec_snapshots_unique(s),
        0 <= i < s.len(),
    ensures
        spec_snapshot_map(s).contains_key(s[i].view_id@),
        spec_snapshot_map(s)[s[i].view_id@] == s[i],
{
    lemma_keyed_at(s, snapshot_key(), i);
}

proof fn lemma_snapshot_map_update(s: Seq<ViewSnapshot>, i: int, x: ViewSnapshot)
    requires
        spec_snapshots_unique(s),
        0 <= i < s.len(),
        x.view_id@ == s[i].view_id@,
    ensures
        spec_snapshots_unique(s.update(i, x)),
        spec_snapshot_map(s.update(i, x)) == spec_snapshot_map(s).insert(x.view_id@, x),
{
    lemma_keyed_update(s, snapshot_key(), i, x);
}

proof fn lemma_snapshot_map_push(s: Seq<ViewSnapshot>, x: ViewSnapshot)
    requires
        spec_snapshots_unique(s),
        !spec_snapshot_map(s).contains_key(x.view_id@),
    ensures
        spec_snapshots_unique(s.push(x)),
        spec_snapshot_map(s.push(x)) == spec_snapshot_map(s).insert(x.view_id@, x),
{
    lemma_keyed_push(s, snapshot_key(), x);
}

proof fn lemma_snapshot_map_remove(s: Seq<ViewSnapshot>, i: int)
    requires
        spec_snapshots_unique(s),
        0 <= i < s.len(),
    ensures
        spec_snapshots_unique(s.remove(i)),
        spec_snapshot_map(s.remove(i)) == spec_snapshot_map(s).remove(s[i].view_id@),
{
    lemma_keyed_remove(s, snapshot_key(), i);
}

proof fn lemma_id_set_remove(ids: Seq<String>, i: int)
    requires
        spec_ids_unique(ids),
        0 <= i < ids.len(),
    ensures
        spec_ids_unique(ids.remove(i)),
        spec_id_set(ids.remove(i)) == spec_id_set(ids).remove(ids[i]@),
{
    let t = ids.remove(i);
    assert forall|a: int, b: int| 0 <= a < b < t.len() implies (#[trigger] t[a])@ != (
    #[trigger] t[b])@ by {
        let sa = if a < i {
            a
        } else {
            a + 1
        };
        let sb = if b < i {
            b
        } else {
            b + 1
        };
        assert(t[a] == ids[sa] && t[b] == ids[sb]);
        assert(ids[sa]@ != ids[sb]@);
    }
    assert forall|k: Seq<char>| #[trigger] spec_id_set(t).contains(k) <==> spec_id_set(
        ids,
    ).remove(ids[i]@).contains(k) by {
        if spec_id_set(t).contains(k) {
            let j = choose|j: int| 0 <= j < t.len() && (#[trigger] t[j])@ == k;
            let sj = if j < i {
                j
            } else {
                j + 1
            };
            assert(t[j] == ids[sj]);
            if sj < i {
                assert(ids[sj]@ != ids[i]@);
            } else {
                assert(ids[i]@ != ids[sj]@);
            }
        }
        if spec_id_set(ids).remove(ids[i]@).contains(k) {
            let j = choose|j: int| 0 <= j < ids.len() && (#[trigger] ids[j])@ == k;
            assert(j != i);
            let tj = if j < i {
                j
            } else {
                j - 1
            };
            assert(t[tj] == ids[j]);
        }
    }
    assert(spec_id_set(t) =~= spec_id_set(ids).remove(ids[i]@));
}

/// The view-holding part of a client runtime link: the views it has open,
/// the latest snapshot of each, and whether it takes mail-list deltas.
#[derive(Debug)]
pub struct LinkViews {
    delta_capable: bool,
    open_views: Vec<String>,
    latest_snapshots: Vec<ViewSnapshot>,
}

/// What passing `frame` down a link holding `old` makes of it (`new`) and
/// sends (`r`): a snapshot or replace of an open view becomes its latest
/// state and is sent, a replace as a row-local delta when the link takes
/// deltas and the change from the previous snapshot is row-local; an error
/// of an open view is sent as it is; a close of an open view forgets it and
/// is sent; a frame of a view the link does not hold changes nothing and
/// sends nothing (a close still leaves the view out of the open set).
pub open spec fn spec_view_frame_step(old: LinkViews, frame: ViewFrame, new: LinkViews, r: Option<LinkFrame>) -> bool {
    &&& new.takes_deltas() == old.takes_deltas()
    &&& match frame {
        ViewFrame::Snapshot { snapshot } => if old.open_set().contains(
            snapshot.view_id@,
        ) {
            &&& new.snapshots() =~= old.snapshots().insert(
                snapshot.view_id@,
                snapshot,
            )
            &&& new.open_set() =~= old.open_set()
            &&& r matches Some(LinkFrame::ViewSnapshot { view_id, revision, snapshot: s })
                && view_id@ == snapshot.view_id@ && revision == snapshot.revision
                && spec_snapshot_same(s, snapshot)
        } else {
            r is None && new.snapshots() =~= old.snapshots() && new.open_set() =~= old.open_set()
        },
        ViewFrame::Replace { snapshot } => if old.open_set().contains(
            snapshot.view_id@,
        ) {
            &&& new.snapshots() =~= old.snapshots().insert(
                snapshot.view_id@,
                snapshot,
            )
            &&& new.open_set() =~= old.open_set()
            &&& {
                let delta = if old.takes_deltas() && old.snapshots().contains_key(
                    snapshot.view_id@,
                ) {
                    spec_snapshot_delta(old.snapshots()[snapshot.view_id@], snapshot)
                } else {
                    None
                };
                match delta {
                    Some(expected) => r matches Some(
                        LinkFrame::ViewDelta { view_id, revision, delta: d },
                    ) && view_id@ == snapshot.view_id@ && revision == snapshot.revision
                        && spec_delta_is(d, expected),
                    None => r matches Some(
                        LinkFrame::ViewReplace { view_id, revision, snapshot: s },
                    ) && view_id@ == snapshot.view_id@ && revision == snapshot.revision
                        && spec_snapshot_same(s, snapshot),
                }
            }
        } else {
            r is None && new.snapshots() =~= old.snapshots() && new.open_set() =~= old.open_set()
        },
        ViewFrame::Error { view_id, error, .. } => {
            &&& new.snapshots() =~= old.snapshots()
            &&& new.open_set() =~= old.open_set()
            &&& if old.open_set().contains(view_id@) {
                r matches Some(LinkFrame::ViewError { view_id: v, error: e }) && v == view_id
                    && e == error
            } else {
                r is None
            }
        },
        ViewFrame::Closed { view_id } => {
            &&& new.open_set() =~= old.open_set().remove(view_id@)
            &&& if old.open_set().contains(view_id@) {
                &&& new.snapshots() =~= old.snapshots().remove(view_id@)
                &&& r matches Some(LinkFrame::ViewClosed { view_id: v }) && v == view_id
            } else {
                r is None && new.snapshots() =~= old.snapshots()
            }
        },
    }
}

impl LinkViews {
    /// Each open view once, each snapshot under a distinct view.
    pub closed spec fn wf(&self) -> bool {
        spec_ids_unique(self.open_views@) && spec_snapshots_unique(self.latest_snapshots@)
    }

    /// Whether the link takes row-local mail-list deltas in place of whole
    /// replaces.
    pub closed spec fn takes_deltas(&self) -> bool {
        self.delta_capable
    }

    /// Whether the link takes row-local mail-list deltas.
    pub fn delta_capable(&self) -> (r: bool)
        ensures
            r == self.takes_deltas(),
    {
        self.delta_capable
    }

    /// The ids of the open views.
    pub closed spec fn open_set(&self) -> Set<Seq<char>> {
        spec_id_set(self.open_views@)
    }

    /// The latest snapshot of each view, by view id.
    pub closed spec fn snapshots(&self) -> Map<Seq<char>, ViewSnapshot> {
        spec_snapshot_map(self.latest_snapshots@)
    }

    /// How many snapshots the link holds (one per view).
    pub closed spec fn snapshot_count(&self) -> nat {
        self.latest_snapshots@.len()
    }

    /// A link holding no views.
    pub fn new(delta_capable: bool) -> (r: Self)
        ensures
            r.wf(),
            r.takes_deltas() == delta_capable,
            r.open_set() == Set::<Seq<char>>::empty(),
            r.snapshots() == Map::<Seq<char>, ViewSnapshot>::empty(),
            r.snapshot_count() == 0,
    {
        let r = LinkViews { delta_capable, open_views: Vec::new(), latest_snapshots: Vec::new() };
        assert(r.open_set() =~= Set::<Seq<char>>::empty());
        assert(r.snapshots() =~= Map::<Seq<char>, ViewSnapshot>::empty());
        r
    }

    fn find_open(&self, view_id: &str) -> (r: Option<usize>)
        ensures
            match r {
                Some(i) => i < self.open_views@.len() && self.open_views@[i as int]@ == view_id@,
                None => !spec_id_set(self.open_views@).contains(view_id@),
            },
    {
        let mut i: usize = 0;
        while i < self.open_views.len()
            invariant
                i <= self.open_views@.len(),
                forall|j: int| 0 <= j < i ==> (#[trigger] self.open_views@[j])@ != view_id@,
            decreases self.open_views@.len() - i,
        {
            if str_eq(self.open_views[i].as_str(), view_id) {
                return Some(i);
            }
            i = i + 1;
        }
        None
    }

    fn find_snapshot(&self, view_id: &str) -> (r: Option<usize>)
        ensures
            match r {
                Some(i) => i < self.latest_snapshots@.len()
                    && self.latest_snapshots@[i as int].view_id@ == view_id@,
                None => !spec_snapshot_map(self.latest_snapshots@).contains_key(view_id@),
            },
    {
        let mut i: usize = 0;
        while i < self.latest_snapshots.len()
            invariant
                i <= self.latest_snapshots@.len(),
                forall|j: int|
                    0 <= j < i ==> (#[trigger] self.latest_snapshots@[j]).view_id@ != view_id@,
            decreases self.latest_snapshots@.len() - i,
        {
            if str_eq(self.latest_snapshots[i].view_id.as_str(), view_id) {
                return Some(i);
            }
            i = i + 1;
        }
        None
    }

    /// Whether view `view_id` is open on this link.
    pub fn is_open(&self, view_id: &str) -> (r: bool)
        ensures
            r == self.open_set().contains(view_id@),
    {
        let found = self.find_open(view_id);
        proof {
            if let Some(i) = found {
                assert(spec_id_set(self.open_views@).contains(self.open_views@[i as int]@));
            }
        }
        found.is_some()
    }

    /// The latest snapshot the link holds of view `view_id`.
    pub fn latest_snapshot(&self, view_id: &str) -> (r: Option<&ViewSnapshot>)
        requires
            self.wf(),
        ensures
            match r {
                Some(s) => self.snapshots().contains_key(view_id@) && *s
                    == self.snapshots()[view_id@],
                None => !self.snapshots().contains_key(view_id@),
            },
    {
        match self.find_snapshot(view_id) {
            Some(i) => {
                proof {
                    lemma_snapshot_map_at(self.latest_snapshots@, i as int);
                }
                Some(&self.latest_snapshots[i])
            },
            None => None,
        }
    }

    /// Store `snapshot` as the latest of its view; the previous one is
    /// returned.
    fn put_snapshot(&mut self, snapshot: ViewSnapshot) -> (r: Option<ViewSnapshot>)
        requires
            old(self).wf(),
        ensures
            final(self).wf(),
            final(self).snapshots() == old(self).snapshots().insert(snapshot.view_id@, snapshot),
            final(self).open_set() == old(self).open_set(),
            final(self).takes_deltas() == old(self).takes_deltas(),
            match r {
                Some(p) => old(self).snapshots().contains_key(snapshot.view_id@) && p == old(self).snapshots()[snapshot.view_id@],
                None => !old(self).snapshots().contains_key(snapshot.view_id@),
            },
    {
        match self.find_snapshot(snapshot.view_id.as_str()) {
            Some(i) => {
                proof {
                    lemma_snapshot_map_at(self.latest_snapshots@, i as int);
                    lemma_snapshot_map_update(self.latest_snapshots@, i as int, snapshot);
                }
                let ghost before = self.latest_snapshots@;
                let previous = self.latest_snapshots.remove(i);
                self.latest_snapshots.insert(i, snapshot);
                assert(self.latest_snapshots@ =~= before.update(i as int, snapshot));
                Some(previous)
            },
            None => {
                proof {
                    lemma_snapshot_map_push(self.latest_snapshots@, snapshot);
                }
                self.latest_snapshots.push(snapshot);
                None
            },
        }
    }

    /// Open view `snapshot.view_id` on this link with `snapshot` as its
    /// latest state.
    pub fn record_open_view(&mut self, snapshot: ViewSnapshot)
        requires
            old(self).wf(),
        ensures
            final(self).wf(),
            final(self).open_set() == old(self).open_set().insert(snapshot.view_id@),
            final(self).snapshots() == old(self).snapshots().insert(snapshot.view_id@, snapshot),
            final(self).takes_deltas() == old(self).takes_deltas(),
    {
        if self.find_open(snapshot.view_id.as_str()).is_none() {
            let ghost ids = self.open_views@;
            self.open_views.push(snapshot.view_id.clone());
            proof {
                let t = self.open_views@;
                assert forall|a: int, b: int| 0 <= a < b < t.len() implies (#[trigger] t[a])@ != (
                #[trigger] t[b])@ by {
                    if b == ids.len() {
                        assert(t[a] == ids[a]);
                        if ids[a]@ == snapshot.view_id@ {
                            assert(spec_id_set(ids).contains(snapshot.view_id@));
                        }
                    } else {
                        assert(t[a] == ids[a] && t[b] == ids[b]);
                    }
                }
                assert forall|k: Seq<char>| #[trigger] spec_id_set(t).contains(k) <==> spec_id_set(
                    ids,
                ).insert(snapshot.view_id@).contains(k) by {
                    if spec_id_set(t).contains(k) {
                        let j = choose|j: int| 0 <= j < t.len() && (#[trigger] t[j])@ == k;
                        if j < ids.len() {
                            assert(t[j] == ids[j]);
                        }
                    }
                    if spec_id_set(ids).contains(k) {
                        let j = choose|j: int| 0 <= j < ids.len() && (#[trigger] ids[j])@ == k;
                        assert(t[j] == ids[j]);
                    }
                    if k == snapshot.view_id@ {
                        assert(t[ids.len() as int]@ == k);
                    }
                }
                assert(spec_id_set(t) =~= spec_id_set(ids).insert(snapshot.view_id@));
            }
        } else {
            assert(self.open_set() =~= self.open_set().insert(snapshot.view_id@));
        }
        self.put_snapshot(snapshot);
    }

    /// Close view `view_id` on this link: it leaves the open set and its
    /// snapshot is dropped. Whether it was open is returned.
    fn close(&mut self, view_id: &str) -> (r: bool)
        requires
            old(self).wf(),
        ensures
            final(self).wf(),
            r == old(self).open_set().contains(view_id@),
            final(self).open_set() == old(self).open_set().remove(view_id@),
            r ==> final(self).snapshots() == old(self).snapshots().remove(view_id@),
            !r ==> final(self).snapshots() == old(self).snapshots(),
            final(self).takes_deltas() == old(self).takes_deltas(),
    {
        match self.find_open(view_id) {
            None => {
                assert(self.open_set() =~= self.open_set().remove(view_id@));
                false
            },
            Some(i) => {
                proof {
                    lemma_id_set_remove(self.open_views@, i as int);
                    assert(spec_id_set(self.open_views@).contains(self.open_views@[i as int]@));
                }
                self.open_views.remove(i);
                match self.find_snapshot(view_id) {
                    Some(j) => {
                        proof {
                            lemma_snapshot_map_remove(self.latest_snapshots@, j as int);
                        }
                        self.latest_snapshots.remove(j);
                    },
                    None => {
                        assert(self.snapshots() =~= self.snapshots().remove(view_id@));
                    },
                }
                true
            },
        }
    }

    /// Drop view `view_id` from this link: it leaves the open set and its
    /// snapshot, if any, is dropped.
    pub fn forget_view(&mut self, view_id: &str)
        requires
            old(self).wf(),
        ensures
            final(self).wf(),
            final(self).open_set() == old(self).open_set().remove(view_id@),
            final(self).snapshots() == old(self).snapshots().remove(view_id@),
            final(self).takes_deltas() == old(self).takes_deltas(),
    {
        if !self.close(view_id) {
            match self.find_snapshot(view_id) {
                Some(j) => {
                    proof {
                        lemma_snapshot_map_remove(self.latest_snapshots@, j as int);
                    }
                    self.latest_snapshots.remove(j);
                },
                None => {
                    assert(self.snapshots() =~= self.snapshots().remove(view_id@));
                },
            }
        }
    }

    /// The ids of the views open on this link, each once.
    pub fn open_view_ids(&self) -> (r: Vec<String>)
        requires
            self.wf(),
        ensures
            spec_ids_unique(r@),
            spec_id_set(r@) == self.open_set(),
    {
        let r = crate::domain::dup_strings(&self.open_views);
        assert(spec_id_set(r@) =~= self.open_set());
        r
    }

    /// Take a refreshed snapshot of view `snapshot.view_id` as its latest
    /// state, if the view is still open here; whether it was.
    pub fn refresh_snapshot(&mut self, snapshot: ViewSnapshot) -> (r: bool)
        requires
            old(self).wf(),
        ensures
            final(self).wf(),
            r == old(self).open_set().contains(snapshot.view_id@),
            final(self).open_set() == old(self).open_set(),
            final(self).takes_deltas() == old(self).takes_deltas(),
            if r {
                final(self).snapshots() == old(self).snapshots().insert(snapshot.view_id@, snapshot)
            } else {
                final(self).snapshots() == old(self).snapshots()
            },
    {
        if self.is_open(snapshot.view_id.as_str()) {
            self.put_snapshot(snapshot);
            true
        } else {
            false
        }
    }

    /// The link frame a view frame becomes on this link, or `None` when the
    /// view is not open here (a closing view's frame then also changes
    /// nothing). A snapshot or replace becomes the view's latest state; a
    /// replace is sent as a row-local delta when the link takes deltas and the
    /// change from the previous snapshot is row-local.
    pub fn view_frame_to_runtime(&mut self, frame: ViewFrame) -> (r: Option<LinkFrame>)
        requires
            old(self).wf(),
        ensures
            final(self).wf(),
            final(self).takes_deltas() == old(self).takes_deltas(),
            spec_view_frame_step(*old(self), frame, *final(self), r),
    {
        match frame {
            ViewFrame::Snapshot { snapshot } => {
                if !self.is_open(snapshot.view_id.as_str()) {
                    return None;
                }
                let view_id = snapshot.view_id.clone();
                let revision = snapshot.revision;
                let sent = snapshot.duplicate();
                self.put_snapshot(snapshot);
                Some(LinkFrame::ViewSnapshot { view_id, revision, snapshot: sent })
            },
            ViewFrame::Replace { snapshot } => {
                if !self.is_open(snapshot.view_id.as_str()) {
                    return None;
                }
                let view_id = snapshot.view_id.clone();
                let revision = snapshot.revision;
                let sent = snapshot.duplicate();
                let ghost original = snapshot;
                let previous = self.put_snapshot(snapshot);
                if self.delta_capable {
                    if let Some(old) = &previous {
                        assert(spec_snapshot_delta(*old, sent) == spec_snapshot_delta(*old, original));
                        if let Some(delta) = mail_list_delta(old, &sent) {
                            return Some(LinkFrame::ViewDelta { view_id, revision, delta });
                        }
                    }
                }
                Some(LinkFrame::ViewReplace { view_id, revision, snapshot: sent })
            },
            ViewFrame::Error { view_id, error, .. } => {
                if !self.is_open(view_id.as_str()) {
                    return None;
                }
                Some(LinkFrame::ViewError { view_id, error })
            },
            ViewFrame::Closed { view_id } => {
                if !self.close(view_id.as_str()) {
                    return None;
                }
                Some(LinkFrame::ViewClosed { view_id })
            },
        }
    }
}


/// How a mutation settled at the far end.
#[derive(Clone, Copy, Debug, PartialEq, Eq, Structural)]
pub enum MutationSettlementState {
    Accepted,
    Confirmed,
    Failed,
}

/// What the dedup ledger keeps of a settled mutation: `Confirmed` is kept,
/// `Failed` is cleared so a retry re-executes, `Rejected` is kept so a
/// reconnecting client sees it again.
#[derive(Clone, Copy, Debug, PartialEq, Eq, Structural)]
pub enum TerminalClass {
    Confirmed,
    Failed,
    Rejected,
}

pub open spec fn spec_terminal_class(
    state: MutationSettlementState,
    error: Option<RuntimeAdapterError>,
) -> TerminalClass {
    match state {
        MutationSettlementState::Confirmed => TerminalClass::Confirmed,
        MutationSettlementState::Failed => if error matches Some(e) && e.terminality
            == Terminality::Transient {
            TerminalClass::Failed
        } else {
            TerminalClass::Rejected
        },
        MutationSettlementState::Accepted => TerminalClass::Rejected,
    }
}

/// The terminal class of a settlement: a transient failure is `Failed`, a
/// permanent one (or one without an error) `Rejected`; `Accepted` is not
/// terminal and is classed `Rejected` defensively.
pub fn terminal_class_for(state: MutationSettlementState, error: Option<&RuntimeAdapterError>) -> (r:
    TerminalClass)
    ensures
        r == spec_terminal_class(
            state,
            match error {
                Some(e) => Some(*e),
                None => None,
            },
        ),
{
    match state {
        MutationSettlementState::Confirmed => TerminalClass::Confirmed,
        MutationSettlementState::Failed => {
            let transient = match error {
                Some(e) => e.terminality.is_transient(),
                None => false,
            };
            if transient {
                TerminalClass::Failed
            } else {
                TerminalClass::Rejected
            }
        },
        MutationSettlementState::Accepted => TerminalClass::Rejected,
    }
}

/// The terminal verdict a client is told of a mutation.
#[derive(Debug)]
pub enum MutationNotification {
    Confirmed,
    Rejected { error: RuntimeAdapterError },
}

pub const REJECTED_WITHOUT_ERROR_MESSAGE: &'static str = "mutation rejected without an error";

/// The verdict to publish for a mutation in `state`: none while it is only
/// accepted; a failure is a rejection carrying its error (an internal error
/// when it has none).
pub fn mutation_notification(state: MutationSettlementState, error: Option<&RuntimeAdapterError>) -> (r:
    Option<MutationNotification>)
    ensures
        match state {
            MutationSettlementState::Accepted => r is None,
            MutationSettlementState::Confirmed => r matches Some(MutationNotification::Confirmed),
            MutationSettlementState::Failed => r matches Some(
                MutationNotification::Rejected { error: e },
            ) && match error {
                Some(x) => e == *x,
                None => e.code == RuntimeErrorCode::Internal && e.message@
                    == REJECTED_WITHOUT_ERROR_MESSAGE@ && e.terminality == Terminality::Permanent,
            },
        },
{
    match state {
        MutationSettlementState::Accepted => None,
        MutationSettlementState::Confirmed => Some(MutationNotification::Confirmed),
        MutationSettlementState::Failed => {
            let e = match error {
                Some(x) => x.duplicate(),
                None => RuntimeError::new(
                    RuntimeErrorCode::Internal,
                    owned(REJECTED_WITHOUT_ERROR_MESSAGE),
                ).0,
            };
            Some(MutationNotification::Rejected { error: e })
        },
    }
}

/// Two account scopes list the same accounts in the same order.
pub open spec fn spec_scope_eq(a: Seq<String>, b: Seq<String>) -> bool {
    a.len() == b.len() && forall|i: int| 0 <= i < a.len() ==> (#[trigger] a[i])@ == b[i]@
}

fn scopes_equal(a: &Vec<String>, b: &Vec<String>) -> (r: bool)
    ensures
        r == spec_scope_eq(a@, b@),
{
    if a.len() != b.len() {
        return false;
    }
    let mut i: usize = 0;
    while i < a.len()
        invariant
            i <= a@.len(),
            a@.len() == b@.len(),
            forall|j: int| 0 <= j < i ==> (#[trigger] a@[j])@ == b@[j]@,
        decreases a@.len() - i,
    {
        if !str_eq(a[i].as_str(), b[i].as_str()) {
            return false;
        }
        i = i + 1;
    }
    true
}

pub const LINK_FULL_SCOPE_MESSAGE: &'static str =
    "account-scoped caller cannot access a full-scope runtime link";

pub const LINK_SCOPE_MISMATCH_MESSAGE: &'static str =
    "caller account scope does not match runtime link";

pub const SESSION_FULL_SCOPE_MESSAGE: &'static str =
    "account-scoped caller cannot access a full-scope runtime session";

pub const SESSION_SCOPE_MISMATCH_MESSAGE: &'static str =
    "caller account scope does not match runtime session";

/// Which refusal, if any, a caller with `caller` scope meets on a link or
/// session opened with `holder` scope: an unscoped caller may use any; a
/// scoped caller only one opened with the same scope.
pub open spec fn spec_scope_refusal(
    holder: Option<Seq<String>>,
    caller: Option<Seq<String>>,
    full_message: Seq<char>,
    mismatch_message: Seq<char>,
) -> Option<Seq<char>> {
    match (holder, caller) {
        (_, None) => None,
        (None, Some(_)) => Some(full_message),
        (Some(h), Some(c)) => if spec_scope_eq(h, c) {
            None
        } else {
            Some(mismatch_message)
        },
    }
}

pub open spec fn opt_view(s: Option<&Vec<String>>) -> Option<Seq<String>> {
    match s {
        Some(v) => Some(v@),
        None => None,
    }
}

/// `r` is the outcome `refusal` describes: `Ok`, or `Unauthorized` with its
/// message.
pub open spec fn spec_scope_outcome(r: Result<(), RuntimeError>, refusal: Option<Seq<char>>) -> bool {
    match refusal {
        None => r is Ok,
        Some(m) => r matches Err(e) && e.0.code == RuntimeErrorCode::Unauthorized && e.0.message@
            == m && e.0.terminality == Terminality::Permanent,
    }
}

fn ensure_caller_matches(
    holder: Option<&Vec<String>>,
    caller: Option<&Vec<String>>,
    full_message: &str,
    mismatch_message: &str,
) -> (r: Result<(), RuntimeError>)
    ensures
        spec_scope_outcome(
            r,
            spec_scope_refusal(opt_view(holder), opt_view(caller), full_message@, mismatch_message@),
        ),
{
    match (holder, caller) {
        (_, None) => Ok(()),
        (None, Some(_)) => Err(RuntimeError::new(RuntimeErrorCode::Unauthorized, owned(full_message))),
        (Some(h), Some(c)) => {
            if scopes_equal(h, c) {
                Ok(())
            } else {
                Err(RuntimeError::new(RuntimeErrorCode::Unauthorized, owned(mismatch_message)))
            }
        },
    }
}

/// A caller may use a link when it is unscoped or its scope is the link's.
pub fn ensure_caller_matches_link(link_scope: Option<&Vec<String>>, caller_scope: Option<&Vec<String>>) -> (r:
    Result<(), RuntimeError>)
    ensures
        spec_scope_outcome(
            r,
            spec_scope_refusal(
                opt_view(link_scope),
                opt_view(caller_scope),
                LINK_FULL_SCOPE_MESSAGE@,
                LINK_SCOPE_MISMATCH_MESSAGE@,
            ),
        ),
{
    ensure_caller_matches(
        link_scope,
        caller_scope,
        LINK_FULL_SCOPE_MESSAGE,
        LINK_SCOPE_MISMATCH_MESSAGE,
    )
}

/// A caller may use a session when it is unscoped or its scope is the
/// session's.
pub fn ensure_caller_matches_session(
    session_scope: Option<&Vec<String>>,
    caller_scope: Option<&Vec<String>>,
) -> (r: Result<(), RuntimeError>)
    ensures
        spec_scope_outcome(
            r,
            spec_scope_refusal(
                opt_view(session_scope),
                opt_view(caller_scope),
                SESSION_FULL_SCOPE_MESSAGE@,
                SESSION_SCOPE_MISMATCH_MESSAGE@,
            ),
        ),
{
    ensure_caller_matches(
        session_scope,
        caller_scope,
        SESSION_FULL_SCOPE_MESSAGE,
        SESSION_SCOPE_MISMATCH_MESSAGE,
    )
}

/// Whether an event reaches a link (or session) with `account_scope`: all
/// events without a scope, else those of an account in it.
pub fn event_matches_link_scope(event: &DomainEvent, account_scope: Option<&Vec<String>>) -> (r:
    bool)
    ensures
        r == match account_scope {
            None => true,
            Some(scope) => exists|i: int|
                0 <= i < scope@.len() && (#[trigger] scope@[i])@ == event.account_id@,
        },
{
    match account_scope {
        None => true,
        Some(scope) => crate::text::contains_str(scope, event.account_id.as_str()),
    }
}

/// Seconds a link may stay without a live down-stream before it is reaped.
pub const SESSION_IDLE_TTL: u64 = 300;

/// The idle reaper's verdict on one link: a link with a live down-stream is
/// kept and its activity tick refreshed to `now`; otherwise it is reaped
/// once idle longer than the TTL since its last activity.
pub fn idle_reap_verdict(live_streams: usize, last_active: &mut u64, now: u64) -> (reap: bool)
    ensures
        live_streams > 0 ==> !reap && *final(last_active) == now,
        live_streams == 0 ==> *final(last_active) == *old(last_active) && reap == (
        (if now >= *old(last_active) {
            now - *old(last_active)
        } else {
            0
        }) > SESSION_IDLE_TTL),
{
    if live_streams > 0 {
        *last_active = now;
        return false;
    }
    now.saturating_sub(*last_active) > SESSION_IDLE_TTL
}


/// A typed mail operation a client forwards: its name and its arguments as
/// canonical JSON text (object keys sorted), so equal operations have equal
/// text.
#[derive(Debug)]
pub struct MailOperation {
    pub name: String,
    pub arguments: String,
}

/// A mutation a link accepted, as the dedup ledger records it. `output` is
/// JSON text.
#[derive(Debug)]
pub struct StoredMutation {
    pub mutation_id: String,
    pub client_mutation_id: String,
    pub operation: MailOperation,
    pub state: MutationSettlementState,
    pub error: Option<RuntimeAdapterError>,
    pub output: String,
}

/// `n` is the notification `mutation_notification` gives for a terminal
/// mutation in `state` with `error`.
pub open spec fn spec_notification_for(
    n: MutationNotification,
    state: MutationSettlementState,
    error: Option<RuntimeAdapterError>,
) -> bool {
    match state {
        MutationSettlementState::Accepted => false,
        MutationSettlementState::Confirmed => n matches MutationNotification::Confirmed,
        MutationSettlementState::Failed => n matches MutationNotification::Rejected { error: e }
            && match error {
            Some(x) => e == x,
            None => e.code == RuntimeErrorCode::Internal && e.message@
                == REJECTED_WITHOUT_ERROR_MESSAGE@ && e.terminality == Terminality::Permanent,
        },
    }
}

/// The mutation ids of `muts`.
pub open spec fn spec_mutation_ids(muts: Seq<StoredMutation>) -> Seq<Seq<char>> {
    muts.map_values(|m: StoredMutation| m.mutation_id@)
}

/// The positions of `order` whose mutation is terminal (not merely
/// accepted), in order.
pub open spec fn spec_terminal_positions(muts: Seq<StoredMutation>, order: Seq<usize>) -> Seq<usize>
    decreases order.len(),
{
    if order.len() == 0 {
        Seq::empty()
    } else {
        let rest = spec_terminal_positions(muts, order.drop_last());
        if muts[order.last() as int].state != MutationSettlementState::Accepted {
            rest.push(order.last())
        } else {
            rest
        }
    }
}

proof fn lemma_terminal_positions_len(muts: Seq<StoredMutation>, order: Seq<usize>)
    ensures
        spec_terminal_positions(muts, order).len() <= order.len(),
    decreases order.len(),
{
    if order.len() > 0 {
        lemma_terminal_positions_len(muts, order.drop_last());
    }
}

fn snapshot_ids(snaps: &Vec<ViewSnapshot>) -> (r: Vec<String>)
    ensures
        r@.map_values(|k: String| k@) == snaps@.map_values(|s: ViewSnapshot| s.view_id@),
{
    let mut r: Vec<String> = Vec::new();
    let mut i: usize = 0;
    while i < snaps.len()
        invariant
            i <= snaps@.len(),
            r@.map_values(|k: String| k@) == snaps@.subrange(0, i as int).map_values(
                |s: ViewSnapshot| s.view_id@,
            ),
        decreases snaps@.len() - i,
    {
        let ghost before = r@;
        r.push(snaps[i].view_id.clone());
        proof {
            assert(r@.map_values(|k: String| k@) =~= before.map_values(|k: String| k@).push(
                snaps@[i as int].view_id@,
            ));
            assert(snaps@.subrange(0, i + 1).map_values(|s: ViewSnapshot| s.view_id@) =~= snaps@.subrange(
                0,
                i as int,
            ).map_values(|s: ViewSnapshot| s.view_id@).push(snaps@[i as int].view_id@));
        }
        i = i + 1;
    }
    assert(snaps@.subrange(0, snaps@.len() as int) =~= snaps@);
    r
}

fn mutation_ids(muts: &Vec<StoredMutation>) -> (r: Vec<String>)
    ensures
        r@.map_values(|k: String| k@) == spec_mutation_ids(muts@),
{
    let mut r: Vec<String> = Vec::new();
    let mut i: usize = 0;
    while i < muts.len()
        invariant
            i <= muts@.len(),
            r@.map_values(|k: String| k@) == spec_mutation_ids(muts@.subrange(0, i as int)),
        decreases muts@.len() - i,
    {
        let ghost before = r@;
        r.push(muts[i].mutation_id.clone());
        proof {
            assert(r@.map_values(|k: String| k@) =~= before.map_values(|k: String| k@).push(
                muts@[i as int].mutation_id@,
            ));
            assert(spec_mutation_ids(muts@.subrange(0, i + 1)) =~= spec_mutation_ids(
                muts@.subrange(0, i as int),
            ).push(muts@[i as int].mutation_id@));
        }
        i = i + 1;
    }
    assert(muts@.subrange(0, muts@.len() as int) =~= muts@);
    r
}

/// The view id of a snapshot frame.
pub open spec fn spec_snapshot_frame_id(f: LinkFrame) -> Option<Seq<char>> {
    match f {
        LinkFrame::ViewSnapshot { view_id, .. } => Some(view_id@),
        _ => None,
    }
}

/// `f` is a snapshot frame carrying the same values as `snapshot`.
pub open spec fn spec_snapshot_frame_of(f: LinkFrame, snapshot: ViewSnapshot) -> bool {
    match f {
        LinkFrame::ViewSnapshot { view_id, revision, snapshot: s } => view_id == snapshot.view_id
            && revision == snapshot.revision && spec_snapshot_same(s, snapshot),
        _ => false,
    }
}

/// `f` is the notification frame of terminal mutation `m`.
pub open spec fn spec_notification_frame_of(f: LinkFrame, m: StoredMutation) -> bool {
    match f {
        LinkFrame::MutationNotification { client_mutation_id, notification } => client_mutation_id
            == m.client_mutation_id && spec_notification_for(notification, m.state, m.error),
        _ => false,
    }
}

/// `f` is a snapshot frame of a view of `snapshots`, with its values.
pub open spec fn spec_frame_held(f: LinkFrame, snapshots: Map<Seq<char>, ViewSnapshot>) -> bool {
    match spec_snapshot_frame_id(f) {
        Some(id) => snapshots.contains_key(id) && spec_snapshot_frame_of(f, snapshots[id]),
        None => false,
    }
}

/// `frames` are `n` snapshot frames of the views of `snapshots`, each once,
/// by strictly increasing view id, then the notification frames of the
/// terminal mutations of `muts`, taken in the order `mo`.
pub open spec fn spec_collapse_shape(
    snapshots: Map<Seq<char>, ViewSnapshot>,
    muts: Seq<StoredMutation>,
    frames: Seq<LinkFrame>,
    n: nat,
    mo: Seq<usize>,
) -> bool {
    let terminal = spec_terminal_positions(muts, mo);
    &&& spec_is_stable_order(spec_mutation_ids(muts), mo)
    &&& frames.len() == n + terminal.len()
    &&& forall|p: int| 0 <= p < n ==> #[trigger] spec_frame_held(frames[p], snapshots)
    &&& forall|p: int, q: int|
        0 <= p < q < n ==> spec_str_lt(
            (#[trigger] spec_snapshot_frame_id(frames[p]))->0,
            (#[trigger] spec_snapshot_frame_id(frames[q]))->0,
        )
    &&& forall|k: Seq<char>|
        #[trigger] snapshots.contains_key(k) ==> exists|p: int|
            0 <= p < n && spec_snapshot_frame_id(frames[p]) == Some(k)
    &&& forall|q: int|
        0 <= q < terminal.len() ==> #[trigger] spec_notification_frame_of(
            frames[n + q],
            muts[terminal[q] as int],
        )
}

impl LinkViews {
    /// The frames that bring a reconnecting client up to date: a snapshot of
    /// every view the link holds, by increasing view id, then the terminal
    /// verdict of each mutation in `mutations` still in the window, by
    /// mutation id (equal ids keep their order); merely accepted mutations are
    /// left to the client's own pending set.
    pub fn collapse_frames(&self, mutations: &Vec<StoredMutation>) -> (r: Vec<LinkFrame>)
        requires
            self.wf(),
        ensures
            exists|n: nat, mo: Seq<usize>| spec_collapse_shape(self.snapshots(), mutations@, r@, n, mo),
            r@.len() <= self.snapshot_count() + mutations@.len(),
    {
        let snaps = &self.latest_snapshots;
        let ids = snapshot_ids(snaps);
        let so = stable_order(&ids);
        let ghost ks = ids@.map_values(|k: String| k@);
        let mut frames: Vec<LinkFrame> = Vec::new();
        let mut p: usize = 0;
        while p < so.len()
            invariant
                self.wf(),
                snaps == &self.latest_snapshots,
                ks == snaps@.map_values(|s: ViewSnapshot| s.view_id@),
                spec_is_stable_order(ks, so@),
                p <= so@.len(),
                frames@.len() == p,
                forall|a: int|
                    0 <= a < p ==> #[trigger] spec_snapshot_frame_of(
                        frames@[a],
                        snaps@[so@[a] as int],
                    ),
            decreases so@.len() - p,
        {
            let s = &snaps[so[p]];
            let snapshot = s.duplicate();
            frames.push(
                LinkFrame::ViewSnapshot {
                    view_id: snapshot.view_id.clone(),
                    revision: snapshot.revision,
                    snapshot,
                },
            );
            proof {
                assert(spec_snapshot_frame_of(frames@[p as int], snaps@[so@[p as int] as int]));
            }
            p = p + 1;
        }
        let n = frames.len();
        let mids = mutation_ids(mutations);
        let mo = stable_order(&mids);
        let mut q: usize = 0;
        assert(mo@.subrange(0, 0) =~= Seq::<usize>::empty());
        while q < mo.len()
            invariant
                n == so@.len(),
                spec_is_stable_order(spec_mutation_ids(mutations@), mo@),
                q <= mo@.len(),
                frames@.len() == n + spec_terminal_positions(
                    mutations@,
                    mo@.subrange(0, q as int),
                ).len(),
                forall|a: int|
                    0 <= a < n ==> #[trigger] spec_snapshot_frame_of(
                        frames@[a],
                        snaps@[so@[a] as int],
                    ),
                forall|b: int|
                    0 <= b < spec_terminal_positions(mutations@, mo@.subrange(0, q as int)).len()
                        ==> #[trigger] spec_notification_frame_of(
                        frames@[n + b],
                        mutations@[spec_terminal_positions(
                            mutations@,
                            mo@.subrange(0, q as int),
                        )[b] as int],
                    ),
            decreases mo@.len() - q,
        {
            let ghost prefix = mo@.subrange(0, q as int);
            let ghost next = mo@.subrange(0, q + 1);
            proof {
                assert(next.drop_last() =~= prefix);
                assert(next.last() == mo@[q as int]);
            }
            let m = &mutations[mo[q]];
            let note = mutation_notification(m.state, m.error.as_ref());
            let ghost before = frames@;
            match note {
                Some(notification) => {
                    frames.push(
                        LinkFrame::MutationNotification {
                            client_mutation_id: m.client_mutation_id.clone(),
                            notification,
                        },
                    );
                },
                None => {},
            }
            proof {
                let t0 = spec_terminal_positions(mutations@, prefix);
                let t1 = spec_terminal_positions(mutations@, next);
                assert forall|a: int| 0 <= a < n implies #[trigger] spec_snapshot_frame_of(
                    frames@[a],
                    snaps@[so@[a] as int],
                ) by {
                    assert(frames@[a] == before[a]);
                }
                assert forall|b: int| 0 <= b < t1.len() implies #[trigger] spec_notification_frame_of(
                    frames@[n + b],
                    mutations@[t1[b] as int],
                ) by {
                    if b < t0.len() {
                        assert(t1[b] == t0[b]);
                        assert(frames@[n + b] == before[n + b]);
                    }
                }
            }
            q = q + 1;
        }
        proof {
            assert(mo@.subrange(0, mo@.len() as int) =~= mo@);
            let snapshots = self.snapshots();
            assert forall|a: int| 0 <= a < n implies #[trigger] spec_frame_held(
                frames@[a],
                snapshots,
            ) by {
                assert(spec_snapshot_frame_of(frames@[a], snaps@[so@[a] as int]));
                lemma_snapshot_map_at(snaps@, so@[a] as int);
            }
            assert forall|a: int, b: int| 0 <= a < b < n implies spec_str_lt(
                (#[trigger] spec_snapshot_frame_id(frames@[a]))->0,
                (#[trigger] spec_snapshot_frame_id(frames@[b]))->0,
            ) by {
                assert(spec_snapshot_frame_of(frames@[a], snaps@[so@[a] as int]));
                assert(spec_snapshot_frame_of(frames@[b], snaps@[so@[b] as int]));
                assert(spec_pos_lt(ks, so@[a] as int, so@[b] as int));
                let i = so@[a] as int;
                let j = so@[b] as int;
                assert(ks[i] == snaps@[i].view_id@);
                assert(ks[j] == snaps@[j].view_id@);
                if i < j {
                    assert(snaps@[i].view_id@ != snaps@[j].view_id@);
                } else if j < i {
                    assert(snaps@[j].view_id@ != snaps@[i].view_id@);
                }
            }
            assert forall|k: Seq<char>| #[trigger] snapshots.contains_key(k) implies exists|a: int|
                0 <= a < n && spec_snapshot_frame_id(frames@[a]) == Some(k) by {
                let i = choose|i: int| 0 <= i < snaps@.len() && (#[trigger] snaps@[i]).view_id@ == k;
                assert(ks[i] == k);
                assert(crate::ordering::spec_listed(so@, i));
                let a = choose|a: int| 0 <= a < so@.len() && so@[a] == i;
                assert(spec_snapshot_frame_of(frames@[a], snaps@[so@[a] as int]));
            }
            assert(spec_collapse_shape(snapshots, mutations@, frames@, n as nat, mo@));
            lemma_terminal_positions_len(mutations@, mo@);
            assert(so@.len() == ks.len());
            assert(mo@.len() == spec_mutation_ids(mutations@).len());
        }
        frames
    }

    /// Whether the link holds no snapshot.
    pub fn holds_no_snapshot(&self) -> (r: bool)
        requires
            self.wf(),
        ensures
            r == self.snapshots().dom().is_empty(),
    {
        proof {
            if self.latest_snapshots@.len() == 0 {
                assert(self.snapshots().dom() =~= Set::<Seq<char>>::empty());
            } else {
                lemma_snapshot_map_at(self.latest_snapshots@, 0);
                assert(self.snapshots().dom().contains(self.latest_snapshots@[0].view_id@));
            }
        }
        self.latest_snapshots.len() == 0
    }

    /// The catch-up frames of a (re)subscribe whose resume cursor the
    /// sequence store judged `resume`: a client that is current (fresh, or
    /// replaying at the head) gets nothing when the link holds no snapshot
    /// and no mutation; otherwise the collapsed state of the link.
    pub fn catch_up_frames(&self, resume: ResumeKind, mutations: &Vec<StoredMutation>) -> (r: Vec<
        LinkFrame,
    >)
        requires
            self.wf(),
        ensures
            if resume != ResumeKind::Collapse && self.snapshots().dom().is_empty()
                && mutations@.len() == 0 {
                r@.len() == 0
            } else {
                exists|n: nat, mo: Seq<usize>| spec_collapse_shape(self.snapshots(), mutations@, r@, n, mo)
            },
    {
        let held_nothing = self.latest_snapshots.len() == 0 && mutations.len() == 0;
        proof {
            if self.latest_snapshots@.len() == 0 {
                assert(self.snapshots().dom() =~= Set::<Seq<char>>::empty());
            } else {
                lemma_snapshot_map_at(self.latest_snapshots@, 0);
                assert(self.snapshots().dom().contains(self.latest_snapshots@[0].view_id@));
            }
        }
        if resume != ResumeKind::Collapse && held_nothing {
            Vec::new()
        } else {
            self.collapse_frames(mutations)
        }
    }
}

/// How the sequence store judged a subscriber's resume cursor: no cursor, a
/// cursor at the head, or a stale cursor that calls for a collapse.
#[derive(Clone, Copy, Debug, PartialEq, Eq, Structural)]
pub enum ResumeKind {
    Fresh,
    Replay,
    Collapse,
}

} // verus!
