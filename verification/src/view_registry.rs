//! The serving side of runtime views: the registry of open views, their ids,
//! and the decisions around open, extend, subscribe, recompute and close.
//! Building a snapshot reads the store and stays with the caller; the
//! registry decides what is asked for and what a built snapshot changes.
use vstd::prelude::*;

use crate::errors::{owned, RuntimeAdapterError, RuntimeError, RuntimeErrorCode, Terminality};
use crate::keyed::{
    keyed_map, keys_unique, lemma_keyed_at, lemma_keyed_push, lemma_keyed_remove,
    lemma_keyed_update,
};
use crate::links::{
    opt_eq, row_eq, same_structure, spec_opt_eq, spec_row_eq, spec_same_structure,
    spec_snapshot_same, MailListRow, ViewData, ViewFrame, ViewSnapshot,
};
use crate::text::{
    chars_of, lemma_decimal_injective, push_decimal, spec_decimal, str_eq, string_of,
};
use crate::domain::DomainEvent;
use crate::views::{
    event_affects_view, grow_message_window, spec_event_affects_view, spec_kind_in_scope,
    spec_window_grown, validate_kind_account_scope, ViewKind,
    OUT_OF_SCOPE_MESSAGE,
};

verus! {

pub const VIEW_ID_PREFIX: &'static str = "view-";

pub const VIEW_NOT_FOUND_MESSAGE: &'static str = "view not found";

pub const NO_WINDOW_EXTENSION_MESSAGE: &'static str =
    "view family does not support window extension";

/// What a client asked to open: the family, its JSON payload, and whether
/// the client keeps the view's membership up to date itself.
#[derive(Debug)]
pub struct ViewDescriptor {
    pub family: String,
    pub payload: String,
    pub client_self_maintained: bool,
}

/// An open view: its id, what was asked for, what it is, and the snapshot it
/// serves now.
#[derive(Debug)]
pub struct StoredView {
    pub view_id: String,
    pub descriptor: ViewDescriptor,
    pub kind: ViewKind,
    pub snapshot: ViewSnapshot,
}

/// Open views are found by their id.
pub open spec fn view_key() -> spec_fn(StoredView) -> Seq<char> {
    |v: StoredView| v.view_id@
}

/// The id the registry gives the view it opens `n`-th: `view-{n}`.
pub open spec fn spec_view_id_text(n: u64) -> Seq<char> {
    VIEW_ID_PREFIX@ + spec_decimal(n as nat)
}

/// `n + 1`, wrapping to zero past `u64::MAX`.
pub open spec fn spec_counter_next(n: u64) -> u64 {
    if n == u64::MAX {
        0
    } else {
        (n + 1) as u64
    }
}

/// Views opened at different counter values get different ids: the ids the
/// registry draws repeat only once the counter wraps around.
pub proof fn law_view_ids_distinct(a: u64, b: u64)
    requires
        a != b,
    ensures
        spec_view_id_text(a) != spec_view_id_text(b),
{
    let p = VIEW_ID_PREFIX@;
    if spec_view_id_text(a) == spec_view_id_text(b) {
        assert(spec_view_id_text(a).subrange(p.len() as int, spec_view_id_text(a).len() as int)
            =~= spec_decimal(a as nat));
        assert(spec_view_id_text(b).subrange(p.len() as int, spec_view_id_text(b).len() as int)
            =~= spec_decimal(b as nat));
        lemma_decimal_injective(a as nat, b as nat);
    }
}

/// The error for a view id that no open view has.
pub open spec fn is_view_not_found(e: RuntimeError) -> bool {
    &&& e.0.code == RuntimeErrorCode::NotFound
    &&& e.0.terminality == Terminality::Permanent
    &&& e.0.message@ == VIEW_NOT_FOUND_MESSAGE@
}

/// The error for a caller whose account scope does not reach the view.
pub open spec fn is_out_of_scope(e: RuntimeError) -> bool {
    &&& e.0.code == RuntimeErrorCode::InvalidDescriptor
    &&& e.0.terminality == Terminality::Permanent
    &&& e.0.message@ == OUT_OF_SCOPE_MESSAGE@
}

/// Whether a caller with `scope` may use a view of `kind`.
pub open spec fn spec_scope_admits(kind: ViewKind, scope: Option<&Vec<String>>) -> bool {
    match scope {
        None => true,
        Some(s) => spec_kind_in_scope(kind, s@),
    }
}

fn view_not_found() -> (e: RuntimeError)
    ensures
        is_view_not_found(e),
{
    RuntimeError::new(RuntimeErrorCode::NotFound, owned(VIEW_NOT_FOUND_MESSAGE))
}

/// The registry of open views and the counter their ids are drawn from.
#[derive(Debug)]
pub struct ViewRegistry {
    views: Vec<StoredView>,
    next_view_id: u64,
}

impl ViewRegistry {
    /// Each open view is held once.
    pub closed spec fn wf(&self) -> bool {
        keys_unique(self.views@, view_key())
    }

    /// The open views by id.
    pub closed spec fn views(&self) -> Map<Seq<char>, StoredView> {
        keyed_map(self.views@, view_key())
    }

    /// The counter value the next opened view is named by.
    pub closed spec fn next_id(&self) -> u64 {
        self.next_view_id
    }

    /// No view open; the first view opened is `view-1`.
    pub fn new() -> (r: Self)
        ensures
            r.wf(),
            r.views() == Map::<Seq<char>, StoredView>::empty(),
            r.next_id() == 1,
    {
        let r = ViewRegistry { views: Vec::new(), next_view_id: 1 };
        assert(r.views() =~= Map::<Seq<char>, StoredView>::empty());
        r
    }

    /// Draw the id of a view being opened: `view-{n}` for the counter's
    /// value `n`, which then moves on by one.
    pub fn allocate_view_id(&mut self) -> (r: String)
        ensures
            r@ == spec_view_id_text(old(self).next_id()),
            final(self).next_id() == spec_counter_next(old(self).next_id()),
            final(self).views() == old(self).views(),
            final(self).wf() == old(self).wf(),
    {
        let n = self.next_view_id;
        self.next_view_id = n.wrapping_add(1);
        let mut text = chars_of(VIEW_ID_PREFIX);
        push_decimal(&mut text, n);
        string_of(text.as_slice())
    }

    fn find(&self, view_id: &str) -> (r: Option<usize>)
        requires
            self.wf(),
        ensures
            match r {
                Some(i) => i < self.views@.len() && self.views@[i as int].view_id@ == view_id@
                    && self.views().contains_key(view_id@) && self.views()[view_id@]
                    == self.views@[i as int],
                None => !self.views().contains_key(view_id@),
            },
    {
        let mut i: usize = 0;
        while i < self.views.len()
            invariant
                self.wf(),
                i <= self.views@.len(),
                forall|j: int| 0 <= j < i ==> (#[trigger] self.views@[j]).view_id@ != view_id@,
            decreases self.views@.len() - i,
        {
            if str_eq(self.views[i].view_id.as_str(), view_id) {
                proof {
                    lemma_keyed_at(self.views@, view_key(), i as int);
                }
                return Some(i);
            }
            i = i + 1;
        }
        proof {
            if self.views().contains_key(view_id@) {
                let j = choose|j: int|
                    0 <= j < self.views@.len() && view_key()(#[trigger] self.views@[j]) == view_id@;
                assert(self.views@[j].view_id@ == view_id@);
            }
        }
        None
    }

    /// Whether view `view_id` is open.
    pub fn view_exists(&self, view_id: &str) -> (r: bool)
        requires
            self.wf(),
        ensures
            r == self.views().contains_key(view_id@),
    {
        self.find(view_id).is_some()
    }

    /// The open view `view_id`, or `not found`.
    pub fn current_view(&self, view_id: &str) -> (r: Result<&StoredView, RuntimeError>)
        requires
            self.wf(),
        ensures
            match r {
                Ok(v) => self.views().contains_key(view_id@) && *v == self.views()[view_id@],
                Err(e) => !self.views().contains_key(view_id@) && is_view_not_found(e),
            },
    {
        match self.find(view_id) {
            Some(i) => Ok(&self.views[i]),
            None => Err(view_not_found()),
        }
    }

    /// Hold `view` under its id, in place of any view held there before.
    pub fn insert_view(&mut self, view: StoredView)
        requires
            old(self).wf(),
        ensures
            final(self).wf(),
            final(self).views() == old(self).views().insert(view.view_id@, view),
            final(self).next_id() == old(self).next_id(),
    {
        match self.find(view.view_id.as_str()) {
            Some(i) => self.replace_at(i, view),
            None => {
                proof {
                    lemma_keyed_push(self.views@, view_key(), view);
                }
                self.views.push(view);
            },
        }
    }

    /// Close view `view_id`: it is no longer held, and its subscribers get
    /// the returned `Closed` frame. An unknown id is `not found`.
    pub fn close_view(&mut self, view_id: &str) -> (r: Result<ViewFrame, RuntimeError>)
        requires
            old(self).wf(),
        ensures
            final(self).wf(),
            final(self).next_id() == old(self).next_id(),
            final(self).views() == old(self).views().remove(view_id@),
            match r {
                Ok(frame) => old(self).views().contains_key(view_id@) && (frame matches ViewFrame::Closed { view_id: v } && v@ == view_id@),
                Err(e) => !old(self).views().contains_key(view_id@) && is_view_not_found(e),
            },
    {
        match self.find(view_id) {
            Some(i) => {
                proof {
                    lemma_keyed_remove(self.views@, view_key(), i as int);
                }
                let removed = self.views.remove(i);
                Ok(ViewFrame::Closed { view_id: removed.view_id })
            },
            None => {
                assert(old(self).views().remove(view_id@) =~= old(self).views());
                Err(view_not_found())
            },
        }
    }
}

/// The rows of `a` and `b` carry the same values, position by position.
pub open spec fn spec_rows_eq(a: Seq<MailListRow>, b: Seq<MailListRow>) -> bool {
    a.len() == b.len() && forall|i: int| 0 <= i < a.len() ==> spec_row_eq(#[trigger] a[i], b[i])
}

fn rows_eq(a: &Vec<MailListRow>, b: &Vec<MailListRow>) -> (r: bool)
    ensures
        r == spec_rows_eq(a@, b@),
{
    if a.len() != b.len() {
        return false;
    }
    let mut i: usize = 0;
    while i < a.len()
        invariant
            a@.len() == b@.len(),
            i <= a@.len(),
            forall|j: int| 0 <= j < i ==> spec_row_eq(#[trigger] a@[j], b@[j]),
        decreases a@.len() - i,
    {
        if !row_eq(&a[i], &b[i]) {
            return false;
        }
        i = i + 1;
    }
    true
}

/// Two snapshots' data hold the same values.
pub open spec fn spec_data_same(a: ViewData, b: ViewData) -> bool {
    match (a, b) {
        (ViewData::MailList(x), ViewData::MailList(y)) => {
            &&& spec_same_structure(x, y)
            &&& spec_rows_eq(x.rows@, y.rows@)
            &&& spec_opt_eq(x.read_watermark, y.read_watermark)
            &&& x.coverage@ == y.coverage@
            &&& x.known_total_count == y.known_total_count
            &&& x.anchor@ == y.anchor@
        },
        (ViewData::Other(x), ViewData::Other(y)) => x@ == y@,
        _ => false,
    }
}

/// Whether two snapshots' data hold the same values.
pub fn data_same(a: &ViewData, b: &ViewData) -> (r: bool)
    ensures
        r == spec_data_same(*a, *b),
{
    match (a, b) {
        (ViewData::MailList(x), ViewData::MailList(y)) => {
            same_structure(x, y) && rows_eq(&x.rows, &y.rows) && opt_eq(
                &x.read_watermark,
                &y.read_watermark,
            ) && str_eq(x.coverage.as_str(), y.coverage.as_str())
                && x.known_total_count == y.known_total_count && str_eq(
                x.anchor.as_str(),
                y.anchor.as_str(),
            )
        },
        (ViewData::Other(x), ViewData::Other(y)) => str_eq(x.as_str(), y.as_str()),
        _ => false,
    }
}

/// The revision a rebuild of `view` is stamped with.
pub fn next_revision(view: &StoredView) -> (r: u64)
    requires
        view.snapshot.revision < u64::MAX,
    ensures
        r == view.snapshot.revision + 1,
{
    view.snapshot.revision + 1
}

/// What the event pump does with one domain event for one view.
#[derive(Clone, Copy, Debug, PartialEq, Eq, Structural)]
pub enum PumpStep {
    /// The view is gone: the pump ends.
    Stop,
    /// The view is rebuilt and, when its data changed, re-served.
    Recompute,
    /// The event leaves the view as it is.
    Skip,
}

/// Whether `event` makes the event pump rebuild `view`: a mail list whose
/// client keeps its membership itself never does; any other view does when
/// the event affects it.
pub open spec fn spec_pump_recomputes(view: StoredView, event: DomainEvent) -> bool {
    let self_maintained = view.kind is MailList && view.descriptor.client_self_maintained;
    !self_maintained && spec_event_affects_view(view.kind, event)
}

/// The event pump rebuilds a view exactly when the event affects it, except
/// a mail list whose client keeps its membership itself, which it never
/// rebuilds.
pub proof fn law_pump_rebuilds_affected_views(view: StoredView, event: DomainEvent)
    ensures
        view.kind is MailList && view.descriptor.client_self_maintained ==> !spec_pump_recomputes(
            view,
            event,
        ),
        !(view.kind is MailList && view.descriptor.client_self_maintained) ==> (spec_pump_recomputes(
            view,
            event,
        ) <==> spec_event_affects_view(view.kind, event)),
{
}

/// A mail-list view with its window grown by `count` rows: the kind an
/// extend rebuilds with.
pub open spec fn spec_extended_kind(old: ViewKind, new: ViewKind, count: usize) -> bool {
    match (old, new) {
        (ViewKind::MailList(a), ViewKind::MailList(b)) => spec_window_grown(a, b, count),
        _ => false,
    }
}

impl ViewRegistry {
    fn replace_at(&mut self, i: usize, view: StoredView)
        requires
            old(self).wf(),
            i < old(self).views@.len(),
            view.view_id@ == old(self).views@[i as int].view_id@,
        ensures
            final(self).wf(),
            final(self).views() == old(self).views().insert(view.view_id@, view),
            final(self).next_id() == old(self).next_id(),
    {
        proof {
            lemma_keyed_update(self.views@, view_key(), i as int, view);
        }
        let ghost before = self.views@;
        self.views.remove(i);
        self.views.insert(i, view);
        assert(self.views@ =~= before.update(i as int, view));
    }

    fn take_at(&mut self, i: usize) -> (r: StoredView)
        requires
            old(self).wf(),
            i < old(self).views@.len(),
        ensures
            r == old(self).views@[i as int],
            final(self).wf(),
            final(self).views@ == old(self).views@.remove(i as int),
            final(self).views() == old(self).views().remove(r.view_id@),
            final(self).next_id() == old(self).next_id(),
    {
        proof {
            lemma_keyed_remove(self.views@, view_key(), i as int);
        }
        self.views.remove(i)
    }

    /// Admit a caller opening a view of `kind`: a caller whose scope does not
    /// reach it is refused and no id is drawn; otherwise the new view's id.
    pub fn admit_open(&mut self, kind: &ViewKind, account_scope: Option<&Vec<String>>) -> (r: Result<String, RuntimeError>)
        ensures
            final(self).views() == old(self).views(),
            final(self).wf() == old(self).wf(),
            if spec_scope_admits(*kind, account_scope) {
                &&& r matches Ok(id) && id@ == spec_view_id_text(old(self).next_id())
                &&& final(self).next_id() == spec_counter_next(old(self).next_id())
            } else {
                &&& r matches Err(e) && is_out_of_scope(e)
                &&& final(self).next_id() == old(self).next_id()
            },
    {
        match validate_kind_account_scope(kind, account_scope) {
            Ok(()) => Ok(self.allocate_view_id()),
            Err(e) => Err(e),
        }
    }

    /// Replace the snapshot view `view_id` serves with a rebuilt one; `false`
    /// when the view closed meanwhile, and then nothing changes.
    pub fn store_snapshot(&mut self, view_id: &str, snapshot: ViewSnapshot) -> (r: bool)
        requires
            old(self).wf(),
        ensures
            final(self).wf(),
            final(self).next_id() == old(self).next_id(),
            r == old(self).views().contains_key(view_id@),
            if r {
                final(self).views() == old(self).views().insert(
                    view_id@,
                    StoredView { snapshot: snapshot, ..old(self).views()[view_id@] },
                )
            } else {
                final(self).views() == old(self).views()
            },
    {
        match self.find(view_id) {
            Some(i) => {
                let mut view = self.take_at(i);
                view.snapshot = snapshot;
                proof {
                    lemma_keyed_update(old(self).views@, view_key(), i as int, view);
                }
                self.views.insert(i, view);
                assert(self.views@ =~= old(self).views@.update(i as int, view));
                true
            },
            None => false,
        }
    }

    /// Take a rebuilt snapshot of view `view_id` only when its data differ
    /// from what the view serves: the new snapshot to re-serve, or `None`
    /// when nothing changed. An unknown id is `not found`.
    pub fn recompute_if_changed(&mut self, view_id: &str, built: ViewSnapshot) -> (r: Result<Option<ViewSnapshot>, RuntimeError>)
        requires
            old(self).wf(),
        ensures
            final(self).wf(),
            final(self).next_id() == old(self).next_id(),
            if !old(self).views().contains_key(view_id@) {
                &&& r matches Err(e) && is_view_not_found(e)
                &&& final(self).views() == old(self).views()
            } else if spec_data_same(built.data, old(self).views()[view_id@].snapshot.data) {
                &&& r matches Ok(None)
                &&& final(self).views() == old(self).views()
            } else {
                &&& r matches Ok(Some(s)) && spec_snapshot_same(s, built)
                &&& final(self).views() == old(self).views().insert(
                    view_id@,
                    StoredView { snapshot: built, ..old(self).views()[view_id@] },
                )
            },
    {
        let unchanged = match self.current_view(view_id) {
            Err(e) => {
                return Err(e);
            },
            Ok(current) => data_same(&built.data, &current.snapshot.data),
        };
        if unchanged {
            return Ok(None);
        }
        let served = built.duplicate();
        self.store_snapshot(view_id, built);
        Ok(Some(served))
    }

    /// What the event pump of view `view_id` does with `event`.
    pub fn pump_step(&self, view_id: &str, event: &DomainEvent) -> (r: PumpStep)
        requires
            self.wf(),
        ensures
            !self.views().contains_key(view_id@) ==> r == PumpStep::Stop,
            self.views().contains_key(view_id@) ==> (r == PumpStep::Recompute <==> spec_pump_recomputes(
                self.views()[view_id@],
                *event,
            )) && r != PumpStep::Stop,
    {
        match self.current_view(view_id) {
            Err(_) => PumpStep::Stop,
            Ok(view) => {
                let self_maintained = match &view.kind {
                    ViewKind::MailList(_) => view.descriptor.client_self_maintained,
                    _ => false,
                };
                if !self_maintained && event_affects_view(&view.kind, event) {
                    PumpStep::Recompute
                } else {
                    PumpStep::Skip
                }
            },
        }
    }

    /// The error frame for a failed rebuild of view `view_id`, stamped with
    /// the revision it serves (zero once it is gone).
    pub fn error_frame(&self, view_id: &str, error: RuntimeError) -> (r: ViewFrame)
        requires
            self.wf(),
        ensures
            r matches ViewFrame::Error { view_id: v, revision, error: e } && v@ == view_id@ && e
                == error.0 && revision == (if self.views().contains_key(view_id@) {
                self.views()[view_id@].snapshot.revision
            } else {
                0
            }),
    {
        let revision = match self.current_view(view_id) {
            Ok(view) => view.snapshot.revision,
            Err(_) => 0,
        };
        ViewFrame::Error { view_id: owned(view_id), revision, error: error.0 }
    }

    /// Subscribe to view `view_id` having seen `after_revision`: the
    /// catch-up frame (the current snapshot) unless the subscriber already
    /// holds the current revision.
    pub fn subscription_catch_up(
        &self,
        view_id: &str,
        after_revision: Option<u64>,
        account_scope: Option<&Vec<String>>,
    ) -> (r: Result<Option<ViewFrame>, RuntimeError>)
        requires
            self.wf(),
        ensures
            if !self.views().contains_key(view_id@) {
                r matches Err(e) && is_view_not_found(e)
            } else if !spec_scope_admits(self.views()[view_id@].kind, account_scope) {
                r matches Err(e) && is_out_of_scope(e)
            } else if after_revision == Some(self.views()[view_id@].snapshot.revision) {
                r matches Ok(None)
            } else {
                r matches Ok(Some(ViewFrame::Snapshot { snapshot: s })) && spec_snapshot_same(
                    s,
                    self.views()[view_id@].snapshot,
                )
            },
    {
        let current = match self.current_view(view_id) {
            Ok(v) => v,
            Err(e) => {
                return Err(e);
            },
        };
        match validate_kind_account_scope(&current.kind, account_scope) {
            Ok(()) => {},
            Err(e) => {
                return Err(e);
            },
        }
        let caught_up = match after_revision {
            Some(rev) => rev == current.snapshot.revision,
            None => false,
        };
        if caught_up {
            Ok(None)
        } else {
            Ok(Some(ViewFrame::Snapshot { snapshot: current.snapshot.duplicate() }))
        }
    }

    /// The kind an extend of view `view_id` by `count` rows rebuilds with:
    /// only a mail list grows; a caller outside the view's scope is refused.
    pub fn extension(&self, view_id: &str, count: usize, account_scope: Option<&Vec<String>>) -> (r: Result<ViewKind, RuntimeError>)
        requires
            self.wf(),
        ensures
            if !self.views().contains_key(view_id@) {
                r matches Err(e) && is_view_not_found(e)
            } else if !spec_scope_admits(self.views()[view_id@].kind, account_scope) {
                r matches Err(e) && is_out_of_scope(e)
            } else if !(self.views()[view_id@].kind is MailList) {
                r matches Err(e) && e.0.code == RuntimeErrorCode::InvalidDescriptor
                    && e.0.terminality == Terminality::Permanent && e.0.message@
                    == NO_WINDOW_EXTENSION_MESSAGE@
            } else {
                r matches Ok(k) && spec_extended_kind(self.views()[view_id@].kind, k, count)
            },
    {
        let current = match self.current_view(view_id) {
            Ok(v) => v,
            Err(e) => {
                return Err(e);
            },
        };
        match validate_kind_account_scope(&current.kind, account_scope) {
            Ok(()) => {},
            Err(e) => {
                return Err(e);
            },
        }
        match &current.kind {
            ViewKind::MailList(request) => {
                let mut grown = request.duplicate();
                grow_message_window(&mut grown, count);
                Ok(ViewKind::MailList(grown))
            },
            _ => Err(
                RuntimeError::new(
                    RuntimeErrorCode::InvalidDescriptor,
                    owned(NO_WINDOW_EXTENSION_MESSAGE),
                ),
            ),
        }
    }

    /// Store an extended view's grown kind and rebuilt snapshot; the
    /// `Replace` frame for its subscribers, or `None` when the view closed
    /// meanwhile (and nothing changes).
    pub fn store_extension(&mut self, view_id: &str, kind: ViewKind, snapshot: ViewSnapshot) -> (r: Option<ViewFrame>)
        requires
            old(self).wf(),
        ensures
            final(self).wf(),
            final(self).next_id() == old(self).next_id(),
            if old(self).views().contains_key(view_id@) {
                &&& r matches Some(ViewFrame::Replace { snapshot: s }) && spec_snapshot_same(s, snapshot)
                &&& final(self).views() == old(self).views().insert(
                    view_id@,
                    StoredView { kind: kind, snapshot: snapshot, ..old(self).views()[view_id@] },
                )
            } else {
                r is None && final(self).views() == old(self).views()
            },
    {
        match self.find(view_id) {
            Some(i) => {
                let served = snapshot.duplicate();
                let mut view = self.take_at(i);
                view.kind = kind;
                view.snapshot = snapshot;
                proof {
                    lemma_keyed_update(old(self).views@, view_key(), i as int, view);
                }
                self.views.insert(i, view);
                assert(self.views@ =~= old(self).views@.update(i as int, view));
                Some(ViewFrame::Replace { snapshot: served })
            },
            None => None,
        }
    }
}

} // verus!
