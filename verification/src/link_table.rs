//! The client runtime links the far end holds: opening and closing links,
//! the caller-scope checks on each use, the views each link holds, and the
//! idle-link reaper.
use vstd::prelude::*;

use crate::domain::{dup_strings, DomainEvent};
use crate::errors::{owned, RuntimeError, RuntimeErrorCode, Terminality};
use crate::keyed::{
    keyed_map, keys_unique, lemma_keyed_at, lemma_keyed_push, lemma_keyed_remove,
    lemma_keyed_update,
};
use crate::links::{
    ensure_caller_matches_link, event_matches_link_scope, opt_view, spec_collapse_shape,
    spec_scope_outcome, spec_scope_refusal, spec_view_frame_step, spec_ids_unique, spec_id_set, LinkFrame, LinkViews,
    ResumeKind, StoredMutation, ViewFrame, ViewSnapshot, LINK_FULL_SCOPE_MESSAGE,
    LINK_SCOPE_MISMATCH_MESSAGE, SESSION_IDLE_TTL,
};
use crate::mutations::{is_error, LINK_NOT_FOUND_MESSAGE};
use crate::text::{contains_str, str_eq};

verus! {

pub const VIEW_NOT_OPEN_IN_LINK_MESSAGE: &'static str = "view is not open in this link";

/// A link the far end holds: its id, the caller scope it was opened for,
/// the views it holds, and the tick it was last active.
#[derive(Debug)]
pub struct StoredLink {
    pub link_id: String,
    pub account_scope: Option<Vec<String>>,
    pub views: LinkViews,
    pub last_active: u64,
}

/// Links are found by their id.
pub open spec fn link_key() -> spec_fn(StoredLink) -> Seq<char> {
    |l: StoredLink| l.link_id@
}

/// The account scope of a link, as a sequence.
pub open spec fn scope_of(s: Option<Vec<String>>) -> Option<Seq<String>> {
    match s {
        Some(v) => Some(v@),
        None => None,
    }
}

/// Why a caller with `caller` scope may not use a link opened for `link`
/// scope, if it may not.
pub open spec fn spec_link_refusal(link: Option<Vec<String>>, caller: Option<&Vec<String>>) -> Option<
    Seq<char>,
> {
    spec_scope_refusal(
        scope_of(link),
        opt_view(caller),
        LINK_FULL_SCOPE_MESSAGE@,
        LINK_SCOPE_MISMATCH_MESSAGE@,
    )
}

/// `a` and `b` are the same link but for the views it holds.
pub open spec fn spec_same_link_meta(a: StoredLink, b: StoredLink) -> bool {
    a.link_id == b.link_id && a.account_scope == b.account_scope && a.last_active == b.last_active
}

/// `new` holds the links of `old`, the link `id` aside.
pub open spec fn spec_others_kept(old: Map<Seq<char>, StoredLink>, new: Map<Seq<char>, StoredLink>, id: Seq<char>) -> bool {
    &&& new.dom() =~= old.dom()
    &&& forall|k: Seq<char>| #[trigger] old.contains_key(k) && k != id ==> new[k] == old[k]
}

/// Whether the reaper tears down `link`: it has no live down-stream and has
/// been idle past the TTL.
pub open spec fn spec_reaped(link: StoredLink, now: u64, live: Seq<String>) -> bool {
    !(exists|i: int| 0 <= i < live.len() && (#[trigger] live[i])@ == link.link_id@) && now
        - link.last_active > SESSION_IDLE_TTL
}

/// What the reaper leaves of a link it spares: a link with a live
/// down-stream is marked active at `now`.
pub open spec fn spec_spared(link: StoredLink, now: u64, live: Seq<String>, kept: StoredLink) -> bool {
    &&& kept.link_id == link.link_id
    &&& kept.account_scope == link.account_scope
    &&& kept.views == link.views
    &&& kept.last_active == if exists|i: int|
        0 <= i < live.len() && (#[trigger] live[i])@ == link.link_id@ {
        now
    } else {
        link.last_active
    }
}

/// `frames` collapse a link holding `snapshots` with the mutation window
/// `muts` (see `spec_collapse_shape`).
pub open spec fn spec_is_collapse(
    snapshots: Map<Seq<char>, ViewSnapshot>,
    muts: Seq<StoredMutation>,
    frames: Seq<LinkFrame>,
) -> bool {
    exists|n: nat, mo: Seq<usize>| spec_collapse_shape(snapshots, muts, frames, n, mo)
}

/// What the notification forwarder of a link does with a domain event.
#[derive(Clone, Copy, Debug, PartialEq, Eq, Structural)]
pub enum NotificationStep {
    /// The link is gone: the forwarder ends.
    Stop,
    /// The event is outside the link's scope.
    Skip,
    /// The event goes down the link.
    Forward,
}

fn link_not_found() -> (e: RuntimeError)
    ensures
        is_error(e, RuntimeErrorCode::NotFound, LINK_NOT_FOUND_MESSAGE@),
{
    RuntimeError::new(RuntimeErrorCode::NotFound, owned(LINK_NOT_FOUND_MESSAGE))
}

/// The links the far end holds.
#[derive(Debug)]
pub struct LinkTable {
    links: Vec<StoredLink>,
}

impl LinkTable {
    /// Each link is held once, and each holds its views consistently.
    pub closed spec fn wf(&self) -> bool {
        &&& keys_unique(self.links@, link_key())
        &&& forall|i: int| 0 <= i < self.links@.len() ==> (#[trigger] self.links@[i]).views.wf()
    }

    /// The links by id.
    pub closed spec fn links(&self) -> Map<Seq<char>, StoredLink> {
        keyed_map(self.links@, link_key())
    }

    pub fn new() -> (r: Self)
        ensures
            r.wf(),
            r.links() == Map::<Seq<char>, StoredLink>::empty(),
    {
        let r = LinkTable { links: Vec::new() };
        assert(r.links() =~= Map::<Seq<char>, StoredLink>::empty());
        r
    }

    fn find(&self, link_id: &str) -> (r: Option<usize>)
        requires
            self.wf(),
        ensures
            match r {
                Some(i) => i < self.links@.len() && self.links@[i as int].link_id@ == link_id@
                    && self.links().contains_key(link_id@) && self.links()[link_id@]
                    == self.links@[i as int],
                None => !self.links().contains_key(link_id@),
            },
    {
        let mut i: usize = 0;
        while i < self.links.len()
            invariant
                self.wf(),
                i <= self.links@.len(),
                forall|j: int| 0 <= j < i ==> (#[trigger] self.links@[j]).link_id@ != link_id@,
            decreases self.links@.len() - i,
        {
            if str_eq(self.links[i].link_id.as_str(), link_id) {
                proof {
                    lemma_keyed_at(self.links@, link_key(), i as int);
                }
                return Some(i);
            }
            i = i + 1;
        }
        proof {
            if self.links().contains_key(link_id@) {
                let j = choose|j: int|
                    0 <= j < self.links@.len() && link_key()(#[trigger] self.links@[j]) == link_id@;
                assert(self.links@[j].link_id@ == link_id@);
            }
        }
        None
    }

    /// Put `link` back at position `i`, where the link with its id was
    /// taken out.
    fn put_back(&mut self, i: usize, link: StoredLink, Ghost(before): Ghost<Seq<StoredLink>>)
        requires
            keys_unique(before, link_key()),
            forall|j: int| 0 <= j < before.len() ==> (#[trigger] before[j]).views.wf(),
            i < before.len(),
            old(self).links@ == before.remove(i as int),
            link.link_id@ == before[i as int].link_id@,
            link.views.wf(),
        ensures
            final(self).wf(),
            final(self).links() == keyed_map(before, link_key()).insert(link.link_id@, link),
    {
        proof {
            lemma_keyed_update(before, link_key(), i as int, link);
        }
        self.links.insert(i, link);
        assert(self.links@ =~= before.update(i as int, link));
    }

    /// Open link `link_id` for a caller with `account_scope`, taking mail-list
    /// deltas when `delta_capable`, active as of `now`.
    pub fn open_link(
        &mut self,
        link_id: String,
        account_scope: Option<Vec<String>>,
        delta_capable: bool,
        now: u64,
    )
        requires
            old(self).wf(),
        ensures
            final(self).wf(),
            final(self).links().dom() == old(self).links().dom().insert(link_id@),
            forall|k: Seq<char>| #[trigger] old(self).links().contains_key(k) && k != link_id@
                ==> final(self).links()[k] == old(self).links()[k],
            final(self).links()[link_id@].link_id == link_id,
            final(self).links()[link_id@].account_scope == account_scope,
            final(self).links()[link_id@].last_active == now,
            final(self).links()[link_id@].views.wf(),
            final(self).links()[link_id@].views.open_set().is_empty(),
            final(self).links()[link_id@].views.snapshots().dom().is_empty(),
            final(self).links()[link_id@].views.takes_deltas() == delta_capable,
    {
        let views = LinkViews::new(delta_capable);
        let link = StoredLink { link_id, account_scope, views, last_active: now };
        match self.find(link.link_id.as_str()) {
            Some(i) => {
                let ghost before = self.links@;
                self.links.remove(i);
                self.put_back(i, link, Ghost(before));
            },
            None => {
                proof {
                    lemma_keyed_push(self.links@, link_key(), link);
                }
                self.links.push(link);
            },
        }
    }

    /// The scope link `link_id` was opened for, once the caller may use it.
    pub fn link_scope(&self, link_id: &str, caller_scope: Option<&Vec<String>>) -> (r: Result<
        Option<Vec<String>>,
        RuntimeError,
    >)
        requires
            self.wf(),
        ensures
            if !self.links().contains_key(link_id@) {
                r matches Err(e) && is_error(e, RuntimeErrorCode::NotFound, LINK_NOT_FOUND_MESSAGE@)
            } else {
                match spec_link_refusal(self.links()[link_id@].account_scope, caller_scope) {
                    Some(m) => r matches Err(e) && e.0.code == RuntimeErrorCode::Unauthorized
                        && e.0.message@ == m && e.0.terminality == Terminality::Permanent,
                    None => r matches Ok(s) && scope_of(s) == scope_of(
                        self.links()[link_id@].account_scope,
                    ),
                }
            },
    {
        let i = match self.find(link_id) {
            Some(i) => i,
            None => {
                return Err(link_not_found());
            },
        };
        let link = &self.links[i];
        match ensure_caller_matches_link(link.account_scope.as_ref(), caller_scope) {
            Ok(()) => {},
            Err(e) => {
                return Err(e);
            },
        }
        match &link.account_scope {
            Some(s) => Ok(Some(dup_strings(s))),
            None => Ok(None),
        }
    }

    /// Close link `link_id` for a caller that may use it: the link is no
    /// longer held, and the ids of the views it held are returned for
    /// closing.
    pub fn close_link(&mut self, link_id: &str, caller_scope: Option<&Vec<String>>) -> (r: Result<
        Vec<String>,
        RuntimeError,
    >)
        requires
            old(self).wf(),
        ensures
            final(self).wf(),
            if !old(self).links().contains_key(link_id@) {
                &&& r matches Err(e) && is_error(e, RuntimeErrorCode::NotFound, LINK_NOT_FOUND_MESSAGE@)
                &&& final(self).links() == old(self).links()
            } else {
                match spec_link_refusal(old(self).links()[link_id@].account_scope, caller_scope) {
                    Some(m) => {
                        &&& r matches Err(e) && e.0.code == RuntimeErrorCode::Unauthorized
                            && e.0.message@ == m && e.0.terminality == Terminality::Permanent
                        &&& final(self).links() == old(self).links()
                    },
                    None => {
                        &&& r matches Ok(ids) && spec_ids_unique(ids@) && spec_id_set(ids@)
                            == old(self).links()[link_id@].views.open_set()
                        &&& final(self).links() == old(self).links().remove(link_id@)
                    },
                }
            },
    {
        let i = match self.find(link_id) {
            Some(i) => i,
            None => {
                return Err(link_not_found());
            },
        };
        match ensure_caller_matches_link(self.links[i].account_scope.as_ref(), caller_scope) {
            Ok(()) => {},
            Err(e) => {
                return Err(e);
            },
        }
        proof {
            lemma_keyed_remove(self.links@, link_key(), i as int);
            assert(self.links@[i as int].views.wf());
        }
        let ghost before = self.links@;
        let link = self.links.remove(i);
        assert forall|j: int| 0 <= j < self.links@.len() implies (#[trigger] self.links@[j]).views.wf() by {
            if j < i {
                assert(self.links@[j] == before[j]);
            } else {
                assert(self.links@[j] == before[j + 1]);
            }
        }
        Ok(link.views.open_view_ids())
    }

    /// Mark link `link_id`, if held, active as of `now`.
    pub fn mark_active(&mut self, link_id: &str, now: u64)
        requires
            old(self).wf(),
        ensures
            final(self).wf(),
            if old(self).links().contains_key(link_id@) {
                final(self).links() == old(self).links().insert(
                    link_id@,
                    StoredLink { last_active: now, ..old(self).links()[link_id@] },
                )
            } else {
                final(self).links() == old(self).links()
            },
    {
        match self.find(link_id) {
            Some(i) => {
                let ghost before = self.links@;
                let mut link = self.links.remove(i);
                link.last_active = now;
                self.put_back(i, link, Ghost(before));
            },
            None => {},
        }
    }
}

impl LinkTable {
    /// Record view `snapshot.view_id` as open on link `link_id`, with
    /// `snapshot` as its latest state.
    pub fn record_open_view(&mut self, link_id: &str, snapshot: ViewSnapshot) -> (r: Result<(), RuntimeError>)
        requires
            old(self).wf(),
        ensures
            final(self).wf(),
            match r {
                Err(e) => !old(self).links().contains_key(link_id@) && is_error(
                    e,
                    RuntimeErrorCode::NotFound,
                    LINK_NOT_FOUND_MESSAGE@,
                ) && final(self).links() == old(self).links(),
                Ok(()) => {
                    let (a, b) = (old(self).links()[link_id@], final(self).links()[link_id@]);
                    &&& old(self).links().contains_key(link_id@)
                    &&& spec_others_kept(old(self).links(), final(self).links(), link_id@)
                    &&& spec_same_link_meta(a, b)
                    &&& b.views.open_set() == a.views.open_set().insert(snapshot.view_id@)
                    &&& b.views.snapshots() == a.views.snapshots().insert(snapshot.view_id@, snapshot)
                    &&& b.views.takes_deltas() == a.views.takes_deltas()
                },
            },
    {
        let i = match self.find(link_id) {
            Some(i) => i,
            None => {
                return Err(link_not_found());
            },
        };
        let ghost before = self.links@;
        let mut link = self.links.remove(i);
        assert(before[i as int].views.wf());
        link.views.record_open_view(snapshot);
        self.put_back(i, link, Ghost(before));
        Ok(())
    }

    /// An extend of view `view_id` through link `link_id` needs the view
    /// open on that link.
    pub fn require_open_view(&self, link_id: &str, view_id: &str) -> (r: Result<(), RuntimeError>)
        requires
            self.wf(),
        ensures
            if !self.links().contains_key(link_id@) {
                r matches Err(e) && is_error(e, RuntimeErrorCode::NotFound, LINK_NOT_FOUND_MESSAGE@)
            } else if !self.links()[link_id@].views.open_set().contains(view_id@) {
                r matches Err(e) && is_error(
                    e,
                    RuntimeErrorCode::NotFound,
                    VIEW_NOT_OPEN_IN_LINK_MESSAGE@,
                )
            } else {
                r is Ok
            },
    {
        match self.find(link_id) {
            None => Err(link_not_found()),
            Some(i) => {
                if self.links[i].views.is_open(view_id) {
                    Ok(())
                } else {
                    Err(
                        RuntimeError::new(
                            RuntimeErrorCode::NotFound,
                            owned(VIEW_NOT_OPEN_IN_LINK_MESSAGE),
                        ),
                    )
                }
            },
        }
    }

    /// Close view `view_id` on link `link_id` for a caller that may use the
    /// link: the view leaves the link, and its subscribers get the returned
    /// `ViewClosed` frame.
    pub fn close_link_view(&mut self, link_id: &str, view_id: String, caller_scope: Option<&Vec<String>>) -> (r: Result<
        LinkFrame,
        RuntimeError,
    >)
        requires
            old(self).wf(),
        ensures
            final(self).wf(),
            if !old(self).links().contains_key(link_id@) {
                &&& r matches Err(e) && is_error(e, RuntimeErrorCode::NotFound, LINK_NOT_FOUND_MESSAGE@)
                &&& final(self).links() == old(self).links()
            } else {
                match spec_link_refusal(old(self).links()[link_id@].account_scope, caller_scope) {
                    Some(m) => {
                        &&& r matches Err(e) && e.0.code == RuntimeErrorCode::Unauthorized
                            && e.0.message@ == m && e.0.terminality == Terminality::Permanent
                        &&& final(self).links() == old(self).links()
                    },
                    None => {
                        let (a, b) = (old(self).links()[link_id@], final(self).links()[link_id@]);
                        &&& r matches Ok(LinkFrame::ViewClosed { view_id: v }) && v == view_id
                        &&& spec_others_kept(old(self).links(), final(self).links(), link_id@)
                        &&& spec_same_link_meta(a, b)
                        &&& b.views.open_set() == a.views.open_set().remove(view_id@)
                        &&& b.views.snapshots() == a.views.snapshots().remove(view_id@)
                        &&& b.views.takes_deltas() == a.views.takes_deltas()
                    },
                }
            },
    {
        let i = match self.find(link_id) {
            Some(i) => i,
            None => {
                return Err(link_not_found());
            },
        };
        match ensure_caller_matches_link(self.links[i].account_scope.as_ref(), caller_scope) {
            Ok(()) => {},
            Err(e) => {
                return Err(e);
            },
        }
        let ghost before = self.links@;
        let mut link = self.links.remove(i);
        assert(before[i as int].views.wf());
        link.views.forget_view(view_id.as_str());
        self.put_back(i, link, Ghost(before));
        Ok(LinkFrame::ViewClosed { view_id })
    }

    /// Pass a frame of one of its views down link `link_id`: the link frame
    /// to send, or `None` when the link is gone or does not hold the view (the
    /// forwarder then stops).
    pub fn forward_view_frame(&mut self, link_id: &str, frame: ViewFrame) -> (r: Option<LinkFrame>)
        requires
            old(self).wf(),
        ensures
            final(self).wf(),
            !old(self).links().contains_key(link_id@) ==> r is None && final(self).links()
                == old(self).links(),
            old(self).links().contains_key(link_id@) ==> {
                let (a, b) = (old(self).links()[link_id@], final(self).links()[link_id@]);
                &&& spec_others_kept(old(self).links(), final(self).links(), link_id@)
                &&& spec_same_link_meta(a, b)
                &&& spec_view_frame_step(a.views, frame, b.views, r)
            },
    {
        let i = match self.find(link_id) {
            Some(i) => i,
            None => {
                return None;
            },
        };
        let ghost before = self.links@;
        let mut link = self.links.remove(i);
        assert(before[i as int].views.wf());
        let r = link.views.view_frame_to_runtime(frame);
        self.put_back(i, link, Ghost(before));
        r
    }

    /// What the notification forwarder of link `link_id` does with `event`:
    /// stop once the link is gone; pass on only events inside its scope.
    pub fn notification_step(&self, link_id: &str, event: &DomainEvent) -> (r: NotificationStep)
        requires
            self.wf(),
        ensures
            !self.links().contains_key(link_id@) ==> r == NotificationStep::Stop,
            self.links().contains_key(link_id@) ==> r == match self.links()[link_id@].account_scope {
                None => NotificationStep::Forward,
                Some(scope) => if exists|i: int|
                    0 <= i < scope@.len() && (#[trigger] scope@[i])@ == event.account_id@ {
                    NotificationStep::Forward
                } else {
                    NotificationStep::Skip
                },
            },
    {
        match self.find(link_id) {
            None => NotificationStep::Stop,
            Some(i) => {
                if event_matches_link_scope(event, self.links[i].account_scope.as_ref()) {
                    NotificationStep::Forward
                } else {
                    NotificationStep::Skip
                }
            },
        }
    }

    /// Take a refreshed snapshot of a view as link `link_id`'s latest state
    /// of it, if the link still holds that view open; whether it did.
    pub fn refresh_snapshot(&mut self, link_id: &str, snapshot: ViewSnapshot) -> (r: bool)
        requires
            old(self).wf(),
        ensures
            final(self).wf(),
            r == (old(self).links().contains_key(link_id@) && old(self).links()[link_id@].views.open_set().contains(snapshot.view_id@)),
            !r ==> final(self).links() == old(self).links(),
            r ==> {
                let (a, b) = (old(self).links()[link_id@], final(self).links()[link_id@]);
                &&& spec_others_kept(old(self).links(), final(self).links(), link_id@)
                &&& spec_same_link_meta(a, b)
                &&& b.views.open_set() == a.views.open_set()
                &&& b.views.snapshots() == a.views.snapshots().insert(snapshot.view_id@, snapshot)
                &&& b.views.takes_deltas() == a.views.takes_deltas()
            },
    {
        let i = match self.find(link_id) {
            Some(i) => i,
            None => {
                return false;
            },
        };
        if !self.links[i].views.is_open(snapshot.view_id.as_str()) {
            return false;
        }
        let ghost before = self.links@;
        let mut link = self.links.remove(i);
        assert(before[i as int].views.wf());
        link.views.refresh_snapshot(snapshot);
        self.put_back(i, link, Ghost(before));
        true
    }

    /// Whether a caller may read the settlements recorded on link `link_id`:
    /// `false` for an unknown link (a closed link's ledger is gone, so there
    /// is nothing to read), a refusal for a caller the link does not admit.
    pub fn settlement_access(&self, link_id: &str, caller_scope: Option<&Vec<String>>) -> (r: Result<
        bool,
        RuntimeError,
    >)
        requires
            self.wf(),
        ensures
            if !self.links().contains_key(link_id@) {
                r == Ok::<bool, RuntimeError>(false)
            } else {
                match spec_link_refusal(self.links()[link_id@].account_scope, caller_scope) {
                    Some(m) => r matches Err(e) && e.0.code == RuntimeErrorCode::Unauthorized
                        && e.0.message@ == m && e.0.terminality == Terminality::Permanent,
                    None => r == Ok::<bool, RuntimeError>(true),
                }
            },
    {
        match self.find(link_id) {
            None => Ok(false),
            Some(i) => match ensure_caller_matches_link(self.links[i].account_scope.as_ref(), caller_scope) {
                Ok(()) => Ok(true),
                Err(e) => Err(e),
            },
        }
    }

    /// The ids of the views link `link_id` holds open (none once it is gone).
    pub fn open_view_ids(&self, link_id: &str) -> (r: Vec<String>)
        requires
            self.wf(),
        ensures
            spec_ids_unique(r@),
            spec_id_set(r@) == if self.links().contains_key(link_id@) {
                self.links()[link_id@].views.open_set()
            } else {
                Set::<Seq<char>>::empty()
            },
    {
        match self.find(link_id) {
            Some(i) => {
                assert(self.links@[i as int].views.wf());
                self.links[i].views.open_view_ids()
            },
            None => {
                let r: Vec<String> = Vec::new();
                assert(spec_id_set(r@) =~= Set::<Seq<char>>::empty());
                r
            },
        }
    }

    /// The collapsed state of link `link_id` with the mutation window
    /// `mutations`, for a caller that may use the link (`None`: the link's
    /// own forwarder, which is not checked).
    pub fn collapse(
        &self,
        link_id: &str,
        caller_scope: Option<&Vec<String>>,
        mutations: &Vec<StoredMutation>,
    ) -> (r: Result<Vec<LinkFrame>, RuntimeError>)
        requires
            self.wf(),
        ensures
            if !self.links().contains_key(link_id@) {
                r matches Err(e) && is_error(e, RuntimeErrorCode::NotFound, LINK_NOT_FOUND_MESSAGE@)
            } else {
                match spec_link_refusal(self.links()[link_id@].account_scope, caller_scope) {
                    Some(m) => r matches Err(e) && e.0.code == RuntimeErrorCode::Unauthorized
                        && e.0.message@ == m && e.0.terminality == Terminality::Permanent,
                    None => r matches Ok(frames) && spec_is_collapse(
                        self.links()[link_id@].views.snapshots(),
                        mutations@,
                        frames@,
                    ),
                }
            },
    {
        let i = match self.find(link_id) {
            Some(i) => i,
            None => {
                return Err(link_not_found());
            },
        };
        match ensure_caller_matches_link(self.links[i].account_scope.as_ref(), caller_scope) {
            Ok(()) => {},
            Err(e) => {
                return Err(e);
            },
        }
        assert(self.links@[i as int].views.wf());
        let frames = self.links[i].views.collapse_frames(mutations);
        Ok(frames)
    }

    /// The catch-up frames of a (re)subscribe to link `link_id` whose cursor
    /// was judged `resume`, with the mutation window `mutations`.
    pub fn catch_up(&self, link_id: &str, resume: ResumeKind, mutations: &Vec<StoredMutation>) -> (r:
        Result<Vec<LinkFrame>, RuntimeError>)
        requires
            self.wf(),
        ensures
            if !self.links().contains_key(link_id@) {
                r matches Err(e) && is_error(e, RuntimeErrorCode::NotFound, LINK_NOT_FOUND_MESSAGE@)
            } else if resume != ResumeKind::Collapse
                && self.links()[link_id@].views.snapshots().dom().is_empty() && mutations@.len()
                == 0 {
                r matches Ok(frames) && frames@.len() == 0
            } else {
                r matches Ok(frames) && spec_is_collapse(
                    self.links()[link_id@].views.snapshots(),
                    mutations@,
                    frames@,
                )
            },
    {
        match self.find(link_id) {
            None => Err(link_not_found()),
            Some(i) => {
                assert(self.links@[i as int].views.wf());
                let frames = self.links[i].views.catch_up_frames(resume, mutations);
                Ok(frames)
            },
        }
    }
}

/// `link` has a live down-stream.
pub open spec fn spec_is_live(link: StoredLink, live: Seq<String>) -> bool {
    exists|i: int| 0 <= i < live.len() && (#[trigger] live[i])@ == link.link_id@
}

/// A link with a live down-stream is never reaped, however long it has been
/// since it was last marked active.
pub proof fn law_live_link_never_reaped(link: StoredLink, now: u64, live: Seq<String>)
    requires
        spec_is_live(link, live),
    ensures
        !spec_reaped(link, now, live),
{
}

/// The idle timeline of a link: marked active at `t`, with no live
/// down-stream, the reaper spares it at every tick up to `t` plus the TTL and
/// tears it down at any later tick. (With a live down-stream it is never torn
/// down: `law_live_link_never_reaped`.)
pub proof fn law_idle_link_reaped_only_past_the_ttl(
    link: StoredLink,
    t: u64,
    now: u64,
    live: Seq<String>,
)
    requires
        link.last_active == t,
        !spec_is_live(link, live),
    ensures
        spec_reaped(link, now, live) <==> now > t + SESSION_IDLE_TTL,
{
}

impl LinkTable {
    /// Tear down the links with no live down-stream (`live` names the links
    /// that have one) idle past the TTL as of `now`, and mark the live ones
    /// active at `now`. The reaped links' ids are returned, each with the ids
    /// of the views it held (for closing).
    pub fn reap_idle(&mut self, now: u64, live: &Vec<String>) -> (r: Vec<(String, Vec<String>)>)
        requires
            old(self).wf(),
        ensures
            final(self).wf(),
            forall|k: Seq<char>| #[trigger] final(self).links().contains_key(k) <==> old(self).links().contains_key(k)
                && !spec_reaped(old(self).links()[k], now, live@),
            forall|k: Seq<char>| #[trigger] final(self).links().contains_key(k) ==> spec_spared(
                old(self).links()[k],
                now,
                live@,
                final(self).links()[k],
            ),
            forall|j: int| 0 <= j < r@.len() ==> {
                let id = (#[trigger] r@[j]).0@;
                &&& old(self).links().contains_key(id)
                &&& spec_reaped(old(self).links()[id], now, live@)
                &&& spec_ids_unique(r@[j].1@)
                &&& spec_id_set(r@[j].1@) == old(self).links()[id].views.open_set()
            },
            forall|k: Seq<char>| #[trigger] old(self).links().contains_key(k) && spec_reaped(old(self).links()[k], now, live@)
                ==> exists|j: int| 0 <= j < r@.len() && (#[trigger] r@[j]).0@ == k,
            forall|a: int, b: int| 0 <= a < b < r@.len() ==> (#[trigger] r@[a]).0@ != (#[trigger] r@[b]).0@,
    {
        let ghost start = self.links();
        let mut reaped: Vec<(String, Vec<String>)> = Vec::new();
        let mut i: usize = 0;
        while i < self.links.len()
            invariant
                self.wf(),
                i <= self.links@.len(),
                forall|j: int| 0 <= j < i ==> {
                    let l = #[trigger] self.links@[j];
                    &&& start.contains_key(l.link_id@)
                    &&& !spec_reaped(start[l.link_id@], now, live@)
                    &&& spec_spared(start[l.link_id@], now, live@, l)
                },
                forall|j: int| i <= j < self.links@.len() ==> {
                    let l = #[trigger] self.links@[j];
                    start.contains_key(l.link_id@) && l == start[l.link_id@]
                },
                forall|k: Seq<char>| #[trigger] self.links().contains_key(k) ==> start.contains_key(k),
                forall|k: Seq<char>| #[trigger] start.contains_key(k) && !self.links().contains_key(k) ==> spec_reaped(start[k], now, live@) && exists|j: int| 0 <= j < reaped@.len() && (#[trigger] reaped@[j]).0@ == k,
                forall|j: int| 0 <= j < reaped@.len() ==> {
                    let id = (#[trigger] reaped@[j]).0@;
                    &&& start.contains_key(id)
                    &&& spec_reaped(start[id], now, live@)
                    &&& spec_ids_unique(reaped@[j].1@)
                    &&& spec_id_set(reaped@[j].1@) == start[id].views.open_set()
                    &&& !self.links().contains_key(id)
                },
                forall|a: int, b: int| 0 <= a < b < reaped@.len() ==> (#[trigger] reaped@[a]).0@ != (#[trigger] reaped@[b]).0@,
            decreases self.links@.len() - i,
        {
            let is_live = contains_str(live, self.links[i].link_id.as_str());
            let idle = now.saturating_sub(self.links[i].last_active) > SESSION_IDLE_TTL;
            let ghost before = self.links@;
            let ghost here = before[i as int];
            proof {
                lemma_keyed_at(before, link_key(), i as int);
            }
            if is_live {
                let mut link = self.links.remove(i);
                link.last_active = now;
                proof {
                    assert(before[i as int].views.wf());
                    lemma_keyed_update(before, link_key(), i as int, link);
                }
                self.links.insert(i, link);
                assert(self.links@ =~= before.update(i as int, link));
                proof {
                    assert forall|k: Seq<char>| #[trigger] start.contains_key(k) && !self.links().contains_key(k) implies spec_reaped(start[k], now, live@) && exists|j: int| 0 <= j < reaped@.len() && (#[trigger] reaped@[j]).0@ == k by {
                        assert(k != here.link_id@);
                        assert(!keyed_map(before, link_key()).contains_key(k));
                    }
                    assert(spec_is_live(here, live@));
                }
                i = i + 1;
            } else if idle {
                proof {
                    lemma_keyed_remove(before, link_key(), i as int);
                    assert(before[i as int].views.wf());
                }
                let link = self.links.remove(i);
                let ids = link.views.open_view_ids();
                proof {
                    assert(!spec_is_live(here, live@));
                    assert forall|j: int| 0 <= j < self.links@.len() implies (#[trigger] self.links@[j]).views.wf() by {
                        if j < i {
                            assert(self.links@[j] == before[j]);
                        } else {
                            assert(self.links@[j] == before[j + 1]);
                        }
                    }
                    assert forall|j: int| 0 <= j < i implies {
                        let l = #[trigger] self.links@[j];
                        &&& start.contains_key(l.link_id@)
                        &&& !spec_reaped(start[l.link_id@], now, live@)
                        &&& spec_spared(start[l.link_id@], now, live@, l)
                    } by {
                        assert(self.links@[j] == before[j]);
                    }
                    assert forall|j: int| i <= j < self.links@.len() implies {
                        let l = #[trigger] self.links@[j];
                        start.contains_key(l.link_id@) && l == start[l.link_id@]
                    } by {
                        assert(self.links@[j] == before[j + 1]);
                    }
                }
                let ghost prior = reaped@;
                reaped.push((link.link_id, ids));
                proof {
                    let n = reaped@.len() - 1;
                    assert(reaped@[n].0@ == here.link_id@);
                    assert forall|k: Seq<char>| #[trigger] start.contains_key(k) && !self.links().contains_key(k) implies spec_reaped(start[k], now, live@) && exists|j: int| 0 <= j < reaped@.len() && (#[trigger] reaped@[j]).0@ == k by {
                        if k != here.link_id@ {
                            assert(!keyed_map(before, link_key()).contains_key(k));
                            let j = choose|j: int| 0 <= j < prior.len() && (#[trigger] prior[j]).0@ == k;
                            assert(reaped@[j] == prior[j]);
                            assert(reaped@[j].0@ == k);
                        } else {
                            assert(reaped@[n].0@ == k);
                        }
                    }
                }
            } else {
                proof {
                    assert(!spec_is_live(here, live@));
                }
                i = i + 1;
            }
        }
        proof {
            let m = self.links();
            assert forall|k: Seq<char>| #[trigger] m.contains_key(k) implies start.contains_key(k) && !spec_reaped(start[k], now, live@) && spec_spared(start[k], now, live@, m[k]) by {
                let j = choose|j: int| 0 <= j < self.links@.len() && link_key()(#[trigger] self.links@[j]) == k;
                lemma_keyed_at(self.links@, link_key(), j);
            }
        }
        reaped
    }
}

} // verus!
