//! Runtime sessions: the client-facing twin of a link, whose frames carry a
//! session sequence number, and what a (re)subscribe catches up with.
use vstd::prelude::*;

use crate::link_table::spec_is_collapse;
use crate::links::{LinkFrame, LinkViews, StoredMutation, ViewSnapshot};

verus! {

/// A frame of a session's stream, stamped with its session sequence number.
#[derive(Debug)]
pub struct SessionFrame {
    pub session_seq: u64,
    pub frame: LinkFrame,
}

/// A runtime session: the account scope it was opened with, the views it
/// holds, and the sequence number of the last frame it sent.
#[derive(Debug)]
pub struct StoredSession {
    pub account_scope: Option<Vec<String>>,
    pub views: LinkViews,
    pub last_seq: u64,
}

impl StoredSession {
    /// A fresh session: no views, no frame sent yet.
    pub fn open(account_scope: Option<Vec<String>>, delta_capable: bool) -> (r: Self)
        ensures
            r.account_scope == account_scope,
            r.views.wf(),
            r.views.takes_deltas() == delta_capable,
            r.views.open_set() == Set::<Seq<char>>::empty(),
            r.views.snapshots() == Map::<Seq<char>, ViewSnapshot>::empty(),
            r.views.snapshot_count() == 0,
            r.last_seq == 0,
    {
        StoredSession { account_scope, views: LinkViews::new(delta_capable), last_seq: 0 }
    }
}

/// A subscribe is a reconnect when it resumes from a cursor other than the
/// session's head.
pub open spec fn spec_is_reconnect(after_seq: Option<u64>, last_seq: u64) -> bool {
    after_seq matches Some(s) && s != last_seq
}

/// Whether a subscribe resuming from `after_seq` is a reconnect (a stale
/// cursor, not the initial subscribe): the session's open views are then
/// refreshed before it catches up.
pub fn is_reconnect(after_seq: Option<u64>, last_seq: u64) -> (r: bool)
    ensures
        r == spec_is_reconnect(after_seq, last_seq),
{
    match after_seq {
        Some(s) => s != last_seq,
        None => false,
    }
}

/// Whether a subscribe gets catch-up frames: always, unless it resumes at
/// the session's head, where only a session that has sent nothing yet but
/// holds snapshots or mutations still sends its initial frames.
pub open spec fn spec_catches_up(after_seq: Option<u64>, last_seq: u64, holds_something: bool) -> bool {
    !(after_seq == Some(last_seq) && !(last_seq == 0 && holds_something))
}

/// `frames` are the frames `plain`, in order, stamped with consecutive
/// sequence numbers from `first`.
pub open spec fn spec_stamped(frames: Seq<SessionFrame>, first: int, plain: Seq<LinkFrame>) -> bool {
    &&& frames.len() == plain.len()
    &&& forall|i: int|
        0 <= i < frames.len() ==> (#[trigger] frames[i]).session_seq == first + i && frames[i].frame
            == plain[i]
}

/// Collapse the session to its current state: the collapse of its views and
/// mutation window (see `spec_collapse_shape`), stamped with the session's
/// next sequence numbers.
pub fn collapse_session_frames(session: &mut StoredSession, mutations: &Vec<StoredMutation>) -> (r:
    Vec<SessionFrame>)
    requires
        old(session).views.wf(),
        old(session).last_seq + old(session).views.snapshot_count() + mutations@.len() <= u64::MAX,
    ensures
        final(session).views == old(session).views,
        final(session).account_scope == old(session).account_scope,
        final(session).last_seq == old(session).last_seq + r@.len(),
        exists|plain: Seq<LinkFrame>|
            spec_is_collapse(old(session).views.snapshots(), mutations@, plain) && spec_stamped(
                r@,
                old(session).last_seq + 1,
                plain,
            ),
{
    let mut plain = session.views.collapse_frames(mutations);
    let ghost all = plain@;
    let ghost first = session.last_seq + 1;
    let mut out: Vec<SessionFrame> = Vec::new();
    let mut seq = session.last_seq;
    while plain.len() > 0
        invariant
            all.len() <= session.views.snapshot_count() + mutations@.len(),
            session.last_seq + session.views.snapshot_count() + mutations@.len() <= u64::MAX,
            first == session.last_seq + 1,
            out@.len() + plain@.len() == all.len(),
            plain@ == all.skip(out@.len() as int),
            seq == session.last_seq + out@.len(),
            spec_stamped(out@, first, all.take(out@.len() as int)),
        decreases plain@.len(),
    {
        let ghost before = out@;
        let frame = plain.remove(0);
        seq = seq + 1;
        out.push(SessionFrame { session_seq: seq, frame });
        proof {
            assert(plain@ =~= all.skip(out@.len() as int));
            assert forall|i: int| 0 <= i < out@.len() implies (#[trigger] out@[i]).session_seq == first
                + i && out@[i].frame == all.take(out@.len() as int)[i] by {
                if i < before.len() {
                    assert(out@[i] == before[i]);
                }
            }
        }
    }
    proof {
        assert(all.take(out@.len() as int) =~= all);
        assert(spec_stamped(out@, first, all));
        assert(spec_is_collapse(session.views.snapshots(), mutations@, all));
    }
    session.last_seq = seq;
    out
}

/// The catch-up frames of a subscribe resuming from `after_seq`: none when
/// it resumes at the head (see `spec_catches_up`), the session left as it
/// was; otherwise the session collapsed to its current state.
pub fn session_catch_up(
    session: &mut StoredSession,
    after_seq: Option<u64>,
    mutations: &Vec<StoredMutation>,
) -> (r: Vec<SessionFrame>)
    requires
        old(session).views.wf(),
        old(session).last_seq + old(session).views.snapshot_count() + mutations@.len() <= u64::MAX,
    ensures
        final(session).views == old(session).views,
        final(session).account_scope == old(session).account_scope,
        if spec_catches_up(
            after_seq,
            old(session).last_seq,
            !old(session).views.snapshots().dom().is_empty() || mutations@.len() > 0,
        ) {
            &&& final(session).last_seq == old(session).last_seq + r@.len()
            &&& exists|plain: Seq<LinkFrame>|
                spec_is_collapse(old(session).views.snapshots(), mutations@, plain)
                    && spec_stamped(r@, old(session).last_seq + 1, plain)
        } else {
            r@.len() == 0 && final(session).last_seq == old(session).last_seq
        },
{
    let holds_something = !session.views.holds_no_snapshot() || mutations.len() > 0;
    let at_head = match after_seq {
        Some(s) => s == session.last_seq,
        None => false,
    };
    if at_head && !(session.last_seq == 0 && holds_something) {
        Vec::new()
    } else {
        collapse_session_frames(session, mutations)
    }
}

} // verus!
