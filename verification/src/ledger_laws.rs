//! Laws of the apply ledger, stated over the transitions that
//! [`ApplyLedger`](crate::ledger::ApplyLedger)'s operations are proved to
//! follow.
use vstd::prelude::*;

use crate::errors::{RuntimeAdapterError, RuntimeErrorCode, Terminality};
use crate::ledger::{
    spec_reap, spec_reserve, spec_resolve, spec_settle, AnswerView, DurableApplyState, LedgerKey,
    LedgerMap, LedgerRecord, OutcomeView, PayloadView, Verdict, APPLY_LEDGER_TTL_SECS,
    IN_FLIGHT_MESSAGE, REUSE_MESSAGE, UNAVAILABLE_MESSAGE, UNKNOWN_OUTCOME_MESSAGE,
};

verus! {

/// Whether a reservation verdict let the caller run the operation (directly,
/// or after a durable reservation).
pub open spec fn admits(v: Verdict) -> bool {
    v is Execute || v is Consult
}

/// A result that the ledger keeps: a success or a permanent error.
pub open spec fn is_kept(res: Result<OutcomeView, RuntimeAdapterError>) -> bool {
    match res {
        Ok(_) => true,
        Err(e) => e.terminality == Terminality::Permanent,
    }
}

/// A reservation that admits the operation leaves an in-flight record of it.
pub proof fn law_admission_holds_a_slot(
    m: LedgerMap,
    durable: bool,
    k: LedgerKey,
    op: Seq<char>,
    t: int,
)
    requires
        admits(spec_reserve(m, durable, k, op, t).1),
    ensures
        spec_reserve(m, durable, k, op, t).0.contains_key(k),
        spec_reserve(m, durable, k, op, t).0[k] == (LedgerRecord { op_name: op, outcome: None, at: t }),
{
}

/// A redelivery under the same key and operation, within the retention
/// window, re-observes the first kept outcome (a success or a permanent
/// rejection) and never re-executes.
pub proof fn law_redelivery_replays_the_first_outcome(
    m: LedgerMap,
    durable: bool,
    k: LedgerKey,
    op: Seq<char>,
    res: Result<OutcomeView, RuntimeAdapterError>,
    t0: int,
    t1: int,
    t2: int,
)
    requires
        admits(spec_reserve(m, durable, k, op, t0).1),
        is_kept(res),
        t1 <= t2 <= t1 + APPLY_LEDGER_TTL_SECS,
    ensures
        ({
            let m1 = spec_reserve(m, durable, k, op, t0).0;
            let m2 = spec_settle(m1, k, res, t1);
            spec_reserve(m2, durable, k, op, t2).1 == Verdict::Replay(res)
        }),
{
    let m1 = spec_reserve(m, durable, k, op, t0).0;
    let m2 = spec_settle(m1, k, res, t1);
    assert(m2.contains_key(k));
    assert(spec_reap(m2, t2).contains_key(k));
}

/// The same, across a durable reservation: the durable store answered
/// `Reserved`, the operation ran and settled, and a redelivery replays it.
pub proof fn law_durable_reservation_then_redelivery_replays(
    m: LedgerMap,
    k: LedgerKey,
    op: Seq<char>,
    res: Result<OutcomeView, RuntimeAdapterError>,
    t0: int,
    t1: int,
    t2: int,
)
    requires
        spec_reserve(m, true, k, op, t0).1 is Consult,
        is_kept(res),
        t1 <= t2 <= t1 + APPLY_LEDGER_TTL_SECS,
    ensures
        ({
            let m1 = spec_reserve(m, true, k, op, t0).0;
            let (m2, v) = spec_resolve(m1, k, op, AnswerView::Reserved, t0);
            let m3 = spec_settle(m2, k, res, t1);
            &&& v is Execute
            &&& spec_reserve(m3, true, k, op, t2).1 == Verdict::Replay(res)
        }),
{
    let m1 = spec_reserve(m, true, k, op, t0).0;
    let m3 = spec_settle(m1, k, res, t1);
    assert(spec_reap(m3, t2).contains_key(k));
}

/// A transient failure clears the record: a deliberate retry under the same
/// key is admitted again.
pub proof fn law_transient_failure_is_retried(
    m: LedgerMap,
    durable: bool,
    k: LedgerKey,
    op: Seq<char>,
    e: RuntimeAdapterError,
    t0: int,
    t1: int,
    t2: int,
)
    requires
        admits(spec_reserve(m, durable, k, op, t0).1),
        e.terminality == Terminality::Transient,
    ensures
        ({
            let m1 = spec_reserve(m, durable, k, op, t0).0;
            let m2 = spec_settle(m1, k, Err(e), t1);
            spec_reserve(m2, durable, k, op, t2).1 == (if durable {
                Verdict::Consult
            } else {
                Verdict::Execute
            })
        }),
{
}

/// Reusing a key with a different operation is a permanent `Conflict`, both
/// while the first is in flight and after it settled.
pub proof fn law_key_reuse_with_another_operation_conflicts(
    m: LedgerMap,
    durable: bool,
    k: LedgerKey,
    op: Seq<char>,
    other: Seq<char>,
    res: Result<OutcomeView, RuntimeAdapterError>,
    t0: int,
    t1: int,
    t2: int,
)
    requires
        admits(spec_reserve(m, durable, k, op, t0).1),
        other != op,
        is_kept(res),
        t0 <= t1 <= t2 <= t1 + APPLY_LEDGER_TTL_SECS,
    ensures
        ({
            let m1 = spec_reserve(m, durable, k, op, t0).0;
            let refusal = Verdict::Refuse(
                RuntimeErrorCode::Conflict,
                Terminality::Permanent,
                REUSE_MESSAGE@,
            );
            &&& spec_reserve(m1, durable, k, other, t1).1 == refusal
            &&& spec_reserve(spec_settle(m1, k, res, t1), durable, k, other, t2).1 == refusal
        }),
{
    let m1 = spec_reserve(m, durable, k, op, t0).0;
    assert(spec_reap(m1, t1).contains_key(k));
    assert(spec_reap(spec_settle(m1, k, res, t1), t2).contains_key(k));
}

/// A duplicate that arrives while the first apply is in flight is refused
/// with a retryable `Conflict`: exactly one of two racing reservations runs.
pub proof fn law_concurrent_duplicate_is_refused_retryably(
    m: LedgerMap,
    durable: bool,
    k: LedgerKey,
    op: Seq<char>,
    t0: int,
    t1: int,
)
    requires
        admits(spec_reserve(m, durable, k, op, t0).1),
    ensures
        spec_reserve(spec_reserve(m, durable, k, op, t0).0, durable, k, op, t1).1
            == Verdict::Refuse(RuntimeErrorCode::Conflict, Terminality::Transient, IN_FLIGHT_MESSAGE@),
{
    let m1 = spec_reserve(m, durable, k, op, t0).0;
    assert(spec_reap(m1, t1).contains_key(k));
}

/// Reservations and settlements of one key leave every other key's record as
/// it was (other than a reap of that record).
pub proof fn law_distinct_keys_are_independent(
    m: LedgerMap,
    durable: bool,
    k: LedgerKey,
    j: LedgerKey,
    op: Seq<char>,
    res: Result<OutcomeView, RuntimeAdapterError>,
    t: int,
)
    requires
        k != j,
    ensures
        spec_reserve(m, durable, k, op, t).0.contains_key(j) == spec_reap(m, t).contains_key(j),
        spec_reap(m, t).contains_key(j) ==> spec_reserve(m, durable, k, op, t).0[j] == m[j],
        spec_settle(m, k, res, t).contains_key(j) == m.contains_key(j),
        m.contains_key(j) ==> spec_settle(m, k, res, t)[j] == m[j],
{
}

/// After a restart (an empty in-memory ledger), a key whose decision the
/// durable store holds is re-observed, never re-executed, and the next
/// redelivery is served from the repopulated cache.
pub proof fn law_durable_decision_survives_restart(
    k: LedgerKey,
    op: Seq<char>,
    res: Result<OutcomeView, RuntimeAdapterError>,
    t0: int,
    t1: int,
)
    requires
        t0 <= t1 <= t0 + APPLY_LEDGER_TTL_SECS,
    ensures
        ({
            let fresh = Map::<LedgerKey, LedgerRecord>::empty();
            let (m1, v1) = spec_reserve(fresh, true, k, op, t0);
            let answer = match res {
                Ok(o) => AnswerView::Existing {
                    op_name: op,
                    state: DurableApplyState::Confirmed,
                    payload: PayloadView::Outcome(o),
                },
                Err(e) => AnswerView::Existing {
                    op_name: op,
                    state: DurableApplyState::Rejected,
                    payload: PayloadView::Rejection(e),
                },
            };
            let (m2, v2) = spec_resolve(m1, k, op, answer, t0);
            &&& v1 is Consult
            &&& v2 == Verdict::Replay(res)
            &&& spec_reserve(m2, true, k, op, t1).1 == Verdict::Replay(res)
        }),
{
    let fresh = Map::<LedgerKey, LedgerRecord>::empty();
    assert(!spec_reap(fresh, t0).contains_key(k));
    let m1 = spec_reserve(fresh, true, k, op, t0).0;
    assert(m1.contains_key(k));
}

/// A durable `pending` marker (an apply interrupted before its outcome was
/// recorded) is never re-executed: the reservation is a permanent
/// `Conflict`.
pub proof fn law_unresolved_pending_is_never_reexecuted(
    m: LedgerMap,
    k: LedgerKey,
    op: Seq<char>,
    payload: PayloadView,
    t: int,
)
    ensures
        spec_resolve(
            m,
            k,
            op,
            AnswerView::Existing { op_name: op, state: DurableApplyState::Pending, payload },
            t,
        ).1 == Verdict::Refuse(
            RuntimeErrorCode::Conflict,
            Terminality::Permanent,
            UNKNOWN_OUTCOME_MESSAGE@,
        ),
{
}

/// With the durable store unreachable the operation is not run (a retryable
/// `StorageFailure`), and the key is not poisoned: the next reservation
/// consults the store again.
pub proof fn law_unavailable_store_fails_closed_and_recovers(
    m: LedgerMap,
    k: LedgerKey,
    op: Seq<char>,
    t0: int,
    t1: int,
)
    requires
        spec_reserve(m, true, k, op, t0).1 is Consult,
    ensures
        ({
            let m1 = spec_reserve(m, true, k, op, t0).0;
            let (m2, v) = spec_resolve(m1, k, op, AnswerView::Unavailable, t0);
            &&& v == Verdict::Refuse(
                RuntimeErrorCode::StorageFailure,
                Terminality::Transient,
                UNAVAILABLE_MESSAGE@,
            )
            &&& spec_reserve(m2, true, k, op, t1).1 is Consult
        }),
{
    let m1 = spec_reserve(m, true, k, op, t0).0;
    let m2 = m1.remove(k);
    assert(!spec_reap(m2, t1).contains_key(k));
}

/// A durable record of another operation is a permanent `Conflict`.
pub proof fn law_durable_key_reuse_conflicts(
    m: LedgerMap,
    k: LedgerKey,
    op: Seq<char>,
    stored: Seq<char>,
    state: DurableApplyState,
    payload: PayloadView,
    t: int,
)
    requires
        stored != op,
    ensures
        spec_resolve(m, k, op, AnswerView::Existing { op_name: stored, state, payload }, t).1
            == Verdict::Refuse(RuntimeErrorCode::Conflict, Terminality::Permanent, REUSE_MESSAGE@),
{
}

} // verus!
