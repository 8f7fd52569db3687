//! The apply-scoped idempotency ledger.
//!
//! A keyed direct-apply (a message command, a draft save/delete, a send) runs
//! at most once per `(caller scope, client mutation id)`: a redelivery under
//! the same key re-observes the first outcome instead of re-executing.
//!
//! - a `Confirmed` outcome is kept and re-observed;
//! - a permanent (`Rejected`) outcome is kept and re-observed;
//! - a transient failure clears the record so a deliberate retry re-executes;
//! - reusing a key with a different operation is a permanent `Conflict`;
//! - a duplicate that arrives while the first apply is in flight gets a
//!   retryable `Conflict`.
//!
//! The in-memory map is a fast cache and the in-flight guard; terminal records
//! are reaped after [`APPLY_LEDGER_TTL_SECS`]. When a durable store is wired,
//! it is the source of truth for "already applied": a key that misses the
//! in-memory map is looked up there ([`ReserveStep::ConsultDurable`]) and the
//! store's answer is resolved by [`ApplyLedger::resolve_durable`]; a settled
//! decision is written back through the [`DurableWrite`] that
//! [`ApplyLedger::settle`] returns. The store itself (asynchronous, I/O) is
//! driven by the caller.
use vstd::prelude::*;

use crate::domain::{CommandAck, DomainEvent, Operation};
use crate::errors::{owned, RuntimeAdapterError, RuntimeError, RuntimeErrorCode, Terminality};
use crate::text::chars_of;

verus! {

/// Op-name of a keyed draft save, distinct from every message-command name.
pub const DRAFT_SAVE_OP: &'static str = "draft.save";

/// Op-name of a keyed draft delete.
pub const DRAFT_DELETE_OP: &'static str = "draft.delete";

/// Op-name of a keyed send.
pub const SEND_OP_NAME: &'static str = "message.send";

/// How long a terminal in-memory record is kept before it is reaped.
pub const APPLY_LEDGER_TTL_SECS: u64 = 900;

/// The payload a settled reservation carries for replay.
#[derive(Debug)]
pub enum AppliedOutcome {
    /// A direct-apply command acknowledgement.
    Ack(CommandAck),
    /// An enqueued outbox operation (draft save/delete, send).
    Draft(Operation),
}

/// The value of an [`AppliedOutcome`].
pub enum OutcomeView {
    Ack(Seq<DomainEvent>),
    Draft(Operation),
}

impl View for AppliedOutcome {
    type V = OutcomeView;

    open spec fn view(&self) -> OutcomeView {
        match self {
            AppliedOutcome::Ack(ack) => OutcomeView::Ack(ack.events@),
            AppliedOutcome::Draft(op) => OutcomeView::Draft(*op),
        }
    }
}

pub const REUSE_MESSAGE: &'static str = "idempotency key reused with a different operation";

pub const IN_FLIGHT_MESSAGE: &'static str = "a mutation with this idempotency key is still in flight";

pub const UNKNOWN_OUTCOME_MESSAGE: &'static str =
    "a previous apply under this idempotency key never recorded its outcome (interrupted mid-apply); refusing to re-execute \u{2014} use a new idempotency key to run a new operation";

pub const UNREADABLE_MESSAGE: &'static str =
    "this idempotency key settled previously but its stored outcome is unreadable; refusing to re-execute";

pub const UNAVAILABLE_MESSAGE: &'static str =
    "the durable idempotency ledger is unavailable; the operation was not executed \u{2014} retry";

/// `e` is an error with the given code, terminality and message, and no details.
pub open spec fn is_error(
    e: RuntimeAdapterError,
    code: RuntimeErrorCode,
    terminality: Terminality,
    message: Seq<char>,
) -> bool {
    &&& e.code == code
    &&& e.terminality == terminality
    &&& e.message@ == message
    &&& e.details@ == "{}"@
}

fn error_of(code: RuntimeErrorCode, terminality: Terminality, message: &str) -> (r: RuntimeError)
    ensures
        is_error(r.0, code, terminality, message@),
{
    match terminality {
        Terminality::Permanent => RuntimeError::new(code, owned(message)),
        Terminality::Transient => RuntimeError::retryable(code, owned(message)),
    }
}

impl AppliedOutcome {
    pub fn duplicate(&self) -> (r: Self)
        ensures
            r@ == self@,
    {
        match self {
            AppliedOutcome::Ack(ack) => AppliedOutcome::Ack(ack.duplicate()),
            AppliedOutcome::Draft(op) => AppliedOutcome::Draft(op.duplicate()),
        }
    }

    /// The command ack a replay carries; a stored draft operation is a
    /// `Conflict` (the op-name guard keeps this from happening in practice).
    pub fn into_ack(self) -> (r: Result<CommandAck, RuntimeError>)
        ensures
            match self@ {
                OutcomeView::Ack(events) => r matches Ok(ack) && ack.events@ == events,
                OutcomeView::Draft(_) => r matches Err(e) && is_error(
                    e.0,
                    RuntimeErrorCode::Conflict,
                    Terminality::Permanent,
                    REUSE_MESSAGE@,
                ),
            },
    {
        match self {
            AppliedOutcome::Ack(ack) => Ok(ack),
            AppliedOutcome::Draft(_) => Err(Self::variant_mismatch()),
        }
    }

    /// The draft operation a replay carries; a stored ack is a `Conflict`.
    pub fn into_draft(self) -> (r: Result<Operation, RuntimeError>)
        ensures
            match self@ {
                OutcomeView::Draft(op) => r == Ok::<Operation, RuntimeError>(op),
                OutcomeView::Ack(_) => r matches Err(e) && is_error(
                    e.0,
                    RuntimeErrorCode::Conflict,
                    Terminality::Permanent,
                    REUSE_MESSAGE@,
                ),
            },
    {
        match self {
            AppliedOutcome::Draft(op) => Ok(op),
            AppliedOutcome::Ack(_) => Err(Self::variant_mismatch()),
        }
    }

    fn variant_mismatch() -> (r: RuntimeError)
        ensures
            is_error(r.0, RuntimeErrorCode::Conflict, Terminality::Permanent, REUSE_MESSAGE@),
    {
        error_of(RuntimeErrorCode::Conflict, Terminality::Permanent, REUSE_MESSAGE)
    }
}

/// The durable state of a keyed apply decision.
#[derive(Clone, Copy, Debug, PartialEq, Eq, Structural)]
pub enum DurableApplyState {
    /// Reserved before execution; no outcome recorded yet.
    Pending,
    /// Applied; the payload is the serialized outcome.
    Confirmed,
    /// Permanently rejected; the payload is the serialized rejection.
    Rejected,
}

/// A durable apply decision read back on a duplicate reservation.
#[derive(Debug)]
pub struct DurableApplyRecord {
    /// The op-name stored at reservation.
    pub op_name: String,
    pub state: DurableApplyState,
    /// The serialized decision payload; `None` while `Pending`.
    pub payload_json: Option<String>,
}

/// The verdict of a durable store's atomic reserve.
#[derive(Debug)]
pub enum DurableReserve {
    /// First durable sight of the key: a `pending` marker was written.
    Reserved,
    /// The key already has a durable record.
    Existing(DurableApplyRecord),
}

/// A durable record's payload, decoded by the caller.
#[derive(Debug)]
pub enum DecodedPayload {
    /// A Confirmed record's outcome.
    Outcome(AppliedOutcome),
    /// A Rejected record's rejection envelope.
    Rejection(RuntimeAdapterError),
    /// Absent, or not decodable as the record's state requires.
    Unreadable,
}

/// The durable store's answer to a reserve, with the payload decoded.
#[derive(Debug)]
pub enum DurableAnswer {
    Reserved,
    Existing { op_name: String, state: DurableApplyState, payload: DecodedPayload },
    /// The store could not be reached.
    Unavailable,
}

pub enum PayloadView {
    Outcome(OutcomeView),
    Rejection(RuntimeAdapterError),
    Unreadable,
}

pub enum AnswerView {
    Reserved,
    Existing { op_name: Seq<char>, state: DurableApplyState, payload: PayloadView },
    Unavailable,
}

impl View for DurableAnswer {
    type V = AnswerView;

    open spec fn view(&self) -> AnswerView {
        match self {
            DurableAnswer::Reserved => AnswerView::Reserved,
            DurableAnswer::Existing { op_name, state, payload } => AnswerView::Existing {
                op_name: op_name@,
                state: *state,
                payload: match payload {
                    DecodedPayload::Outcome(o) => PayloadView::Outcome(o@),
                    DecodedPayload::Rejection(e) => PayloadView::Rejection(*e),
                    DecodedPayload::Unreadable => PayloadView::Unreadable,
                },
            },
            DurableAnswer::Unavailable => AnswerView::Unavailable,
        }
    }
}

/// The caller of a runtime operation: the link it speaks for, if any, and the
/// name of its operation source.
#[derive(Debug)]
pub struct RuntimeCaller {
    pub link_id: Option<String>,
    pub operation_source: String,
}

impl RuntimeCaller {
    /// The keyless REST caller.
    pub fn api() -> (r: Self)
        ensures
            r.link_id is None,
            r.operation_source@ == "Api"@,
    {
        RuntimeCaller { link_id: None, operation_source: owned("Api") }
    }
}

/// The per-caller idempotency bucket: `link:{id}` for a link-scoped caller,
/// `src:{source}` otherwise.
#[derive(Debug)]
pub struct ApplyScope(pub String);

pub open spec fn spec_scope_of(caller: RuntimeCaller) -> Seq<char> {
    match caller.link_id {
        Some(id) => "link:"@ + id@,
        None => "src:"@ + caller.operation_source@,
    }
}

/// The string `a` followed by `b`.
pub fn concat(a: &str, b: &str) -> (r: String)
    ensures
        r@ == a@ + b@,
{
    let mut v = chars_of(a);
    let w = chars_of(b);
    let mut i: usize = 0;
    while i < w.len()
        invariant
            i <= w@.len(),
            v@ == a@ + w@.subrange(0, i as int),
        decreases w@.len() - i,
    {
        v.push(w[i]);
        i = i + 1;
    }
    assert(w@.subrange(0, w@.len() as int) =~= w@);
    crate::text::string_of(v.as_slice())
}

impl ApplyScope {
    pub fn of(caller: &RuntimeCaller) -> (r: Self)
        ensures
            r.0@ == spec_scope_of(*caller),
    {
        match &caller.link_id {
            Some(id) => ApplyScope(concat("link:", id.as_str())),
            None => ApplyScope(concat("src:", caller.operation_source.as_str())),
        }
    }

    /// The stable string the durable store keys on.
    pub fn as_str(&self) -> (r: &str)
        ensures
            r@ == self.0@,
    {
        self.0.as_str()
    }
}

/// What a reservation tells its caller.
#[derive(Debug)]
pub enum Reserved {
    /// First sight of the key: run the operation, then settle it.
    Execute,
    /// A prior outcome (or a refusal) to return without executing.
    Return(Result<AppliedOutcome, RuntimeError>),
}

/// The in-memory step of a reservation.
#[derive(Debug)]
pub enum ReserveStep {
    Decided(Reserved),
    /// In-memory miss with a durable store wired: the caller must reserve in
    /// the durable store and hand its answer to `resolve_durable`.
    ConsultDurable,
}

/// The durable write a settlement asks for.
#[derive(Debug)]
pub enum DurableWrite {
    /// No durable store is wired.
    Nothing,
    /// Record the Confirmed outcome.
    Confirm(AppliedOutcome),
    /// Record the permanent rejection.
    Reject(RuntimeAdapterError),
    /// Drop the record (a transient failure).
    Clear,
}

/// The abstract verdict of a reservation step.
pub enum Verdict {
    Execute,
    Consult,
    Replay(Result<OutcomeView, RuntimeAdapterError>),
    Refuse(RuntimeErrorCode, Terminality, Seq<char>),
}

pub open spec fn reserved_is(r: Reserved, v: Verdict) -> bool {
    match v {
        Verdict::Execute => r is Execute,
        Verdict::Consult => false,
        Verdict::Replay(Ok(o)) => r matches Reserved::Return(Ok(x)) && x@ == o,
        Verdict::Replay(Err(e)) => r matches Reserved::Return(Err(x)) && x.0 == e,
        Verdict::Refuse(code, term, msg) => r matches Reserved::Return(Err(x)) && is_error(
            x.0,
            code,
            term,
            msg,
        ),
    }
}

pub open spec fn step_is(s: ReserveStep, v: Verdict) -> bool {
    match s {
        ReserveStep::ConsultDurable => v is Consult,
        ReserveStep::Decided(r) => reserved_is(r, v),
    }
}

/// One ledger record: the op-name it was reserved for, its terminal outcome
/// (`None` while in flight) and the tick it was written at.
pub struct LedgerRecord {
    pub op_name: Seq<char>,
    pub outcome: Option<Result<OutcomeView, RuntimeAdapterError>>,
    pub at: int,
}

pub type LedgerKey = (Seq<char>, Seq<char>);

pub type LedgerMap = Map<LedgerKey, LedgerRecord>;

pub open spec fn spec_expired(r: LedgerRecord, now: int) -> bool {
    r.outcome is Some && now > r.at + APPLY_LEDGER_TTL_SECS
}

/// The map with terminal records older than the TTL removed.
pub open spec fn spec_reap(m: LedgerMap, now: int) -> LedgerMap {
    Map::new(|k: LedgerKey| m.contains_key(k) && !spec_expired(m[k], now), |k: LedgerKey| m[k])
}

/// What a cached record tells a reservation for `op`.
pub open spec fn spec_cached_verdict(r: LedgerRecord, op: Seq<char>) -> Verdict {
    if r.op_name != op {
        Verdict::Refuse(RuntimeErrorCode::Conflict, Terminality::Permanent, REUSE_MESSAGE@)
    } else {
        match r.outcome {
            Some(res) => Verdict::Replay(res),
            None => Verdict::Refuse(
                RuntimeErrorCode::Conflict,
                Terminality::Transient,
                IN_FLIGHT_MESSAGE@,
            ),
        }
    }
}

/// The in-memory reservation: reap, then either answer from the cache or hold
/// an in-flight slot and execute (no durable store) or consult the store.
pub open spec fn spec_reserve(
    m: LedgerMap,
    durable: bool,
    k: LedgerKey,
    op: Seq<char>,
    now: int,
) -> (LedgerMap, Verdict) {
    let m1 = spec_reap(m, now);
    if m1.contains_key(k) {
        (m1, spec_cached_verdict(m1[k], op))
    } else {
        (
            m1.insert(k, LedgerRecord { op_name: op, outcome: None, at: now }),
            if durable {
                Verdict::Consult
            } else {
                Verdict::Execute
            },
        )
    }
}

/// Settle the record of `k` in place (no-op when absent).
pub open spec fn spec_settle_in_place(
    m: LedgerMap,
    k: LedgerKey,
    res: Result<OutcomeView, RuntimeAdapterError>,
    now: int,
) -> LedgerMap {
    if m.contains_key(k) {
        m.insert(k, LedgerRecord { op_name: m[k].op_name, outcome: Some(res), at: now })
    } else {
        m
    }
}

/// Resolve the durable store's answer for the held slot of `k`.
pub open spec fn spec_resolve(
    m: LedgerMap,
    k: LedgerKey,
    op: Seq<char>,
    answer: AnswerView,
    now: int,
) -> (LedgerMap, Verdict) {
    match answer {
        AnswerView::Reserved => (m, Verdict::Execute),
        AnswerView::Unavailable => (
            m.remove(k),
            Verdict::Refuse(
                RuntimeErrorCode::StorageFailure,
                Terminality::Transient,
                UNAVAILABLE_MESSAGE@,
            ),
        ),
        AnswerView::Existing { op_name, state, payload } => if op_name != op {
            (
                m.remove(k),
                Verdict::Refuse(RuntimeErrorCode::Conflict, Terminality::Permanent, REUSE_MESSAGE@),
            )
        } else {
            match (state, payload) {
                (DurableApplyState::Pending, _) => (
                    m.remove(k),
                    Verdict::Refuse(
                        RuntimeErrorCode::Conflict,
                        Terminality::Permanent,
                        UNKNOWN_OUTCOME_MESSAGE@,
                    ),
                ),
                (DurableApplyState::Confirmed, PayloadView::Outcome(o)) => (
                    spec_settle_in_place(m, k, Ok(o), now),
                    Verdict::Replay(Ok(o)),
                ),
                (DurableApplyState::Rejected, PayloadView::Rejection(e)) => (
                    spec_settle_in_place(m, k, Err(e), now),
                    Verdict::Replay(Err(e)),
                ),
                _ => (
                    m.remove(k),
                    Verdict::Refuse(
                        RuntimeErrorCode::Conflict,
                        Terminality::Permanent,
                        UNREADABLE_MESSAGE@,
                    ),
                ),
            }
        },
    }
}

/// The map after settling `k` with an executed result: a success or a
/// permanent error is kept, a transient error clears the record.
pub open spec fn spec_settle(
    m: LedgerMap,
    k: LedgerKey,
    result: Result<OutcomeView, RuntimeAdapterError>,
    now: int,
) -> LedgerMap {
    match result {
        Ok(o) => spec_settle_in_place(m, k, Ok(o), now),
        Err(e) => if e.terminality == Terminality::Permanent {
            spec_settle_in_place(m, k, Err(e), now)
        } else {
            m.remove(k)
        },
    }
}

/// The durable write a settlement asks for.
pub open spec fn spec_settle_write(
    durable: bool,
    result: Result<OutcomeView, RuntimeAdapterError>,
    w: DurableWrite,
) -> bool {
    if !durable {
        w is Nothing
    } else {
        match result {
            Ok(o) => w matches DurableWrite::Confirm(x) && x@ == o,
            Err(e) => if e.terminality == Terminality::Permanent {
                w == DurableWrite::Reject(e)
            } else {
                w is Clear
            },
        }
    }
}

/// One exec record of the ledger.
struct LedgerEntry {
    scope: String,
    key: String,
    op_name: String,
    outcome: Option<Result<AppliedOutcome, RuntimeAdapterError>>,
    at: u64,
}

spec fn outcome_model(o: Option<Result<AppliedOutcome, RuntimeAdapterError>>) -> Option<
    Result<OutcomeView, RuntimeAdapterError>,
> {
    match o {
        Some(Ok(x)) => Some(Ok(x@)),
        Some(Err(e)) => Some(Err(e)),
        None => None,
    }
}

spec fn ekey(e: LedgerEntry) -> LedgerKey {
    (e.scope@, e.key@)
}

spec fn erec(e: LedgerEntry) -> LedgerRecord {
    LedgerRecord { op_name: e.op_name@, outcome: outcome_model(e.outcome), at: e.at as int }
}

spec fn unique(s: Seq<LedgerEntry>) -> bool {
    forall|i: int, j: int|
        0 <= i < s.len() && 0 <= j < s.len() && i != j ==> #[trigger] ekey(s[i]) != #[trigger] ekey(
            s[j],
        )
}

spec fn seq_view(s: Seq<LedgerEntry>) -> LedgerMap {
    Map::new(
        |k: LedgerKey| exists|i: int| 0 <= i < s.len() && #[trigger] ekey(s[i]) == k,
        |k: LedgerKey| erec(s[choose|i: int| 0 <= i < s.len() && #[trigger] ekey(s[i]) == k]),
    )
}

proof fn lemma_lookup(s: Seq<LedgerEntry>, i: int)
    requires
        unique(s),
        0 <= i < s.len(),
    ensures
        seq_view(s).contains_key(ekey(s[i])),
        seq_view(s)[ekey(s[i])] == erec(s[i]),
{
    let k = ekey(s[i]);
    assert(exists|j: int| 0 <= j < s.len() && #[trigger] ekey(s[j]) == k);
    let j = choose|j: int| 0 <= j < s.len() && #[trigger] ekey(s[j]) == k;
    assert(j == i);
}

/// `seq_view(s)` is `m` when `s` lists exactly `m`'s records.
proof fn lemma_view_is(s: Seq<LedgerEntry>, m: LedgerMap)
    requires
        unique(s),
        forall|i: int|
            0 <= i < s.len() ==> m.contains_key(#[trigger] ekey(s[i])) && m[ekey(s[i])] == erec(
                s[i],
            ),
        forall|k: LedgerKey| m.contains_key(k) ==> exists|i: int| 0 <= i < s.len() && #[trigger] ekey(s[i]) == k,
    ensures
        seq_view(s) == m,
{
    assert forall|k: LedgerKey| #[trigger] seq_view(s).contains_key(k) == m.contains_key(k) by {
        if m.contains_key(k) {
            let i = choose|i: int| 0 <= i < s.len() && #[trigger] ekey(s[i]) == k;
            lemma_lookup(s, i);
        }
        if seq_view(s).contains_key(k) {
            let i = choose|i: int| 0 <= i < s.len() && #[trigger] ekey(s[i]) == k;
            assert(m.contains_key(ekey(s[i])));
        }
    }
    assert forall|k: LedgerKey| #[trigger] seq_view(s).contains_key(k) implies seq_view(s)[k]
        == m[k] by {
        let i = choose|i: int| 0 <= i < s.len() && #[trigger] ekey(s[i]) == k;
        lemma_lookup(s, i);
    }
    assert(seq_view(s) =~= m);
}

/// The entries of `s` that survive a reap at `now`, in order.
spec fn reap_seq(s: Seq<LedgerEntry>, now: int) -> Seq<LedgerEntry>
    decreases s.len(),
{
    if s.len() == 0 {
        Seq::empty()
    } else {
        let r = reap_seq(s.drop_last(), now);
        if spec_expired(erec(s.last()), now) {
            r
        } else {
            r.push(s.last())
        }
    }
}

proof fn lemma_unique_push(r: Seq<LedgerEntry>, e: LedgerEntry)
    requires
        unique(r),
        !seq_view(r).contains_key(ekey(e)),
    ensures
        unique(r.push(e)),
{
    let r2 = r.push(e);
    assert forall|a: int, b: int|
        0 <= a < r2.len() && 0 <= b < r2.len() && a != b implies #[trigger] ekey(r2[a])
        != #[trigger] ekey(r2[b]) by {
        if a < r.len() {
            lemma_lookup(r, a);
            assert(r2[a] == r[a]);
        }
        if b < r.len() {
            lemma_lookup(r, b);
            assert(r2[b] == r[b]);
        }
    }
}

proof fn lemma_view_push(s: Seq<LedgerEntry>, e: LedgerEntry)
    requires
        unique(s),
        !seq_view(s).contains_key(ekey(e)),
    ensures
        unique(s.push(e)),
        seq_view(s.push(e)) == seq_view(s).insert(ekey(e), erec(e)),
{
    lemma_unique_push(s, e);
    let s2 = s.push(e);
    let m = seq_view(s).insert(ekey(e), erec(e));
    assert forall|i: int| 0 <= i < s2.len() implies m.contains_key(#[trigger] ekey(s2[i]))
        && m[ekey(s2[i])] == erec(s2[i]) by {
        if i < s.len() {
            lemma_lookup(s, i);
            assert(s2[i] == s[i]);
        }
    }
    assert forall|k: LedgerKey| m.contains_key(k) implies exists|i: int|
        0 <= i < s2.len() && #[trigger] ekey(s2[i]) == k by {
        if k == ekey(e) {
            assert(ekey(s2[s.len() as int]) == k);
        } else {
            let i = choose|i: int| 0 <= i < s.len() && #[trigger] ekey(s[i]) == k;
            assert(s2[i] == s[i]);
        }
    }
    lemma_view_is(s2, m);
}

proof fn lemma_reap_seq(s: Seq<LedgerEntry>, now: int)
    requires
        unique(s),
    ensures
        unique(reap_seq(s, now)),
        seq_view(reap_seq(s, now)) == spec_reap(seq_view(s), now),
    decreases s.len(),
{
    if s.len() == 0 {
        lemma_view_is(s, Map::empty());
        lemma_view_is(reap_seq(s, now), Map::empty());
        assert(spec_reap(seq_view(s), now) =~= Map::empty());
    } else {
        let p = s.drop_last();
        let e = s.last();
        assert(unique(p)) by {
            assert forall|a: int, b: int|
                0 <= a < p.len() && 0 <= b < p.len() && a != b implies #[trigger] ekey(p[a])
                != #[trigger] ekey(p[b]) by {
                assert(p[a] == s[a] && p[b] == s[b]);
            }
        }
        assert(!seq_view(p).contains_key(ekey(e))) by {
            if seq_view(p).contains_key(ekey(e)) {
                let i = choose|i: int| 0 <= i < p.len() && #[trigger] ekey(p[i]) == ekey(e);
                assert(p[i] == s[i]);
                assert(ekey(s[i]) != ekey(s[s.len() - 1]));
            }
        }
        assert(s =~= p.push(e));
        lemma_view_push(p, e);
        lemma_reap_seq(p, now);
        let r = reap_seq(p, now);
        if spec_expired(erec(e), now) {
            assert(spec_reap(seq_view(s), now) =~= spec_reap(seq_view(p), now));
        } else {
            assert(!seq_view(r).contains_key(ekey(e)));
            lemma_view_push(r, e);
            assert(spec_reap(seq_view(s), now) =~= spec_reap(seq_view(p), now).insert(
                ekey(e),
                erec(e),
            ));
        }
    }
}

/// The apply-scoped dedup ledger.
pub struct ApplyLedger {
    entries: Vec<LedgerEntry>,
    durable: bool,
}

impl ApplyLedger {
    /// The ledger's records, keyed by `(scope, key)`.
    pub closed spec fn view(&self) -> LedgerMap {
        seq_view(self.entries@)
    }

    /// Whether a durable store is wired behind this ledger.
    pub closed spec fn has_durable(&self) -> bool {
        self.durable
    }

    /// The ledger's well-formedness: one record per key.
    pub closed spec fn wf(&self) -> bool {
        unique(self.entries@)
    }

    /// An in-memory-only ledger.
    pub fn new() -> (r: Self)
        ensures
            r.wf(),
            r.view() == Map::<LedgerKey, LedgerRecord>::empty(),
            !r.has_durable(),
    {
        let r = ApplyLedger { entries: Vec::new(), durable: false };
        proof {
            lemma_view_is(r.entries@, Map::empty());
        }
        r
    }

    /// A ledger whose terminal decisions are also recorded durably.
    pub fn with_durable() -> (r: Self)
        ensures
            r.wf(),
            r.view() == Map::<LedgerKey, LedgerRecord>::empty(),
            r.has_durable(),
    {
        let r = ApplyLedger { entries: Vec::new(), durable: true };
        proof {
            lemma_view_is(r.entries@, Map::empty());
        }
        r
    }

    /// Whether a durable store is wired.
    pub fn is_durable(&self) -> (r: bool)
        ensures
            r == self.has_durable(),
    {
        self.durable
    }

    fn find(&self, scope: &str, key: &str) -> (r: Option<usize>)
        requires
            self.wf(),
        ensures
            match r {
                Some(i) => i < self.entries@.len() && ekey(self.entries@[i as int]) == (
                    scope@,
                    key@,
                ),
                None => !self.view().contains_key((scope@, key@)),
            },
    {
        let mut i: usize = 0;
        while i < self.entries.len()
            invariant
                i <= self.entries@.len(),
                forall|j: int| 0 <= j < i ==> #[trigger] ekey(self.entries@[j]) != (scope@, key@),
            decreases self.entries@.len() - i,
        {
            let e = &self.entries[i];
            if crate::text::str_eq(e.scope.as_str(), scope) && crate::text::str_eq(
                e.key.as_str(),
                key,
            ) {
                return Some(i);
            }
            i = i + 1;
        }
        proof {
            if self.view().contains_key((scope@, key@)) {
                let j = choose|j: int|
                    0 <= j < self.entries@.len() && #[trigger] ekey(self.entries@[j]) == (
                        scope@,
                        key@,
                    );
                assert(ekey(self.entries@[j]) != (scope@, key@));
            }
        }
        None
    }

    /// Drop terminal records older than the TTL.
    fn reap(&mut self, now: u64)
        requires
            old(self).wf(),
        ensures
            final(self).wf(),
            final(self).view() == spec_reap(old(self).view(), now as int),
            final(self).durable == old(self).durable,
    {
        let ghost old_s = self.entries@;
        let mut rest: Vec<LedgerEntry> = Vec::new();
        std::mem::swap(&mut rest, &mut self.entries);
        let n = rest.len();
        let mut src: Vec<LedgerEntry> = Vec::new();
        // Move the entries out in reverse, then walk them back in order.
        while rest.len() > 0
            invariant
                rest@.len() + src@.len() == old_s.len(),
                forall|j: int| 0 <= j < rest@.len() ==> rest@[j] == old_s[j],
                forall|j: int| 0 <= j < src@.len() ==> src@[j] == old_s[old_s.len() - 1 - j],
            decreases rest@.len(),
        {
            let e = rest.pop().unwrap();
            src.push(e);
        }
        let mut kept: Vec<LedgerEntry> = Vec::new();
        let mut i: usize = 0;
        assert(old_s.take(0) =~= Seq::<LedgerEntry>::empty());
        while i < n
            invariant
                n == old_s.len(),
                i <= n,
                src@.len() == n - i,
                forall|j: int| 0 <= j < src@.len() ==> src@[j] == old_s[n - 1 - j],
                kept@ == reap_seq(old_s.take(i as int), now as int),
            decreases n - i,
        {
            let e = src.pop().unwrap();
            assert(e == old_s[i as int]);
            let expired = match &e.outcome {
                Some(_) => e.at < now && now - e.at > APPLY_LEDGER_TTL_SECS,
                None => false,
            };
            assert(old_s.take(i + 1).drop_last() =~= old_s.take(i as int));
            if !expired {
                kept.push(e);
            }
            i = i + 1;
        }
        proof {
            assert(old_s.take(n as int) =~= old_s);
            lemma_reap_seq(old_s, now as int);
        }
        self.entries = kept;
    }

    /// Add a fresh in-flight record for an absent key.
    fn hold(&mut self, scope: &str, key: &str, op_name: &str, now: u64)
        requires
            old(self).wf(),
            !old(self).view().contains_key((scope@, key@)),
        ensures
            final(self).wf(),
            final(self).view() == old(self).view().insert(
                (scope@, key@),
                LedgerRecord { op_name: op_name@, outcome: None, at: now as int },
            ),
            final(self).durable == old(self).durable,
    {
        let ghost s = self.entries@;
        let e = LedgerEntry {
            scope: owned(scope),
            key: owned(key),
            op_name: owned(op_name),
            outcome: None,
            at: now,
        };
        proof {
            assert forall|i: int| 0 <= i < s.len() implies #[trigger] ekey(s[i]) != ekey(e) by {
                lemma_lookup(s, i);
            }
        }
        self.entries.push(e);
        proof {
            let s2 = self.entries@;
            let m = seq_view(s).insert((scope@, key@), erec(e));
            assert(unique(s2)) by {
                assert forall|i: int, j: int|
                    0 <= i < s2.len() && 0 <= j < s2.len() && i != j implies #[trigger] ekey(s2[i])
                    != #[trigger] ekey(s2[j]) by {
                    if i < s.len() && j < s.len() {
                        assert(s2[i] == s[i] && s2[j] == s[j]);
                    } else if i < s.len() {
                        assert(ekey(s[i]) != ekey(e));
                    } else {
                        assert(ekey(s[j]) != ekey(e));
                    }
                }
            }
            assert forall|i: int| 0 <= i < s2.len() implies m.contains_key(#[trigger] ekey(s2[i]))
                && m[ekey(s2[i])] == erec(s2[i]) by {
                if i < s.len() {
                    lemma_lookup(s, i);
                    assert(s2[i] == s[i]);
                }
            }
            assert forall|k: LedgerKey| m.contains_key(k) implies exists|i: int|
                0 <= i < s2.len() && #[trigger] ekey(s2[i]) == k by {
                if k == (scope@, key@) {
                    assert(ekey(s2[s.len() as int]) == k);
                } else {
                    let i = choose|i: int| 0 <= i < s.len() && #[trigger] ekey(s[i]) == k;
                    assert(s2[i] == s[i]);
                }
            }
            lemma_view_is(s2, m);
        }
    }

    /// Replace the outcome of the record at `i`.
    fn set_outcome(
        &mut self,
        i: usize,
        outcome: Option<Result<AppliedOutcome, RuntimeAdapterError>>,
        now: u64,
    )
        requires
            old(self).wf(),
            i < old(self).entries@.len(),
        ensures
            final(self).wf(),
            final(self).view() == old(self).view().insert(
                ekey(old(self).entries@[i as int]),
                LedgerRecord {
                    op_name: old(self).entries@[i as int].op_name@,
                    outcome: outcome_model(outcome),
                    at: now as int,
                },
            ),
            final(self).durable == old(self).durable,
            final(self).entries@.len() == old(self).entries@.len(),
    {
        let ghost s = self.entries@;
        let old_e = self.entries.remove(i);
        let e = LedgerEntry {
            scope: old_e.scope,
            key: old_e.key,
            op_name: old_e.op_name,
            outcome,
            at: now,
        };
        self.entries.insert(i, e);
        proof {
            let s2 = self.entries@;
            assert(s2 =~= s.update(i as int, e));
            let m = seq_view(s).insert(ekey(s[i as int]), erec(e));
            assert(unique(s2)) by {
                assert forall|a: int, b: int|
                    0 <= a < s2.len() && 0 <= b < s2.len() && a != b implies #[trigger] ekey(s2[a])
                    != #[trigger] ekey(s2[b]) by {
                    assert(ekey(s2[a]) == ekey(s[a]));
                    assert(ekey(s2[b]) == ekey(s[b]));
                }
            }
            assert forall|j: int| 0 <= j < s2.len() implies m.contains_key(#[trigger] ekey(s2[j]))
                && m[ekey(s2[j])] == erec(s2[j]) by {
                if j != i {
                    lemma_lookup(s, j);
                    assert(ekey(s[j]) != ekey(s[i as int]));
                }
            }
            assert forall|k: LedgerKey| m.contains_key(k) implies exists|j: int|
                0 <= j < s2.len() && #[trigger] ekey(s2[j]) == k by {
                if k == ekey(s[i as int]) {
                    assert(ekey(s2[i as int]) == k);
                } else {
                    let j = choose|j: int| 0 <= j < s.len() && #[trigger] ekey(s[j]) == k;
                    assert(ekey(s2[j]) == k);
                }
            }
            lemma_view_is(s2, m);
        }
    }

    /// Remove the record at `i`.
    fn drop_at(&mut self, i: usize)
        requires
            old(self).wf(),
            i < old(self).entries@.len(),
        ensures
            final(self).wf(),
            final(self).view() == old(self).view().remove(ekey(old(self).entries@[i as int])),
            final(self).durable == old(self).durable,
    {
        let ghost s = self.entries@;
        self.entries.remove(i);
        proof {
            let s2 = self.entries@;
            let k0 = ekey(s[i as int]);
            let m = seq_view(s).remove(k0);
            assert forall|j: int| 0 <= j < s2.len() implies s2[j] == s[if j < i {
                j
            } else {
                j + 1
            }] by {}
            assert(unique(s2)) by {
                assert forall|a: int, b: int|
                    0 <= a < s2.len() && 0 <= b < s2.len() && a != b implies #[trigger] ekey(s2[a])
                    != #[trigger] ekey(s2[b]) by {
                    let a0 = if a < i {
                        a
                    } else {
                        a + 1
                    };
                    let b0 = if b < i {
                        b
                    } else {
                        b + 1
                    };
                    assert(s2[a] == s[a0] && s2[b] == s[b0]);
                }
            }
            assert forall|j: int| 0 <= j < s2.len() implies m.contains_key(#[trigger] ekey(s2[j]))
                && m[ekey(s2[j])] == erec(s2[j]) by {
                let j0 = if j < i {
                    j
                } else {
                    j + 1
                };
                assert(s2[j] == s[j0]);
                lemma_lookup(s, j0);
                assert(ekey(s[j0]) != k0);
            }
            assert forall|k: LedgerKey| m.contains_key(k) implies exists|j: int|
                0 <= j < s2.len() && #[trigger] ekey(s2[j]) == k by {
                let t = choose|t: int| 0 <= t < s.len() && #[trigger] ekey(s[t]) == k;
                assert(t != i);
                let j = if t < i {
                    t
                } else {
                    t - 1
                };
                assert(s2[j] == s[t]);
            }
            lemma_view_is(s2, m);
        }
    }

    /// Remove the record of `(scope, key)`, if any.
    fn clear(&mut self, scope: &str, key: &str)
        requires
            old(self).wf(),
        ensures
            final(self).wf(),
            final(self).view() == old(self).view().remove((scope@, key@)),
            final(self).durable == old(self).durable,
    {
        match self.find(scope, key) {
            Some(i) => self.drop_at(i),
            None => {
                assert(self.view().remove((scope@, key@)) =~= self.view());
            },
        }
    }

    /// Settle the record of `(scope, key)` in place, if present.
    fn settle_in_place(
        &mut self,
        scope: &str,
        key: &str,
        res: Result<AppliedOutcome, RuntimeAdapterError>,
        now: u64,
    )
        requires
            old(self).wf(),
        ensures
            final(self).wf(),
            final(self).view() == spec_settle_in_place(
                old(self).view(),
                (scope@, key@),
                match res {
                    Ok(o) => Ok(o@),
                    Err(e) => Err(e),
                },
                now as int,
            ),
            final(self).durable == old(self).durable,
    {
        match self.find(scope, key) {
            Some(i) => {
                proof {
                    lemma_lookup(self.entries@, i as int);
                }
                self.set_outcome(i, Some(res), now);
            },
            None => {},
        }
    }

    /// Reserve `(caller, key)` for `op_name` at tick `now`.
    ///
    /// Stale terminal records are reaped first. A cached record answers the
    /// reservation without executing: its outcome (Confirmed or Rejected) is
    /// replayed, an in-flight record is a retryable `Conflict`, and a record
    /// of another operation is a permanent `Conflict`. A miss holds an
    /// in-flight slot and tells the caller to execute, or, with a durable
    /// store wired, to consult the store first.
    pub fn reserve(&mut self, caller: &RuntimeCaller, key: &str, op_name: &str, now: u64) -> (r:
        ReserveStep)
        requires
            old(self).wf(),
        ensures
            final(self).wf(),
            final(self).has_durable() == old(self).has_durable(),
            final(self).view() == spec_reserve(
                old(self).view(),
                old(self).has_durable(),
                (spec_scope_of(*caller), key@),
                op_name@,
                now as int,
            ).0,
            step_is(
                r,
                spec_reserve(
                    old(self).view(),
                    old(self).has_durable(),
                    (spec_scope_of(*caller), key@),
                    op_name@,
                    now as int,
                ).1,
            ),
    {
        let scope = ApplyScope::of(caller);
        self.reap(now);
        match self.find(scope.as_str(), key) {
            Some(i) => {
                proof {
                    lemma_lookup(self.entries@, i as int);
                }
                let e = &self.entries[i];
                if !crate::text::str_eq(e.op_name.as_str(), op_name) {
                    return ReserveStep::Decided(
                        Reserved::Return(
                            Err(
                                error_of(
                                    RuntimeErrorCode::Conflict,
                                    Terminality::Permanent,
                                    REUSE_MESSAGE,
                                ),
                            ),
                        ),
                    );
                }
                match &e.outcome {
                    Some(Ok(o)) => ReserveStep::Decided(Reserved::Return(Ok(o.duplicate()))),
                    Some(Err(x)) => ReserveStep::Decided(
                        Reserved::Return(Err(RuntimeError(x.duplicate()))),
                    ),
                    None => ReserveStep::Decided(
                        Reserved::Return(
                            Err(
                                error_of(
                                    RuntimeErrorCode::Conflict,
                                    Terminality::Transient,
                                    IN_FLIGHT_MESSAGE,
                                ),
                            ),
                        ),
                    ),
                }
            },
            None => {
                self.hold(scope.as_str(), key, op_name, now);
                if self.durable {
                    ReserveStep::ConsultDurable
                } else {
                    ReserveStep::Decided(Reserved::Execute)
                }
            },
        }
    }

    /// Resolve the durable store's answer for a reservation that was told to
    /// consult it (its in-flight slot is held).
    ///
    /// A fresh durable reservation executes. A durable record of another
    /// operation, or an unresolved `pending` one (an apply interrupted before
    /// its outcome was recorded), is a permanent `Conflict` and is never
    /// re-executed. A Confirmed or Rejected record is re-observed and cached.
    /// An undecodable record is a permanent `Conflict`. An unreachable store
    /// fails closed: a retryable `StorageFailure`, with the slot released.
    pub fn resolve_durable(
        &mut self,
        caller: &RuntimeCaller,
        key: &str,
        op_name: &str,
        answer: DurableAnswer,
        now: u64,
    ) -> (r: Reserved)
        requires
            old(self).wf(),
        ensures
            final(self).wf(),
            final(self).has_durable() == old(self).has_durable(),
            final(self).view() == spec_resolve(
                old(self).view(),
                (spec_scope_of(*caller), key@),
                op_name@,
                answer@,
                now as int,
            ).0,
            reserved_is(
                r,
                spec_resolve(
                    old(self).view(),
                    (spec_scope_of(*caller), key@),
                    op_name@,
                    answer@,
                    now as int,
                ).1,
            ),
    {
        let scope = ApplyScope::of(caller);
        match answer {
            DurableAnswer::Reserved => Reserved::Execute,
            DurableAnswer::Unavailable => {
                self.clear(scope.as_str(), key);
                Reserved::Return(
                    Err(
                        error_of(
                            RuntimeErrorCode::StorageFailure,
                            Terminality::Transient,
                            UNAVAILABLE_MESSAGE,
                        ),
                    ),
                )
            },
            DurableAnswer::Existing { op_name: stored_op, state, payload } => {
                if !crate::text::str_eq(stored_op.as_str(), op_name) {
                    self.clear(scope.as_str(), key);
                    return Reserved::Return(
                        Err(
                            error_of(
                                RuntimeErrorCode::Conflict,
                                Terminality::Permanent,
                                REUSE_MESSAGE,
                            ),
                        ),
                    );
                }
                match (state, payload) {
                    (DurableApplyState::Pending, _) => {
                        self.clear(scope.as_str(), key);
                        Reserved::Return(
                            Err(
                                error_of(
                                    RuntimeErrorCode::Conflict,
                                    Terminality::Permanent,
                                    UNKNOWN_OUTCOME_MESSAGE,
                                ),
                            ),
                        )
                    },
                    (DurableApplyState::Confirmed, DecodedPayload::Outcome(o)) => {
                        let cached = o.duplicate();
                        self.settle_in_place(scope.as_str(), key, Ok(cached), now);
                        Reserved::Return(Ok(o))
                    },
                    (DurableApplyState::Rejected, DecodedPayload::Rejection(e)) => {
                        let cached = e.duplicate();
                        self.settle_in_place(scope.as_str(), key, Err(cached), now);
                        Reserved::Return(Err(RuntimeError(e)))
                    },
                    _ => {
                        self.clear(scope.as_str(), key);
                        Reserved::Return(
                            Err(
                                error_of(
                                    RuntimeErrorCode::Conflict,
                                    Terminality::Permanent,
                                    UNREADABLE_MESSAGE,
                                ),
                            ),
                        )
                    },
                }
            },
        }
    }

    /// The durable write that settling `result` asks for, decided before
    /// the in-memory settle: the Confirmed outcome, the permanent rejection,
    /// or (a transient error) dropping the record; nothing without a durable
    /// store. The caller performs it first and then calls `settle`.
    pub fn settle_write(&self, result: &Result<AppliedOutcome, &RuntimeError>) -> (w: DurableWrite)
        ensures
            spec_settle_write(self.has_durable(), spec_result(*result), w),
    {
        if !self.durable {
            return DurableWrite::Nothing;
        }
        match result {
            Ok(outcome) => DurableWrite::Confirm(outcome.duplicate()),
            Err(error) => {
                if !error.0.terminality.is_transient() {
                    DurableWrite::Reject(error.0.duplicate())
                } else {
                    DurableWrite::Clear
                }
            },
        }
    }

    /// Record the result of an executed reservation, once its durable write
    /// (`settle_write`) was performed: success is kept Confirmed, a permanent
    /// error is kept Rejected (both re-observed by a redelivery), a transient
    /// error clears the record so a deliberate retry re-executes. The
    /// durable write's outcome `_written` is only reported, never acted on:
    /// the in-memory settle is the same whether it succeeded or failed.
    pub fn settle(
        &mut self,
        caller: &RuntimeCaller,
        key: &str,
        result: Result<AppliedOutcome, &RuntimeError>,
        now: u64,
        _written: Result<(), RuntimeError>,
    )
        requires
            old(self).wf(),
        ensures
            final(self).wf(),
            final(self).has_durable() == old(self).has_durable(),
            final(self).view() == spec_settle(
                old(self).view(),
                (spec_scope_of(*caller), key@),
                spec_result(result),
                now as int,
            ),
    {
        let scope = ApplyScope::of(caller);
        match result {
            Ok(outcome) => {
                self.settle_in_place(scope.as_str(), key, Ok(outcome), now);
            },
            Err(error) => {
                if !error.0.terminality.is_transient() {
                    let cached = error.0.duplicate();
                    self.settle_in_place(scope.as_str(), key, Err(cached), now);
                } else {
                    self.clear(scope.as_str(), key);
                }
            },
        }
    }
}

/// The value of an executed result.
pub open spec fn spec_result(result: Result<AppliedOutcome, &RuntimeError>) -> Result<
    OutcomeView,
    RuntimeAdapterError,
> {
    match result {
        Ok(o) => Ok(o@),
        Err(e) => Err(e.0),
    }
}

} // verus!
