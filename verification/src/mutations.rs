//! Mutations a client runtime link forwards: accepting one against the dedup
//! ledger's answer, settling it into a receipt, a terminal class and a
//! notification, and the deferred settlements a send holds until its flush
//! reports back.
use vstd::prelude::*;

use crate::errors::{owned, RuntimeAdapterError, RuntimeError, RuntimeErrorCode, Terminality};
use crate::keyed::{
    keyed_map, keys_unique, lemma_keyed_at, lemma_keyed_push, lemma_keyed_remove,
    lemma_keyed_update,
};
use crate::links::{
    mutation_notification, spec_notification_for, spec_terminal_class, terminal_class_for,
    MailOperation,
    MutationNotification, MutationSettlementState, StoredMutation, TerminalClass,
    REJECTED_WITHOUT_ERROR_MESSAGE,
};
use crate::text::{chars_of, push_decimal, spec_decimal, str_eq, string_of};

verus! {

pub const LINK_ID_REQUIRED_MESSAGE: &'static str = "runtime mutation requires a link id";

pub const LINK_NOT_FOUND_MESSAGE: &'static str = "runtime link not found";

pub const CLIENT_ID_REUSED_MESSAGE: &'static str =
    "client mutation id was already used for a different mutation";

pub const MUTATION_NOT_FOUND_MESSAGE: &'static str = "runtime mutation not found";

pub const SEND_FAILED_MESSAGE: &'static str = "send failed";

pub const MUTATION_ID_PREFIX: &'static str = "mutation-";

/// A permanent error of `code` reading `message`, with no details.
pub open spec fn is_error(e: RuntimeError, code: RuntimeErrorCode, message: Seq<char>) -> bool {
    &&& e.0.code == code
    &&& e.0.terminality == Terminality::Permanent
    &&& e.0.message@ == message
    &&& e.0.details@ == "{}"@
}

/// The id a link gives the mutation it accepts `n`-th: `mutation-{n}`.
pub open spec fn spec_mutation_id_text(n: u64) -> Seq<char> {
    MUTATION_ID_PREFIX@ + spec_decimal(n as nat)
}

/// `mutation-{n}`.
pub fn mutation_id_text(n: u64) -> (r: String)
    ensures
        r@ == spec_mutation_id_text(n),
{
    let mut text = chars_of(MUTATION_ID_PREFIX);
    push_decimal(&mut text, n);
    string_of(text.as_slice())
}

/// Two operations are the same mutation: same name, same arguments.
pub open spec fn spec_same_operation(a: MailOperation, b: MailOperation) -> bool {
    a.name@ == b.name@ && a.arguments@ == b.arguments@
}

/// Whether two operations are the same mutation.
pub fn same_operation(a: &MailOperation, b: &MailOperation) -> (r: bool)
    ensures
        r == spec_same_operation(*a, *b),
{
    str_eq(a.name.as_str(), b.name.as_str()) && str_eq(a.arguments.as_str(), b.arguments.as_str())
}

/// What a link answers about a mutation: its runtime id, the client's id,
/// the operation's name, its settlement and output (JSON text).
#[derive(Debug)]
pub struct MutationReceipt {
    pub runtime_mutation_id: Option<String>,
    pub client_mutation_id: String,
    pub name: String,
    pub state: MutationSettlementState,
    pub error: Option<RuntimeAdapterError>,
    pub output: String,
}

/// `r` is the receipt of `m`.
pub open spec fn spec_receipt_of(r: MutationReceipt, m: StoredMutation) -> bool {
    &&& r.runtime_mutation_id matches Some(id) && id@ == m.mutation_id@
    &&& r.client_mutation_id@ == m.client_mutation_id@
    &&& r.name@ == m.operation.name@
    &&& r.state == m.state
    &&& r.error == m.error
    &&& r.output@ == m.output@
}

fn dup_error(e: &Option<RuntimeAdapterError>) -> (r: Option<RuntimeAdapterError>)
    ensures
        r == *e,
{
    match e {
        Some(x) => Some(x.duplicate()),
        None => None,
    }
}

impl StoredMutation {
    /// The receipt a link answers for this mutation.
    pub fn receipt(&self) -> (r: MutationReceipt)
        ensures
            spec_receipt_of(r, *self),
    {
        MutationReceipt {
            runtime_mutation_id: Some(self.mutation_id.clone()),
            client_mutation_id: self.client_mutation_id.clone(),
            name: self.operation.name.clone(),
            state: self.state,
            error: dup_error(&self.error),
            output: self.output.clone(),
        }
    }

    /// The terminal verdict to publish for this mutation; none while it is
    /// only accepted.
    pub fn notification(&self) -> (r: Option<MutationNotification>)
        ensures
            match self.state {
                MutationSettlementState::Accepted => r is None,
                MutationSettlementState::Confirmed => r matches Some(
                    MutationNotification::Confirmed,
                ),
                MutationSettlementState::Failed => r matches Some(
                    MutationNotification::Rejected { error: e },
                ) && match self.error {
                    Some(x) => e == x,
                    None => e.code == RuntimeErrorCode::Internal && e.message@
                        == REJECTED_WITHOUT_ERROR_MESSAGE@ && e.terminality
                        == Terminality::Permanent,
                },
            },
    {
        mutation_notification(self.state, self.error.as_ref())
    }
}

/// The record a link keeps of a mutation it just accepted.
pub fn accepted_record(mutation_id: String, client_mutation_id: String, operation: MailOperation) -> (r:
    StoredMutation)
    ensures
        r.mutation_id == mutation_id,
        r.client_mutation_id == client_mutation_id,
        r.operation == operation,
        r.state == MutationSettlementState::Accepted,
        r.error is None,
        r.output@ == "null"@,
{
    StoredMutation {
        mutation_id,
        client_mutation_id,
        operation,
        state: MutationSettlementState::Accepted,
        error: None,
        output: owned("null"),
    }
}

/// The link a mutation request names, which it must name.
pub fn require_link_id(link_id: Option<&String>) -> (r: Result<&String, RuntimeError>)
    ensures
        match link_id {
            Some(id) => r matches Ok(x) && x == id,
            None => r matches Err(e) && is_error(
                e,
                RuntimeErrorCode::InvalidMutation,
                LINK_ID_REQUIRED_MESSAGE@,
            ),
        },
{
    match link_id {
        Some(id) => Ok(id),
        None => Err(
            RuntimeError::new(RuntimeErrorCode::InvalidMutation, owned(LINK_ID_REQUIRED_MESSAGE)),
        ),
    }
}

/// How an accepted mutation request is answered.
#[derive(Debug)]
pub enum MutationAcceptance {
    /// A new mutation, to be executed under the minted id.
    New { mutation_id: String },
    /// The client resent a mutation the link already holds: its receipt.
    Existing(MutationReceipt),
}

/// Answer a mutation request once the dedup ledger has taken it:
/// `previous` is the record the ledger already held under the client's
/// mutation id (`None`: the request was new and recorded under
/// `mutation_id`), `link_open` whether the link survived meanwhile. A link
/// closed meanwhile is `not found`; a client id reused for another operation
/// is refused; a resent mutation gets its existing receipt.
pub fn acceptance(
    link_open: bool,
    previous: Option<&StoredMutation>,
    operation: &MailOperation,
    mutation_id: String,
) -> (r: Result<MutationAcceptance, RuntimeError>)
    ensures
        !link_open ==> (r matches Err(e) && is_error(
            e,
            RuntimeErrorCode::NotFound,
            LINK_NOT_FOUND_MESSAGE@,
        )),
        link_open ==> match previous {
            None => r matches Ok(MutationAcceptance::New { mutation_id: id }) && id == mutation_id,
            Some(p) => if spec_same_operation(p.operation, *operation) {
                r matches Ok(MutationAcceptance::Existing(receipt)) && spec_receipt_of(receipt, *p)
            } else {
                r matches Err(e) && is_error(
                    e,
                    RuntimeErrorCode::InvalidMutation,
                    CLIENT_ID_REUSED_MESSAGE@,
                )
            },
        },
{
    if !link_open {
        return Err(RuntimeError::new(RuntimeErrorCode::NotFound, owned(LINK_NOT_FOUND_MESSAGE)));
    }
    match previous {
        None => Ok(MutationAcceptance::New { mutation_id }),
        Some(p) => {
            if same_operation(&p.operation, operation) {
                Ok(MutationAcceptance::Existing(p.receipt()))
            } else {
                Err(
                    RuntimeError::new(
                        RuntimeErrorCode::InvalidMutation,
                        owned(CLIENT_ID_REUSED_MESSAGE),
                    ),
                )
            }
        },
    }
}

/// The first record of `records` under runtime id `mutation_id`, or `not
/// found`.
pub fn find_mutation<'a>(records: &'a Vec<StoredMutation>, mutation_id: &str) -> (r: Result<
    &'a StoredMutation,
    RuntimeError,
>)
    ensures
        match r {
            Ok(m) => exists|i: int|
                0 <= i < records@.len() && records@[i] == *m && m.mutation_id@ == mutation_id@
                    && forall|j: int| 0 <= j < i ==> (#[trigger] records@[j]).mutation_id@ != mutation_id@,
            Err(e) => (forall|j: int|
                0 <= j < records@.len() ==> (#[trigger] records@[j]).mutation_id@ != mutation_id@)
                && is_error(e, RuntimeErrorCode::NotFound, MUTATION_NOT_FOUND_MESSAGE@),
        },
{
    let mut i: usize = 0;
    while i < records.len()
        invariant
            i <= records@.len(),
            forall|j: int| 0 <= j < i ==> (#[trigger] records@[j]).mutation_id@ != mutation_id@,
        decreases records@.len() - i,
    {
        if str_eq(records[i].mutation_id.as_str(), mutation_id) {
            return Ok(&records[i]);
        }
        i = i + 1;
    }
    Err(RuntimeError::new(RuntimeErrorCode::NotFound, owned(MUTATION_NOT_FOUND_MESSAGE)))
}

/// What settling a mutation yields: the settled record the ledger keeps (or
/// clears, by class), the receipt answered, the dedup class, and the
/// terminal notification to broadcast.
#[derive(Debug)]
pub struct Settlement {
    pub record: StoredMutation,
    pub receipt: MutationReceipt,
    pub class: TerminalClass,
    pub notification: Option<MutationNotification>,
}

/// Settle the mutation recorded as `base` into `state` with `error` and
/// `output`.
pub fn settle(
    base: &StoredMutation,
    state: MutationSettlementState,
    error: Option<RuntimeAdapterError>,
    output: String,
) -> (r: Settlement)
    ensures
        r.record.mutation_id == base.mutation_id,
        r.record.client_mutation_id == base.client_mutation_id,
        r.record.operation == base.operation,
        r.record.state == state,
        r.record.error == error,
        r.record.output == output,
        spec_receipt_of(r.receipt, r.record),
        r.class == spec_terminal_class(state, error),
        match state {
            MutationSettlementState::Accepted => r.notification is None,
            MutationSettlementState::Confirmed => r.notification matches Some(
                MutationNotification::Confirmed,
            ),
            MutationSettlementState::Failed => r.notification matches Some(
                MutationNotification::Rejected { error: e },
            ) && match error {
                Some(x) => e == x,
                None => e.code == RuntimeErrorCode::Internal && e.message@
                    == REJECTED_WITHOUT_ERROR_MESSAGE@ && e.terminality == Terminality::Permanent,
            },
        },
{
    let record = StoredMutation {
        mutation_id: base.mutation_id.clone(),
        client_mutation_id: base.client_mutation_id.clone(),
        operation: MailOperation {
            name: base.operation.name.clone(),
            arguments: base.operation.arguments.clone(),
        },
        state,
        error,
        output,
    };
    let receipt = record.receipt();
    let class = terminal_class_for(state, record.error.as_ref());
    let notification = record.notification();
    Settlement { record, receipt, class, notification }
}

/// The settlement a deferred send gets from its flush's verdict.
pub open spec fn spec_deferred_state(confirmed: bool) -> MutationSettlementState {
    if confirmed {
        MutationSettlementState::Confirmed
    } else {
        MutationSettlementState::Failed
    }
}

/// The error a deferred send that parked or failed carries to the client.
pub fn deferred_send_error(message: String) -> (r: RuntimeAdapterError)
    ensures
        r.code == RuntimeErrorCode::Internal,
        r.terminality == Terminality::Permanent,
        r.message == message,
        r.details@ == "{}"@,
{
    RuntimeError::new(RuntimeErrorCode::Internal, message).0
}

/// What the event bus said of an outbox operation a deferred send may be
/// waiting on.
#[derive(Debug)]
pub enum OperationReport {
    /// The flush settled the operation: applied, or failed with an optional
    /// reason.
    Settled { operation_id: String, applied: bool, error: Option<String> },
    /// The dispatch's outcome is unknown.
    DispatchUncertain { operation_id: String, reason: String },
}

/// The verdict for the deferred send of `operation_id`: confirmed, or failed
/// with its carried error.
#[derive(Debug)]
pub struct DeferredVerdict {
    pub operation_id: String,
    pub confirmed: bool,
    pub error: Option<RuntimeAdapterError>,
}

/// The verdict a report gives the deferred send waiting on its operation:
/// an applied settlement confirms; a failed one rejects with its error (or
/// "send failed"); an uncertain dispatch rejects with its reason.
pub fn deferred_verdict(report: OperationReport) -> (r: DeferredVerdict)
    ensures
        match report {
            OperationReport::Settled { operation_id, applied, error } => {
                &&& r.operation_id == operation_id
                &&& r.confirmed == applied
                &&& if applied {
                    r.error is None
                } else {
                    r.error matches Some(e) && e.code == RuntimeErrorCode::Internal && e.terminality
                        == Terminality::Permanent && e.message@ == match error {
                        Some(m) => m@,
                        None => SEND_FAILED_MESSAGE@,
                    }
                }
            },
            OperationReport::DispatchUncertain { operation_id, reason } => {
                &&& r.operation_id == operation_id
                &&& !r.confirmed
                &&& r.error matches Some(e) && e.code == RuntimeErrorCode::Internal && e.terminality
                    == Terminality::Permanent && e.message == reason
            },
        },
{
    match report {
        OperationReport::Settled { operation_id, applied, error } => {
            if applied {
                DeferredVerdict { operation_id, confirmed: true, error: None }
            } else {
                let message = match error {
                    Some(m) => m,
                    None => owned(SEND_FAILED_MESSAGE),
                };
                DeferredVerdict {
                    operation_id,
                    confirmed: false,
                    error: Some(deferred_send_error(message)),
                }
            }
        },
        OperationReport::DispatchUncertain { operation_id, reason } => {
            DeferredVerdict {
                operation_id,
                confirmed: false,
                error: Some(deferred_send_error(reason)),
            }
        },
    }
}

/// A send held until its flush settles: the outbox operation it waits on,
/// and the link and runtime mutation to settle then.
#[derive(Debug)]
pub struct DeferredSend {
    pub operation_id: String,
    pub link_id: String,
    pub mutation_id: String,
}

/// Held sends are found by their outbox operation.
pub open spec fn deferred_key() -> spec_fn(DeferredSend) -> Seq<char> {
    |d: DeferredSend| d.operation_id@
}

/// The sends a link registry holds until their flushes settle.
#[derive(Debug)]
pub struct DeferredSettlements {
    held: Vec<DeferredSend>,
}

impl DeferredSettlements {
    /// Each operation is waited on once.
    pub closed spec fn wf(&self) -> bool {
        keys_unique(self.held@, deferred_key())
    }

    /// The held sends by operation id.
    pub closed spec fn held(&self) -> Map<Seq<char>, DeferredSend> {
        keyed_map(self.held@, deferred_key())
    }

    pub fn new() -> (r: Self)
        ensures
            r.wf(),
            r.held() == Map::<Seq<char>, DeferredSend>::empty(),
    {
        let r = DeferredSettlements { held: Vec::new() };
        assert(r.held() =~= Map::<Seq<char>, DeferredSend>::empty());
        r
    }

    fn find(&self, operation_id: &str) -> (r: Option<usize>)
        requires
            self.wf(),
        ensures
            match r {
                Some(i) => i < self.held@.len() && self.held@[i as int].operation_id@
                    == operation_id@ && self.held().contains_key(operation_id@) && self.held()[operation_id@]
                    == self.held@[i as int],
                None => !self.held().contains_key(operation_id@),
            },
    {
        let mut i: usize = 0;
        while i < self.held.len()
            invariant
                self.wf(),
                i <= self.held@.len(),
                forall|j: int| 0 <= j < i ==> (#[trigger] self.held@[j]).operation_id@ != operation_id@,
            decreases self.held@.len() - i,
        {
            if str_eq(self.held[i].operation_id.as_str(), operation_id) {
                proof {
                    lemma_keyed_at(self.held@, deferred_key(), i as int);
                }
                return Some(i);
            }
            i = i + 1;
        }
        proof {
            if self.held().contains_key(operation_id@) {
                let j = choose|j: int|
                    0 <= j < self.held@.len() && deferred_key()(#[trigger] self.held@[j])
                        == operation_id@;
                assert(self.held@[j].operation_id@ == operation_id@);
            }
        }
        None
    }

    /// Hold `send` until its operation settles (in place of any send held
    /// for the same operation).
    pub fn register(&mut self, send: DeferredSend)
        requires
            old(self).wf(),
        ensures
            final(self).wf(),
            final(self).held() == old(self).held().insert(send.operation_id@, send),
    {
        match self.find(send.operation_id.as_str()) {
            Some(i) => {
                proof {
                    lemma_keyed_update(self.held@, deferred_key(), i as int, send);
                }
                let ghost before = self.held@;
                self.held.remove(i);
                self.held.insert(i, send);
                assert(self.held@ =~= before.update(i as int, send));
            },
            None => {
                proof {
                    lemma_keyed_push(self.held@, deferred_key(), send);
                }
                self.held.push(send);
            },
        }
    }

    /// Release the send waiting on `operation_id`, if one is held.
    pub fn take(&mut self, operation_id: &str) -> (r: Option<DeferredSend>)
        requires
            old(self).wf(),
        ensures
            final(self).wf(),
            final(self).held() == old(self).held().remove(operation_id@),
            match r {
                Some(d) => old(self).held().contains_key(operation_id@) && d == old(self).held()[operation_id@],
                None => !old(self).held().contains_key(operation_id@),
            },
    {
        match self.find(operation_id) {
            Some(i) => {
                proof {
                    lemma_keyed_remove(self.held@, deferred_key(), i as int);
                }
                Some(self.held.remove(i))
            },
            None => {
                assert(old(self).held().remove(operation_id@) =~= old(self).held());
                None
            },
        }
    }
}

/// A held send's settlement under `verdict`: the link and mutation to settle
/// and the state to settle it into; `None` for an operation no send waits
/// on, and then nothing is released.
pub fn settle_deferred(held: &mut DeferredSettlements, verdict: DeferredVerdict) -> (r: Option<
    (DeferredSend, MutationSettlementState, Option<RuntimeAdapterError>),
>)
    requires
        old(held).wf(),
    ensures
        final(held).wf(),
        final(held).held() == old(held).held().remove(verdict.operation_id@),
        match r {
            Some((d, state, error)) => old(held).held().contains_key(verdict.operation_id@) && d
                == old(held).held()[verdict.operation_id@] && state == spec_deferred_state(
                verdict.confirmed,
            ) && error == verdict.error,
            None => !old(held).held().contains_key(verdict.operation_id@),
        },
{
    match held.take(verdict.operation_id.as_str()) {
        Some(d) => {
            let state = if verdict.confirmed {
                MutationSettlementState::Confirmed
            } else {
                MutationSettlementState::Failed
            };
            Some((d, state, verdict.error))
        },
        None => None,
    }
}

/// The operation a report speaks of.
pub open spec fn spec_report_operation(report: OperationReport) -> Seq<char> {
    match report {
        OperationReport::Settled { operation_id, .. } => operation_id@,
        OperationReport::DispatchUncertain { operation_id, .. } => operation_id@,
    }
}

/// Whether a report says the flush applied.
pub open spec fn spec_report_applied(report: OperationReport) -> bool {
    report matches OperationReport::Settled { applied: true, .. }
}

/// A send held for operation `op` settles from the report of `op` (through
/// its verdict), on the link and mutation it was registered with, and is
/// released: `Confirmed` when the flush applied, `Failed` (announced to the
/// client as rejected, with the verdict's error) when it failed or its
/// dispatch is uncertain. A report of an operation no send waits on releases
/// nothing.
pub proof fn law_deferred_send_settles_from_its_report(
    held: Map<Seq<char>, DeferredSend>,
    send: DeferredSend,
    report: OperationReport,
    verdict: DeferredVerdict,
    notification: MutationNotification,
)
    requires
        verdict.operation_id@ == spec_report_operation(report),
        verdict.confirmed == spec_report_applied(report),
        !verdict.confirmed ==> verdict.error is Some,
        spec_notification_for(notification, spec_deferred_state(verdict.confirmed), verdict.error),
    ensures
        ({
            let op = send.operation_id@;
            let registered = held.insert(op, send);
            &&& spec_report_operation(report) == op ==> {
                &&& registered.contains_key(verdict.operation_id@)
                &&& registered[verdict.operation_id@] == send
                &&& !registered.remove(verdict.operation_id@).contains_key(op)
                &&& if spec_report_applied(report) {
                    notification matches MutationNotification::Confirmed
                } else {
                    notification matches MutationNotification::Rejected { error } && verdict.error
                        == Some(error)
                }
            }
            &&& spec_report_operation(report) != op && !held.contains_key(
                spec_report_operation(report),
            ) ==> !registered.contains_key(verdict.operation_id@)
        }),
{
}

pub const DISPATCH_CANCELLED_MESSAGE: &'static str =
    "runtime mutation dispatch was cancelled (client disconnect mid-dispatch)";

/// What the authority server answered for a forwarded mutation: the
/// receipt's output (JSON text) and, for a send whose verdict comes later,
/// the outbox operation it waits on.
#[derive(Debug)]
pub struct ForwardedReceipt {
    pub deferred_operation_id: Option<String>,
    pub output: String,
}

/// What becomes of a link's mutation once the authority server answered.
#[derive(Debug)]
pub enum DispatchStep {
    /// A send: the mutation stays accepted and the authority receipt is
    /// answered as it is; its settlement waits on the named operation.
    Hold { operation_id: Option<String> },
    /// The mutation settles.
    Settle { state: MutationSettlementState, error: Option<RuntimeAdapterError>, output: String },
}

/// The step after forwarding a mutation (`is_send`: it is a send): a send
/// is held for its flush; any other confirmed answer settles `Confirmed`
/// with the receipt's output; a refusal settles `Failed` with its error.
pub fn dispatch_step(is_send: bool, forwarded: Result<ForwardedReceipt, RuntimeError>) -> (r: DispatchStep)
    ensures
        match forwarded {
            Ok(receipt) => if is_send {
                r matches DispatchStep::Hold { operation_id } && operation_id == receipt.deferred_operation_id
            } else {
                r matches DispatchStep::Settle { state, error, output } && state
                    == MutationSettlementState::Confirmed && error is None && output == receipt.output
            },
            Err(e) => r matches DispatchStep::Settle { state, error, output } && state
                == MutationSettlementState::Failed && error == Some(e.0) && output@ == "null"@,
        },
{
    match forwarded {
        Ok(receipt) => {
            if is_send {
                DispatchStep::Hold { operation_id: receipt.deferred_operation_id }
            } else {
                DispatchStep::Settle {
                    state: MutationSettlementState::Confirmed,
                    error: None,
                    output: receipt.output,
                }
            }
        },
        Err(e) => DispatchStep::Settle {
            state: MutationSettlementState::Failed,
            error: Some(e.0),
            output: owned("null"),
        },
    }
}

/// The error a mutation settles `Failed` with when its dispatch is dropped
/// before the authority server answered.
pub fn cancelled_dispatch_error() -> (r: RuntimeAdapterError)
    ensures
        r.code == RuntimeErrorCode::Internal,
        r.terminality == Terminality::Permanent,
        r.message@ == DISPATCH_CANCELLED_MESSAGE@,
{
    deferred_send_error(owned(DISPATCH_CANCELLED_MESSAGE))
}

/// What the runtime's pending set does with an optimistic mutation once its
/// receipt is in.
#[derive(Clone, Copy, Debug, PartialEq, Eq, Structural)]
pub enum ReceiptDisposition {
    /// Keep it folded until the down-channel's base assertion absorbs it.
    HoldUntilAbsorbed,
    /// Drop it now.
    Drop,
}

/// A confirmed mutation is held until absorbed when the pending set retires
/// on the down channel (a remote authority); otherwise, and for any refused
/// mutation, it is dropped at once.
pub fn receipt_disposition(confirmed: bool, retire_on_down_channel: bool) -> (r: ReceiptDisposition)
    ensures
        (r == ReceiptDisposition::HoldUntilAbsorbed) == (confirmed && retire_on_down_channel),
{
    if confirmed && retire_on_down_channel {
        ReceiptDisposition::HoldUntilAbsorbed
    } else {
        ReceiptDisposition::Drop
    }
}

} // verus!
