use std::collections::HashMap;

use posthaste::domain::{CommandAck, Operation};
use posthaste::errors::{RuntimeAdapterError, RuntimeError, RuntimeErrorCode, Terminality};
use posthaste::ledger::{
    AppliedOutcome, ApplyLedger, ApplyScope, DecodedPayload, DurableAnswer, DurableApplyState,
    DurableWrite, ReserveStep, Reserved, RuntimeCaller, DRAFT_SAVE_OP, SEND_OP_NAME,
};

/// A durable store that outlives any ledger built over it: dropping the
/// ledger and building a fresh one simulates a restart.
#[derive(Default)]
struct MemoryDurable {
    rows: HashMap<(String, String), (String, DurableApplyState, Option<Stored>)>,
    fail: bool,
}

#[derive(Debug)]
enum Stored {
    Outcome(AppliedOutcome),
    Rejection(RuntimeAdapterError),
}

fn copy_stored(s: &Stored) -> Stored {
    match s {
        Stored::Outcome(o) => Stored::Outcome(o.duplicate()),
        Stored::Rejection(e) => Stored::Rejection(e.duplicate()),
    }
}

impl MemoryDurable {
    fn reserve(&mut self, scope: &str, key: &str, op: &str) -> DurableAnswer {
        if self.fail {
            return DurableAnswer::Unavailable;
        }
        let k = (scope.to_string(), key.to_string());
        if let Some((op_name, state, payload)) = self.rows.get(&k) {
            let payload = match (state, payload) {
                (DurableApplyState::Confirmed, Some(Stored::Outcome(o))) => {
                    DecodedPayload::Outcome(o.duplicate())
                }
                (DurableApplyState::Rejected, Some(Stored::Rejection(e))) => {
                    DecodedPayload::Rejection(e.duplicate())
                }
                _ => DecodedPayload::Unreadable,
            };
            return DurableAnswer::Existing { op_name: op_name.clone(), state: *state, payload };
        }
        self.rows.insert(k, (op.to_string(), DurableApplyState::Pending, None));
        DurableAnswer::Reserved
    }

    fn write(&mut self, scope: &str, key: &str, w: DurableWrite) -> Result<(), RuntimeError> {
        if self.fail {
            return Err(RuntimeError::retryable(
                RuntimeErrorCode::StorageFailure,
                "durable store unavailable".to_string(),
            ));
        }
        let k = (scope.to_string(), key.to_string());
        match w {
            DurableWrite::Nothing => {}
            DurableWrite::Clear => {
                self.rows.remove(&k);
            }
            DurableWrite::Confirm(o) => {
                if let Some(row) = self.rows.get_mut(&k) {
                    row.1 = DurableApplyState::Confirmed;
                    row.2 = Some(Stored::Outcome(o));
                }
            }
            DurableWrite::Reject(e) => {
                if let Some(row) = self.rows.get_mut(&k) {
                    row.1 = DurableApplyState::Rejected;
                    row.2 = Some(Stored::Rejection(e));
                }
            }
        }
        let _ = copy_stored;
        Ok(())
    }
}

const NOW: u64 = 1_000;

fn reserve(
    ledger: &mut ApplyLedger,
    durable: Option<&mut MemoryDurable>,
    c: &RuntimeCaller,
    k: &str,
    op: &str,
) -> Reserved {
    match ledger.reserve(c, k, op, NOW) {
        ReserveStep::Decided(r) => r,
        ReserveStep::ConsultDurable => {
            let store = durable.expect("a durable ledger consults its store");
            let scope = ApplyScope::of(c);
            let answer = store.reserve(scope.as_str(), k, op);
            ledger.resolve_durable(c, k, op, answer, NOW)
        }
    }
}

fn settle(
    ledger: &mut ApplyLedger,
    durable: Option<&mut MemoryDurable>,
    c: &RuntimeCaller,
    k: &str,
    result: Result<AppliedOutcome, &RuntimeError>,
) {
    let w = ledger.settle_write(&result);
    let written = match durable {
        Some(store) => {
            let scope = ApplyScope::of(c);
            store.write(scope.as_str(), k, w)
        }
        None => Ok(()),
    };
    ledger.settle(c, k, result, NOW, written);
}

fn caller() -> RuntimeCaller {
    RuntimeCaller::api()
}

fn ack_outcome() -> AppliedOutcome {
    AppliedOutcome::Ack(CommandAck { events: vec![] })
}

fn draft_outcome(id: &str) -> AppliedOutcome {
    AppliedOutcome::Draft(Operation {
        id: id.to_string(),
        account_id: "acct".to_string(),
        entity_kind: "draft".to_string(),
        entity_id: "draft-1".to_string(),
        kind: "draftCreate".to_string(),
        state: "pending".to_string(),
        attempts: 0,
        created_at: "1970-01-01T00:00:00Z".to_string(),
        updated_at: "1970-01-01T00:00:00Z".to_string(),
    })
}

fn destroy() -> &'static str {
    "message.destroy"
}

fn send() -> &'static str {
    SEND_OP_NAME
}

fn rejection(code: RuntimeErrorCode, msg: &str) -> RuntimeError {
    RuntimeError::new(code, msg.to_string())
}

fn transient(code: RuntimeErrorCode, msg: &str) -> RuntimeError {
    RuntimeError::retryable(code, msg.to_string())
}

#[test]
fn confirmed_is_re_observed_on_redelivery() {
    let mut ledger = ApplyLedger::new();
    let c = caller();
    assert!(matches!(reserve(&mut ledger, None, &c, "op-1", destroy()), Reserved::Execute));
    settle(&mut ledger, None, &c, "op-1", Ok(ack_outcome()));
    match reserve(&mut ledger, None, &c, "op-1", destroy()) {
        Reserved::Return(Ok(_)) => {}
        _ => panic!("a redelivery must re-observe the stored Confirmed, not execute"),
    }
}

#[test]
fn draft_outcome_replays_the_same_operation_id() {
    let mut ledger = ApplyLedger::new();
    let c = caller();
    assert!(matches!(reserve(&mut ledger, None, &c, "save-1", "draft.save"), Reserved::Execute));
    settle(&mut ledger, None, &c, "save-1", Ok(draft_outcome("op-abc")));
    match reserve(&mut ledger, None, &c, "save-1", "draft.save") {
        Reserved::Return(result) => {
            let operation = result.unwrap().into_draft().expect("a draft outcome");
            assert_eq!(operation.id, "op-abc");
        }
        Reserved::Execute => panic!("a replayed save must re-observe the stored operation"),
    }
}

#[test]
fn outcome_variant_mismatch_is_a_conflict_not_a_panic() {
    assert_eq!(
        draft_outcome("op-abc").into_ack().unwrap_err().envelope().code,
        RuntimeErrorCode::Conflict
    );
    assert_eq!(ack_outcome().into_draft().unwrap_err().envelope().code, RuntimeErrorCode::Conflict);
}

#[test]
fn rejected_is_re_observed_on_redelivery() {
    let mut ledger = ApplyLedger::new();
    let c = caller();
    reserve(&mut ledger, None, &c, "op-1", destroy());
    let err = rejection(RuntimeErrorCode::InvalidMutation, "no");
    settle(&mut ledger, None, &c, "op-1", Err(&err));
    match reserve(&mut ledger, None, &c, "op-1", destroy()) {
        Reserved::Return(Err(error)) => {
            assert_eq!(error.envelope().code, RuntimeErrorCode::InvalidMutation)
        }
        _ => panic!("a rejected redelivery must re-observe the rejection"),
    }
}

#[test]
fn transient_failure_clears_and_re_executes() {
    let mut ledger = ApplyLedger::new();
    let c = caller();
    reserve(&mut ledger, None, &c, "op-1", destroy());
    let err = transient(RuntimeErrorCode::TransportDisconnected, "down");
    settle(&mut ledger, None, &c, "op-1", Err(&err));
    assert!(matches!(reserve(&mut ledger, None, &c, "op-1", destroy()), Reserved::Execute));
}

#[test]
fn keyed_send_redelivery_returns_first_outcome_no_second_execute() {
    let mut ledger = ApplyLedger::new();
    let c = caller();
    assert!(
        matches!(reserve(&mut ledger, None, &c, "send-1", send()), Reserved::Execute),
        "first sight of the send key must execute"
    );
    settle(&mut ledger, None, &c, "send-1", Ok(ack_outcome()));
    match reserve(&mut ledger, None, &c, "send-1", send()) {
        Reserved::Return(result) => {
            result.expect("a redelivered send re-observes the Confirmed outcome");
        }
        Reserved::Execute => {
            panic!("a redelivered send must re-observe the first outcome, not re-send")
        }
    }
}

#[test]
fn concurrent_duplicate_send_reserves_exactly_one_execute() {
    let mut ledger = ApplyLedger::new();
    let c = caller();
    let first = reserve(&mut ledger, None, &c, "send-race", send());
    let second = reserve(&mut ledger, None, &c, "send-race", send());
    assert!(matches!(first, Reserved::Execute), "exactly one of the racing sends executes");
    match second {
        Reserved::Return(Err(error)) => {
            assert_eq!(error.envelope().code, RuntimeErrorCode::Conflict);
            assert!(
                error.envelope().terminality != Terminality::Permanent,
                "an in-flight duplicate is retryable, not a permanent verdict"
            );
        }
        _ => panic!("the concurrent duplicate must not also execute (double-send)"),
    }
}

#[test]
fn keyed_send_replay_returns_the_same_operation_id() {
    let mut ledger = ApplyLedger::new();
    let c = caller();
    assert!(matches!(reserve(&mut ledger, None, &c, "send-sched", send()), Reserved::Execute));
    settle(&mut ledger, None, &c, "send-sched", Ok(draft_outcome("op-send-1")));
    match reserve(&mut ledger, None, &c, "send-sched", send()) {
        Reserved::Return(result) => {
            let operation = result.unwrap().into_draft().expect("operation outcome");
            assert_eq!(operation.id, "op-send-1");
        }
        Reserved::Execute => panic!("a replayed send must re-observe the stored operation"),
    }
}

#[test]
fn canceled_scheduled_send_key_stays_terminally_settled() {
    let mut durable = MemoryDurable::default();
    let c = caller();
    {
        let mut ledger = ApplyLedger::with_durable();
        reserve(&mut ledger, Some(&mut durable), &c, "send-undone", send());
        settle(&mut ledger, Some(&mut durable), &c, "send-undone", Ok(draft_outcome("op-undone")));
    }
    let mut reborn = ApplyLedger::with_durable();
    match reserve(&mut reborn, Some(&mut durable), &c, "send-undone", send()) {
        Reserved::Return(result) => {
            let operation = result.unwrap().into_draft().expect("operation outcome");
            assert_eq!(operation.id, "op-undone");
        }
        Reserved::Execute => panic!("a canceled send's key must never re-execute (no resurrection)"),
    }
}

#[test]
fn distinct_send_keys_each_execute() {
    let mut ledger = ApplyLedger::new();
    let c = caller();
    assert!(matches!(reserve(&mut ledger, None, &c, "send-a", send()), Reserved::Execute));
    settle(&mut ledger, None, &c, "send-a", Ok(ack_outcome()));
    assert!(
        matches!(reserve(&mut ledger, None, &c, "send-b", send()), Reserved::Execute),
        "a different key is a different send and must execute"
    );
}

#[test]
fn send_key_reused_for_a_message_command_is_rejected() {
    let mut ledger = ApplyLedger::new();
    let c = caller();
    reserve(&mut ledger, None, &c, "shared-key", send());
    settle(&mut ledger, None, &c, "shared-key", Ok(ack_outcome()));
    match reserve(&mut ledger, None, &c, "shared-key", destroy()) {
        Reserved::Return(Err(error)) => assert_eq!(error.envelope().code, RuntimeErrorCode::Conflict),
        _ => panic!("a send key reused with a message-command op must be rejected"),
    }
}

#[test]
fn send_key_reused_for_a_draft_op_is_rejected() {
    let mut ledger = ApplyLedger::new();
    let c = caller();
    reserve(&mut ledger, None, &c, "shared-key", send());
    settle(&mut ledger, None, &c, "shared-key", Ok(ack_outcome()));
    match reserve(&mut ledger, None, &c, "shared-key", DRAFT_SAVE_OP) {
        Reserved::Return(Err(error)) => assert_eq!(error.envelope().code, RuntimeErrorCode::Conflict),
        _ => panic!("a send key reused with a draft op must be rejected"),
    }
}

#[test]
fn same_key_different_op_is_rejected() {
    let mut ledger = ApplyLedger::new();
    let c = caller();
    reserve(&mut ledger, None, &c, "op-1", "message.setKeywords");
    settle(&mut ledger, None, &c, "op-1", Ok(ack_outcome()));
    match reserve(&mut ledger, None, &c, "op-1", "message.destroy") {
        Reserved::Return(Err(error)) => assert_eq!(error.envelope().code, RuntimeErrorCode::Conflict),
        _ => panic!("a same-key-different-op reuse must be rejected"),
    }
}

#[test]
fn restart_redelivery_re_observes_the_durable_decision_never_re_executes() {
    let mut durable = MemoryDurable::default();
    let c = caller();
    {
        let mut ledger = ApplyLedger::with_durable();
        assert!(matches!(
            reserve(&mut ledger, Some(&mut durable), &c, "send-1", send()),
            Reserved::Execute
        ));
        settle(&mut ledger, Some(&mut durable), &c, "send-1", Ok(ack_outcome()));
    }
    let mut reborn = ApplyLedger::with_durable();
    match reserve(&mut reborn, Some(&mut durable), &c, "send-1", send()) {
        Reserved::Return(result) => {
            result
                .expect("the durable Confirmed decision is re-observed")
                .into_ack()
                .expect("a send stores an Ack-shaped outcome");
        }
        Reserved::Execute => panic!("a post-restart redelivery must NOT re-execute (double-send)"),
    }
}

#[test]
fn restart_redelivery_replays_the_same_draft_operation_id() {
    let mut durable = MemoryDurable::default();
    let c = caller();
    {
        let mut ledger = ApplyLedger::with_durable();
        reserve(&mut ledger, Some(&mut durable), &c, "save-1", DRAFT_SAVE_OP);
        settle(&mut ledger, Some(&mut durable), &c, "save-1", Ok(draft_outcome("op-abc")));
    }
    let mut reborn = ApplyLedger::with_durable();
    match reserve(&mut reborn, Some(&mut durable), &c, "save-1", DRAFT_SAVE_OP) {
        Reserved::Return(result) => {
            let operation = result.unwrap().into_draft().expect("a draft outcome");
            assert_eq!(operation.id, "op-abc");
        }
        Reserved::Execute => panic!("a post-restart replayed save must not enqueue again"),
    }
}

#[test]
fn never_seen_key_still_executes_with_durable_store() {
    let mut durable = MemoryDurable::default();
    let mut ledger = ApplyLedger::with_durable();
    assert!(matches!(
        reserve(&mut ledger, Some(&mut durable), &caller(), "fresh", send()),
        Reserved::Execute
    ));
}

#[test]
fn restart_redelivery_re_observes_a_durable_rejection() {
    let mut durable = MemoryDurable::default();
    let c = caller();
    {
        let mut ledger = ApplyLedger::with_durable();
        reserve(&mut ledger, Some(&mut durable), &c, "op-1", destroy());
        let err = rejection(RuntimeErrorCode::InvalidMutation, "no");
        settle(&mut ledger, Some(&mut durable), &c, "op-1", Err(&err));
    }
    let mut reborn = ApplyLedger::with_durable();
    match reserve(&mut reborn, Some(&mut durable), &c, "op-1", destroy()) {
        Reserved::Return(Err(error)) => {
            assert_eq!(error.envelope().code, RuntimeErrorCode::InvalidMutation)
        }
        _ => panic!("a durable rejection must be re-observed after restart"),
    }
}

#[test]
fn transient_failure_clears_durably_so_a_post_restart_retry_re_executes() {
    let mut durable = MemoryDurable::default();
    let c = caller();
    {
        let mut ledger = ApplyLedger::with_durable();
        reserve(&mut ledger, Some(&mut durable), &c, "op-1", destroy());
        let err = transient(RuntimeErrorCode::TransportDisconnected, "down");
        settle(&mut ledger, Some(&mut durable), &c, "op-1", Err(&err));
    }
    let mut reborn = ApplyLedger::with_durable();
    assert!(matches!(
        reserve(&mut reborn, Some(&mut durable), &c, "op-1", destroy()),
        Reserved::Execute
    ));
}

#[test]
fn crash_between_apply_and_record_refuses_redelivery_never_double_applies() {
    let mut durable = MemoryDurable::default();
    let c = caller();
    {
        let mut ledger = ApplyLedger::with_durable();
        assert!(matches!(
            reserve(&mut ledger, Some(&mut durable), &c, "send-1", send()),
            Reserved::Execute
        ));
        // The apply runs here... and the process crashes before `settle`.
    }
    let mut reborn = ApplyLedger::with_durable();
    match reserve(&mut reborn, Some(&mut durable), &c, "send-1", send()) {
        Reserved::Return(Err(error)) => {
            assert_eq!(error.envelope().code, RuntimeErrorCode::Conflict);
            assert_eq!(
                error.envelope().terminality,
                Terminality::Permanent,
                "outcome-unknown is permanent: same-key retries cannot resolve it"
            );
        }
        Reserved::Execute => panic!("an unresolved pending must never re-execute"),
        Reserved::Return(Ok(_)) => panic!("no outcome was recorded; none can be returned"),
    }
}

#[test]
fn durable_op_name_guard_survives_restart() {
    let mut durable = MemoryDurable::default();
    let c = caller();
    {
        let mut ledger = ApplyLedger::with_durable();
        reserve(&mut ledger, Some(&mut durable), &c, "shared-key", send());
        settle(&mut ledger, Some(&mut durable), &c, "shared-key", Ok(ack_outcome()));
    }
    let mut reborn = ApplyLedger::with_durable();
    match reserve(&mut reborn, Some(&mut durable), &c, "shared-key", destroy()) {
        Reserved::Return(Err(error)) => assert_eq!(error.envelope().code, RuntimeErrorCode::Conflict),
        _ => panic!("a cross-op key reuse must be rejected after restart too"),
    }
}

#[test]
fn unavailable_durable_store_fails_closed_and_recovers() {
    let mut durable = MemoryDurable::default();
    let mut ledger = ApplyLedger::with_durable();
    let c = caller();
    durable.fail = true;
    match reserve(&mut ledger, Some(&mut durable), &c, "send-1", send()) {
        Reserved::Return(Err(error)) => {
            assert!(
                error.envelope().terminality != Terminality::Permanent,
                "a durable outage is retryable, not a verdict"
            );
        }
        _ => panic!("with the durable ledger down, the send must not execute"),
    }
    durable.fail = false;
    assert!(
        matches!(reserve(&mut ledger, Some(&mut durable), &c, "send-1", send()), Reserved::Execute),
        "once the store recovers, the key executes normally"
    );
}

#[test]
fn durable_hit_repopulates_the_in_memory_cache() {
    let mut durable = MemoryDurable::default();
    let c = caller();
    {
        let mut ledger = ApplyLedger::with_durable();
        reserve(&mut ledger, Some(&mut durable), &c, "send-1", send());
        settle(&mut ledger, Some(&mut durable), &c, "send-1", Ok(ack_outcome()));
    }
    let mut reborn = ApplyLedger::with_durable();
    assert!(matches!(
        reserve(&mut reborn, Some(&mut durable), &c, "send-1", send()),
        Reserved::Return(Ok(_))
    ));
    durable.fail = true;
    assert!(
        matches!(reserve(&mut reborn, Some(&mut durable), &c, "send-1", send()), Reserved::Return(Ok(_))),
        "the repopulated cache serves the redelivery even with the store down"
    );
}

#[test]
fn terminal_records_are_reaped_after_the_ttl() {
    let mut ledger = ApplyLedger::new();
    let c = caller();
    assert!(matches!(ledger.reserve(&c, "k", "message.destroy", 10), ReserveStep::Decided(Reserved::Execute)));
    ledger.settle(&c, "k", Ok(ack_outcome()), 10, Ok(()));
    assert!(matches!(
        ledger.reserve(&c, "k", "message.destroy", 10 + 900),
        ReserveStep::Decided(Reserved::Return(Ok(_)))
    ));
    assert!(matches!(
        ledger.reserve(&c, "k", "message.destroy", 10 + 901),
        ReserveStep::Decided(Reserved::Execute)
    ));
}

#[test]
fn scope_keys_per_link_or_per_source() {
    let api = RuntimeCaller::api();
    assert_eq!(ApplyScope::of(&api).as_str(), "src:Api");
    let linked = RuntimeCaller { link_id: Some("l-7".to_string()), operation_source: "Api".to_string() };
    assert_eq!(ApplyScope::of(&linked).as_str(), "link:l-7");
}

#[test]
fn a_failed_durable_settle_is_only_reported_and_the_record_stays_pending() {
    let mut durable = MemoryDurable::default();
    let c = caller();
    {
        let mut ledger = ApplyLedger::with_durable();
        assert!(matches!(
            reserve(&mut ledger, Some(&mut durable), &c, "send-2", send()),
            Reserved::Execute
        ));
        assert!(matches!(ledger.settle_write(&Ok(ack_outcome())), DurableWrite::Confirm(_)));
        durable.fail = true;
        settle(&mut ledger, Some(&mut durable), &c, "send-2", Ok(ack_outcome()));
        // In process, the redelivery still replays the settled outcome.
        assert!(matches!(
            reserve(&mut ledger, Some(&mut durable), &c, "send-2", send()),
            Reserved::Return(Ok(_))
        ));
    }
    durable.fail = false;
    let mut reborn = ApplyLedger::with_durable();
    match reserve(&mut reborn, Some(&mut durable), &c, "send-2", send()) {
        Reserved::Return(Err(error)) => assert_eq!(error.envelope().code, RuntimeErrorCode::Conflict),
        _ => panic!("a record left pending must be refused after a restart, never re-executed"),
    }
}

#[test]
fn the_durable_write_follows_the_result_kind() {
    let plain = ApplyLedger::new();
    assert!(matches!(plain.settle_write(&Ok(ack_outcome())), DurableWrite::Nothing));
    let ledger = ApplyLedger::with_durable();
    let permanent = rejection(RuntimeErrorCode::InvalidMutation, "no");
    let retryable = transient(RuntimeErrorCode::StorageFailure, "later");
    assert!(matches!(ledger.settle_write(&Err(&permanent)), DurableWrite::Reject(e) if e.code == RuntimeErrorCode::InvalidMutation));
    assert!(matches!(ledger.settle_write(&Err(&retryable)), DurableWrite::Clear));
}
