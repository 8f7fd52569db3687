use posthaste::errors::{RuntimeAdapterError, RuntimeError, RuntimeErrorCode, Terminality};
use posthaste::links::{MailOperation, MutationNotification, MutationSettlementState, StoredMutation, TerminalClass};
use posthaste::mutations::{
    acceptance, accepted_record, cancelled_dispatch_error, deferred_verdict, dispatch_step,
    find_mutation, mutation_id_text, require_link_id, DispatchStep, ForwardedReceipt,
    receipt_disposition, ReceiptDisposition, DISPATCH_CANCELLED_MESSAGE,
    settle, settle_deferred, DeferredSend, DeferredSettlements, MutationAcceptance, OperationReport,
    CLIENT_ID_REUSED_MESSAGE, LINK_ID_REQUIRED_MESSAGE, LINK_NOT_FOUND_MESSAGE,
    MUTATION_NOT_FOUND_MESSAGE, SEND_FAILED_MESSAGE,
};

fn flag_operation(flagged: bool) -> MailOperation {
    MailOperation {
        name: "message.setFlaggedState".to_string(),
        arguments: format!("{{\"flagged\":{flagged},\"messageId\":\"m1\",\"sourceId\":\"acct\"}}"),
    }
}

fn accepted(n: u64, client: &str) -> StoredMutation {
    accepted_record(mutation_id_text(n), client.to_string(), flag_operation(true))
}

#[test]
fn mutation_ids_count_in_decimal() {
    assert_eq!(mutation_id_text(1), "mutation-1");
    assert_eq!(mutation_id_text(42), "mutation-42");
}

#[test]
fn a_request_must_name_its_link() {
    let link = "link-1".to_string();
    assert_eq!(require_link_id(Some(&link)).unwrap(), "link-1");
    let e = require_link_id(None).unwrap_err();
    assert_eq!(e.0.code, RuntimeErrorCode::InvalidMutation);
    assert_eq!(e.0.message, LINK_ID_REQUIRED_MESSAGE);
}

#[test]
fn a_new_mutation_is_accepted_under_the_minted_id() {
    match acceptance(true, None, &flag_operation(true), mutation_id_text(1)).unwrap() {
        MutationAcceptance::New { mutation_id } => assert_eq!(mutation_id, "mutation-1"),
        other => panic!("unexpected acceptance {other:?}"),
    }
}

#[test]
fn a_resent_mutation_gets_its_existing_receipt() {
    let previous = accepted(1, "op-1");
    match acceptance(true, Some(&previous), &flag_operation(true), mutation_id_text(2)).unwrap() {
        MutationAcceptance::Existing(receipt) => {
            assert_eq!(receipt.runtime_mutation_id.as_deref(), Some("mutation-1"));
            assert_eq!(receipt.client_mutation_id, "op-1");
            assert_eq!(receipt.name, "message.setFlaggedState");
            assert_eq!(receipt.state, MutationSettlementState::Accepted);
            assert_eq!(receipt.output, "null");
        }
        other => panic!("unexpected acceptance {other:?}"),
    }
}

#[test]
fn a_client_id_reused_for_another_operation_is_refused() {
    let previous = accepted(1, "op-1");
    let e = acceptance(true, Some(&previous), &flag_operation(false), mutation_id_text(2)).unwrap_err();
    assert_eq!(e.0.code, RuntimeErrorCode::InvalidMutation);
    assert_eq!(e.0.message, CLIENT_ID_REUSED_MESSAGE);
}

// A link closed between the dedup insert and the revalidation refuses the
// accept as not found.
#[test]
fn an_accept_on_a_link_closed_meanwhile_reports_not_found() {
    let e = acceptance(false, None, &flag_operation(true), mutation_id_text(1)).unwrap_err();
    assert_eq!(e.0.code, RuntimeErrorCode::NotFound);
    assert_eq!(e.0.message, LINK_NOT_FOUND_MESSAGE);
}

#[test]
fn settlement_addresses_the_runtime_mutation_id() {
    let records = vec![accepted(1, "op-1"), accepted(2, "op-2")];
    assert_eq!(find_mutation(&records, "mutation-2").unwrap().client_mutation_id, "op-2");
    let e = find_mutation(&records, "mutation-3").unwrap_err();
    assert_eq!(e.0.code, RuntimeErrorCode::NotFound);
    assert_eq!(e.0.message, MUTATION_NOT_FOUND_MESSAGE);
}

fn transient_error() -> RuntimeAdapterError {
    RuntimeAdapterError {
        code: RuntimeErrorCode::NetworkError,
        message: "offline".to_string(),
        terminality: Terminality::Transient,
        details: "{}".to_string(),
    }
}

#[test]
fn a_confirmed_settlement_is_kept_and_notified() {
    let s = settle(&accepted(1, "op-1"), MutationSettlementState::Confirmed, None, "{\"ok\":true}".to_string());
    assert_eq!(s.class, TerminalClass::Confirmed);
    assert_eq!(s.record.state, MutationSettlementState::Confirmed);
    assert_eq!(s.receipt.output, "{\"ok\":true}");
    assert_eq!(s.receipt.runtime_mutation_id.as_deref(), Some("mutation-1"));
    assert!(matches!(s.notification, Some(MutationNotification::Confirmed)));
}

#[test]
fn a_transient_failure_is_cleared_and_still_notified() {
    let s = settle(&accepted(1, "op-1"), MutationSettlementState::Failed, Some(transient_error()), "null".to_string());
    assert_eq!(s.class, TerminalClass::Failed);
    match s.notification {
        Some(MutationNotification::Rejected { error }) => assert_eq!(error.message, "offline"),
        other => panic!("unexpected notification {other:?}"),
    }
}

#[test]
fn an_accepted_settlement_is_not_notified() {
    let s = settle(&accepted(1, "op-1"), MutationSettlementState::Accepted, None, "null".to_string());
    assert_eq!(s.class, TerminalClass::Rejected);
    assert!(s.notification.is_none());
}

fn deferred(op: &str) -> DeferredSettlements {
    let mut held = DeferredSettlements::new();
    held.register(DeferredSend {
        operation_id: op.to_string(),
        link_id: "link-1".to_string(),
        mutation_id: "mutation-1".to_string(),
    });
    held
}

#[test]
fn deferred_send_applied_confirms_at_the_client() {
    let mut held = deferred("op-send-c");
    let verdict = deferred_verdict(OperationReport::Settled {
        operation_id: "op-send-c".to_string(),
        applied: true,
        error: None,
    });
    let (send, state, error) = settle_deferred(&mut held, verdict).expect("the held send settles");
    assert_eq!(send.link_id, "link-1");
    assert_eq!(send.mutation_id, "mutation-1");
    assert_eq!(state, MutationSettlementState::Confirmed);
    assert!(error.is_none());
    let s = settle(&accepted(1, "send-cmid"), state, error, "null".to_string());
    assert!(matches!(s.notification, Some(MutationNotification::Confirmed)));
}

#[test]
fn deferred_send_parked_reverts_at_the_client_no_false_sent() {
    let mut held = deferred("op-send-p");
    let verdict = deferred_verdict(OperationReport::DispatchUncertain {
        operation_id: "op-send-p".to_string(),
        reason: "send timed out; delivery uncertain".to_string(),
    });
    let (_, state, error) = settle_deferred(&mut held, verdict).expect("the held send settles");
    assert_eq!(state, MutationSettlementState::Failed);
    let s = settle(&accepted(1, "send-cmid"), state, error, "null".to_string());
    match s.notification {
        Some(MutationNotification::Rejected { error }) => {
            assert_eq!(error.code, RuntimeErrorCode::Internal);
            assert_eq!(error.message, "send timed out; delivery uncertain");
        }
        other => panic!("a parked send must revert, got {other:?}"),
    }
}

#[test]
fn a_failed_settlement_without_a_reason_says_send_failed() {
    let verdict = deferred_verdict(OperationReport::Settled {
        operation_id: "op".to_string(),
        applied: false,
        error: None,
    });
    assert!(!verdict.confirmed);
    assert_eq!(verdict.error.expect("an error").message, SEND_FAILED_MESSAGE);
    let verdict = deferred_verdict(OperationReport::Settled {
        operation_id: "op".to_string(),
        applied: false,
        error: Some("send permanently failed".to_string()),
    });
    assert_eq!(verdict.error.expect("an error").message, "send permanently failed");
}

#[test]
fn a_non_deferred_settlement_is_ignored() {
    let mut held = deferred("op-send");
    let verdict = deferred_verdict(OperationReport::Settled {
        operation_id: "op-unknown".to_string(),
        applied: true,
        error: None,
    });
    assert!(settle_deferred(&mut held, verdict).is_none());
    // The held send is still waiting.
    let verdict = deferred_verdict(OperationReport::Settled {
        operation_id: "op-send".to_string(),
        applied: true,
        error: None,
    });
    assert!(settle_deferred(&mut held, verdict).is_some());
}

#[test]
fn a_confirmed_forward_settles_with_the_receipt_output() {
    let receipt = ForwardedReceipt { deferred_operation_id: None, output: "[{\"seq\":3}]".to_string() };
    match dispatch_step(false, Ok(receipt)) {
        DispatchStep::Settle { state, error, output } => {
            assert_eq!(state, MutationSettlementState::Confirmed);
            assert!(error.is_none());
            assert_eq!(output, "[{\"seq\":3}]");
        }
        other => panic!("unexpected step {other:?}"),
    }
}

#[test]
fn a_send_is_held_for_its_flush() {
    let receipt = ForwardedReceipt { deferred_operation_id: Some("op-7".to_string()), output: "{}".to_string() };
    match dispatch_step(true, Ok(receipt)) {
        DispatchStep::Hold { operation_id } => assert_eq!(operation_id.as_deref(), Some("op-7")),
        other => panic!("unexpected step {other:?}"),
    }
}

#[test]
fn a_refused_forward_settles_failed_with_its_error() {
    let refusal = RuntimeError::new(RuntimeErrorCode::Conflict, "state mismatch".to_string());
    match dispatch_step(true, Err(refusal)) {
        DispatchStep::Settle { state, error, output } => {
            assert_eq!(state, MutationSettlementState::Failed);
            assert_eq!(error.expect("the refusal").message, "state mismatch");
            assert_eq!(output, "null");
        }
        other => panic!("unexpected step {other:?}"),
    }
}

#[test]
fn a_dropped_dispatch_settles_failed_not_accepted() {
    let error = cancelled_dispatch_error();
    assert_eq!(error.message, DISPATCH_CANCELLED_MESSAGE);
    let s = settle(&accepted(1, "op-1"), MutationSettlementState::Failed, Some(error), "null".to_string());
    assert_eq!(s.record.state, MutationSettlementState::Failed);
    assert_eq!(s.class, TerminalClass::Rejected);
}

#[test]
fn only_a_remote_confirmation_is_held_until_absorbed() {
    assert_eq!(receipt_disposition(true, true), ReceiptDisposition::HoldUntilAbsorbed);
    assert_eq!(receipt_disposition(true, false), ReceiptDisposition::Drop);
    assert_eq!(receipt_disposition(false, true), ReceiptDisposition::Drop);
    assert_eq!(receipt_disposition(false, false), ReceiptDisposition::Drop);
}
