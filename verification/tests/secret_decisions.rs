use std::cell::RefCell;

use posthaste::account::{
    AccountDriver, AccountSettings, AccountTransportSettings, ProviderAuthKind, ProviderHint,
    SecretKind, SecretRef,
};
use posthaste::errors::{ApiError, ApiErrorCode, BAD_REQUEST};
use posthaste::requests::{SecretWriteMode, SecretWriteRequest};
use posthaste::secrets::{
    account_secret_ref, apply_secret_instruction, decide_secret_instruction,
    AccountSecretRefUpdate, SecretInstructionDecision, SecretStore, SecretStoreError,
    SecretStoreInstruction,
};

fn secret_request(mode: SecretWriteMode, password: Option<&str>) -> SecretWriteRequest {
    SecretWriteRequest { mode, password: password.map(|p| p.to_string()) }
}

fn secret_ref(kind: SecretKind, key: &str) -> SecretRef {
    SecretRef { kind, key: key.to_string() }
}

fn expect_decision(
    result: Result<SecretInstructionDecision, ApiError>,
    context: &str,
) -> SecretInstructionDecision {
    match result {
        Ok(decision) => decision,
        Err(error) => panic!("{context}: {:?} {}", error.body.code, error.body.message),
    }
}

#[derive(Debug, PartialEq, Eq)]
enum SecretStoreCall {
    Save(SecretRef, String),
    Update(SecretRef, String),
    Delete(SecretRef),
}

#[derive(Default)]
struct RecordingSecretStore {
    calls: RefCell<Vec<SecretStoreCall>>,
}

fn copy_ref(r: &SecretRef) -> SecretRef {
    SecretRef { kind: r.kind, key: r.key.clone() }
}

impl SecretStore for RecordingSecretStore {
    fn resolve(&self, _secret_ref: &SecretRef) -> Result<String, SecretStoreError> {
        Err(SecretStoreError::Unavailable("not stored".to_string()))
    }

    fn save(&self, secret_ref: &SecretRef, value: &str) -> Result<(), SecretStoreError> {
        self.calls.borrow_mut().push(SecretStoreCall::Save(copy_ref(secret_ref), value.to_string()));
        Ok(())
    }

    fn update(&self, secret_ref: &SecretRef, value: &str) -> Result<(), SecretStoreError> {
        self.calls
            .borrow_mut()
            .push(SecretStoreCall::Update(copy_ref(secret_ref), value.to_string()));
        Ok(())
    }

    fn delete(&self, secret_ref: &SecretRef) -> Result<(), SecretStoreError> {
        self.calls.borrow_mut().push(SecretStoreCall::Delete(copy_ref(secret_ref)));
        Ok(())
    }
}

fn test_account(secret: Option<SecretRef>) -> AccountSettings {
    AccountSettings {
        id: "primary".to_string(),
        name: "Primary".to_string(),
        full_name: None,
        email_patterns: Vec::new(),
        driver: AccountDriver::Jmap,
        enabled: true,
        appearance: None,
        transport: AccountTransportSettings {
            provider: ProviderHint("generic".to_string()),
            auth: ProviderAuthKind("password".to_string()),
            base_url: Some("https://mail.example.test/jmap".to_string()),
            username: Some("user@example.test".to_string()),
            imap: None,
            smtp: None,
            secret_ref: secret,
        },
        created_at: "2026-01-01T00:00:00Z".to_string(),
        updated_at: "2026-01-01T00:00:00Z".to_string(),
    }
}

#[test]
fn secret_keep_preserves_existing_refs_without_store_instruction() {
    let account_id = "primary";
    let request = secret_request(SecretWriteMode::Keep, None);
    let os_ref = secret_ref(SecretKind::Os, "account:primary");
    let env_ref = secret_ref(SecretKind::Env, "POSTHASTE_PASSWORD");

    assert_eq!(
        expect_decision(
            decide_secret_instruction(account_id, None, &request),
            "keep should be valid"
        ),
        SecretInstructionDecision {
            account_secret_ref: AccountSecretRefUpdate::Preserve,
            store_instruction: SecretStoreInstruction::Nothing,
        }
    );
    assert_eq!(
        expect_decision(
            decide_secret_instruction(account_id, Some(&os_ref), &request),
            "keep should be valid"
        ),
        SecretInstructionDecision {
            account_secret_ref: AccountSecretRefUpdate::Assign(Some(copy_ref(&os_ref))),
            store_instruction: SecretStoreInstruction::Nothing,
        }
    );
    assert_eq!(
        expect_decision(
            decide_secret_instruction(account_id, Some(&env_ref), &request),
            "keep should be valid"
        ),
        SecretInstructionDecision {
            account_secret_ref: AccountSecretRefUpdate::Assign(Some(env_ref)),
            store_instruction: SecretStoreInstruction::Nothing,
        }
    );
}

#[test]
fn secret_replace_updates_os_ref_or_saves_new_managed_ref() {
    let account_id = "primary";
    let request = secret_request(SecretWriteMode::Replace, Some("  replacement  "));
    let default_ref = account_secret_ref(account_id);
    let os_ref = secret_ref(SecretKind::Os, "account:custom");
    let env_ref = secret_ref(SecretKind::Env, "POSTHASTE_PASSWORD");

    assert_eq!(
        expect_decision(
            decide_secret_instruction(account_id, None, &request),
            "replace should be valid"
        ),
        SecretInstructionDecision {
            account_secret_ref: AccountSecretRefUpdate::Assign(Some(copy_ref(&default_ref))),
            store_instruction: SecretStoreInstruction::Save {
                secret_ref: copy_ref(&default_ref),
                password: "replacement".to_string(),
            },
        }
    );
    assert_eq!(
        expect_decision(
            decide_secret_instruction(account_id, Some(&os_ref), &request),
            "replace should be valid"
        ),
        SecretInstructionDecision {
            account_secret_ref: AccountSecretRefUpdate::Assign(Some(copy_ref(&os_ref))),
            store_instruction: SecretStoreInstruction::Update {
                secret_ref: os_ref,
                password: "replacement".to_string(),
            },
        }
    );
    assert_eq!(
        expect_decision(
            decide_secret_instruction(account_id, Some(&env_ref), &request),
            "replace should be valid"
        ),
        SecretInstructionDecision {
            account_secret_ref: AccountSecretRefUpdate::Assign(Some(copy_ref(&default_ref))),
            store_instruction: SecretStoreInstruction::Save {
                secret_ref: default_ref,
                password: "replacement".to_string(),
            },
        }
    );
}

#[test]
fn secret_clear_clears_account_ref_and_deletes_only_os_refs() {
    let account_id = "primary";
    let request = secret_request(SecretWriteMode::Clear, None);
    let os_ref = secret_ref(SecretKind::Os, "account:primary");
    let env_ref = secret_ref(SecretKind::Env, "POSTHASTE_PASSWORD");

    assert_eq!(
        expect_decision(
            decide_secret_instruction(account_id, None, &request),
            "clear should be valid"
        ),
        SecretInstructionDecision {
            account_secret_ref: AccountSecretRefUpdate::Assign(None),
            store_instruction: SecretStoreInstruction::Nothing,
        }
    );
    assert_eq!(
        expect_decision(
            decide_secret_instruction(account_id, Some(&env_ref), &request),
            "clear should be valid"
        ),
        SecretInstructionDecision {
            account_secret_ref: AccountSecretRefUpdate::Assign(None),
            store_instruction: SecretStoreInstruction::Nothing,
        }
    );
    assert_eq!(
        expect_decision(
            decide_secret_instruction(account_id, Some(&os_ref), &request),
            "clear should be valid"
        ),
        SecretInstructionDecision {
            account_secret_ref: AccountSecretRefUpdate::Assign(None),
            store_instruction: SecretStoreInstruction::Delete { secret_ref: os_ref },
        }
    );
}

#[test]
fn secret_replace_rejects_missing_or_blank_passwords() {
    for password in [None, Some(""), Some("   ")] {
        let request = secret_request(SecretWriteMode::Replace, password);
        let error = match decide_secret_instruction("primary", None, &request) {
            Ok(_) => panic!("replace without a nonblank password should fail"),
            Err(error) => error,
        };

        assert_eq!(error.status, BAD_REQUEST);
        assert_eq!(error.body.code, ApiErrorCode::InvalidSecret);
        assert_eq!(
            error.body.message,
            "secret.password is required when secret.mode is replace"
        );
    }
}

#[test]
fn apply_secret_instruction_replaces_env_ref_with_managed_os_ref() {
    let store = RecordingSecretStore::default();
    let mut account = test_account(Some(secret_ref(SecretKind::Env, "POSTHASTE_PASSWORD")));
    let previous_ref = account.transport.secret_ref.as_ref().map(copy_ref);
    let request = secret_request(SecretWriteMode::Replace, Some("  replacement  "));
    let expected_ref = account_secret_ref(&account.id);

    if let Err(error) = apply_secret_instruction(&store, &mut account, previous_ref.as_ref(), &request)
    {
        panic!(
            "replace should save the managed secret, got {:?}: {}",
            error.body.code, error.body.message
        );
    }

    assert_eq!(account.transport.secret_ref, Some(copy_ref(&expected_ref)));
    assert_eq!(
        *store.calls.borrow(),
        vec![SecretStoreCall::Save(expected_ref, "replacement".to_string())]
    );
}

#[test]
fn apply_secret_instruction_clear_deletes_the_os_secret_and_unsets_the_ref() {
    let store = RecordingSecretStore::default();
    let os_ref = secret_ref(SecretKind::Os, "account:primary");
    let mut account = test_account(Some(copy_ref(&os_ref)));
    let previous_ref = Some(copy_ref(&os_ref));
    let request = secret_request(SecretWriteMode::Clear, None);

    assert!(apply_secret_instruction(&store, &mut account, previous_ref.as_ref(), &request).is_ok());
    assert_eq!(account.transport.secret_ref, None);
    assert_eq!(*store.calls.borrow(), vec![SecretStoreCall::Delete(os_ref)]);
}

#[test]
fn apply_secret_instruction_rejects_blank_replace_without_touching_the_account() {
    let store = RecordingSecretStore::default();
    let env_ref = secret_ref(SecretKind::Env, "POSTHASTE_PASSWORD");
    let mut account = test_account(Some(copy_ref(&env_ref)));
    let request = secret_request(SecretWriteMode::Replace, Some("  "));

    let error = apply_secret_instruction(&store, &mut account, Some(&env_ref), &request)
        .expect_err("blank replace must fail");
    assert_eq!(error.body.code, ApiErrorCode::InvalidSecret);
    assert_eq!(account.transport.secret_ref, Some(env_ref));
    assert!(store.calls.borrow().is_empty());
}
