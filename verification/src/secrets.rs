//! Account secret management: what a create/patch request's secret
//! instruction does to the account's secret reference and to the secret
//! store.
use vstd::prelude::*;

use crate::account::{dup_opt_secret_ref, AccountSettings, SecretKind, SecretRef};
use crate::errors::{
    check_outcome, spec_api_code_of_kind, spec_service_error_status, ApiError, ApiErrorCode,
    ServiceError, ServiceErrorKind, bad_request,
};
use crate::ledger::concat;
use crate::requests::{SecretWriteMode, SecretWriteRequest};
use crate::text::{is_blank, spec_is_blank, spec_trim, trim};

verus! {

pub const PASSWORD_REQUIRED_MESSAGE: &'static str =
    "secret.password is required when secret.mode is replace";

/// Why a secret store call failed.
#[derive(Debug, PartialEq, Eq)]
pub enum SecretStoreError {
    /// The backing store could not be reached or has no such entry.
    Unavailable(String),
    /// The backing store cannot perform the operation for this kind of secret.
    Unsupported(String),
}

/// The store of account secrets (the OS keyring, environment variables).
/// Each operation is tied to a relation of the implementation: `saves(r,
/// v, out)` holds when saving `v` under `r` may end with `out`, and so on.
pub trait SecretStore {
    closed spec fn resolves(&self, secret_ref: SecretRef, out: Result<String, SecretStoreError>) -> bool {
        true
    }

    closed spec fn saves(
        &self,
        secret_ref: SecretRef,
        value: Seq<char>,
        out: Result<(), SecretStoreError>,
    ) -> bool {
        true
    }

    closed spec fn updates(
        &self,
        secret_ref: SecretRef,
        value: Seq<char>,
        out: Result<(), SecretStoreError>,
    ) -> bool {
        true
    }

    closed spec fn deletes(&self, secret_ref: SecretRef, out: Result<(), SecretStoreError>) -> bool {
        true
    }

    fn resolve(&self, secret_ref: &SecretRef) -> (r: Result<String, SecretStoreError>)
        ensures
            self.resolves(*secret_ref, r),
    ;

    fn save(&self, secret_ref: &SecretRef, value: &str) -> (r: Result<(), SecretStoreError>)
        ensures
            self.saves(*secret_ref, value@, r),
    ;

    fn update(&self, secret_ref: &SecretRef, value: &str) -> (r: Result<(), SecretStoreError>)
        ensures
            self.updates(*secret_ref, value@, r),
    ;

    fn delete(&self, secret_ref: &SecretRef) -> (r: Result<(), SecretStoreError>)
        ensures
            self.deletes(*secret_ref, r),
    ;
}

/// The managed (OS keyring) secret reference of an account: `account:{id}`.
pub open spec fn spec_account_secret_ref(account_id: Seq<char>) -> (SecretKind, Seq<char>) {
    (SecretKind::Os, "account:"@ + account_id)
}

pub fn account_secret_ref(account_id: &str) -> (r: SecretRef)
    ensures
        (r.kind, r.key@) == spec_account_secret_ref(account_id@),
{
    SecretRef { kind: SecretKind::Os, key: concat("account:", account_id) }
}

/// What happens to the account's secret reference.
#[derive(Debug, PartialEq, Eq)]
pub enum AccountSecretRefUpdate {
    /// Leave it as it is.
    Preserve,
    /// Replace it.
    Assign(Option<SecretRef>),
}

/// What the secret store is asked to do.
#[derive(Debug, PartialEq, Eq)]
pub enum SecretStoreInstruction {
    Nothing,
    Save { secret_ref: SecretRef, password: String },
    Update { secret_ref: SecretRef, password: String },
    Delete { secret_ref: SecretRef },
}

/// The decision for one secret instruction.
#[derive(Debug, PartialEq, Eq)]
pub struct SecretInstructionDecision {
    pub account_secret_ref: AccountSecretRefUpdate,
    pub store_instruction: SecretStoreInstruction,
}

/// The password a replace carries: present and non-blank, trimmed.
pub open spec fn spec_replace_password(request: SecretWriteRequest) -> Option<Seq<char>> {
    match request.password {
        Some(p) => if spec_is_blank(p@) {
            None
        } else {
            Some(spec_trim(p@))
        },
        None => None,
    }
}

/// A replace must carry a non-blank password.
pub open spec fn spec_secret_request_check(request: SecretWriteRequest) -> Option<
    (ApiErrorCode, Seq<char>),
> {
    if request.mode == SecretWriteMode::Replace && spec_replace_password(request) is None {
        Some((ApiErrorCode::InvalidSecret, PASSWORD_REQUIRED_MESSAGE@))
    } else {
        None
    }
}

pub fn validate_secret_request(request: &SecretWriteRequest) -> (r: Result<(), ApiError>)
    ensures
        check_outcome(r, spec_secret_request_check(*request)),
{
    if request.mode == SecretWriteMode::Replace {
        let ok = match &request.password {
            Some(p) => !is_blank(p.as_str()),
            None => false,
        };
        if !ok {
            return Err(bad_request(ApiErrorCode::InvalidSecret, PASSWORD_REQUIRED_MESSAGE));
        }
    }
    Ok(())
}

pub open spec fn is_os_ref(r: Option<SecretRef>) -> bool {
    r matches Some(x) && x.kind == SecretKind::Os
}

/// The decision for `request` given the account's existing reference:
/// - keep: the reference stays (set to itself when one exists); nothing is stored;
/// - replace: an existing OS reference is updated in place; otherwise the
///   managed reference `account:{id}` is saved and becomes the account's;
/// - clear: the reference is cleared; only an OS-kept secret is deleted.
pub open spec fn spec_secret_decision(
    account_id: Seq<char>,
    existing: Option<SecretRef>,
    request: SecretWriteRequest,
    d: SecretInstructionDecision,
) -> bool {
    match request.mode {
        SecretWriteMode::Keep => match existing {
            None => d.account_secret_ref == AccountSecretRefUpdate::Preserve
                && d.store_instruction == SecretStoreInstruction::Nothing,
            Some(r) => d.account_secret_ref == AccountSecretRefUpdate::Assign(Some(r))
                && d.store_instruction == SecretStoreInstruction::Nothing,
        },
        SecretWriteMode::Replace => {
            let pw = spec_replace_password(request)->Some_0;
            if is_os_ref(existing) {
                &&& d.account_secret_ref == AccountSecretRefUpdate::Assign(existing)
                &&& d.store_instruction matches SecretStoreInstruction::Update {
                    secret_ref,
                    password,
                } && Some(secret_ref) == existing && password@ == pw
            } else {
                &&& d.account_secret_ref matches AccountSecretRefUpdate::Assign(Some(r)) && (
                r.kind,
                r.key@,
            ) == spec_account_secret_ref(account_id)
                &&& d.store_instruction matches SecretStoreInstruction::Save {
                    secret_ref,
                    password,
                } && (secret_ref.kind, secret_ref.key@) == spec_account_secret_ref(account_id)
                    && password@ == pw
            }
        },
        SecretWriteMode::Clear => {
            &&& d.account_secret_ref == AccountSecretRefUpdate::Assign(None)
            &&& if is_os_ref(existing) {
                d.store_instruction == SecretStoreInstruction::Delete {
                    secret_ref: existing->Some_0,
                }
            } else {
                d.store_instruction == SecretStoreInstruction::Nothing
            }
        },
    }
}

pub fn decide_secret_instruction(
    account_id: &str,
    existing: Option<&SecretRef>,
    request: &SecretWriteRequest,
) -> (r: Result<SecretInstructionDecision, ApiError>)
    ensures
        check_outcome(r, spec_secret_request_check(*request)),
        r matches Ok(d) ==> spec_secret_decision(
            account_id@,
            match existing {
                Some(x) => Some(*x),
                None => None,
            },
            *request,
            d,
        ),
{
    validate_secret_request(request)?;
    match request.mode {
        SecretWriteMode::Keep => match existing {
            None => Ok(
                SecretInstructionDecision {
                    account_secret_ref: AccountSecretRefUpdate::Preserve,
                    store_instruction: SecretStoreInstruction::Nothing,
                },
            ),
            Some(r) => Ok(
                SecretInstructionDecision {
                    account_secret_ref: AccountSecretRefUpdate::Assign(Some(r.duplicate())),
                    store_instruction: SecretStoreInstruction::Nothing,
                },
            ),
        },
        SecretWriteMode::Replace => {
            let password = match &request.password {
                Some(p) => trim(p.as_str()),
                None => {
                    return Err(
                        bad_request(ApiErrorCode::InvalidSecret, PASSWORD_REQUIRED_MESSAGE),
                    );
                },
            };
            match existing {
                Some(r) if r.kind == SecretKind::Os => Ok(
                    SecretInstructionDecision {
                        account_secret_ref: AccountSecretRefUpdate::Assign(Some(r.duplicate())),
                        store_instruction: SecretStoreInstruction::Update {
                            secret_ref: r.duplicate(),
                            password,
                        },
                    },
                ),
                _ => {
                    let managed = account_secret_ref(account_id);
                    let saved = managed.duplicate();
                    Ok(
                        SecretInstructionDecision {
                            account_secret_ref: AccountSecretRefUpdate::Assign(Some(managed)),
                            store_instruction: SecretStoreInstruction::Save {
                                secret_ref: saved,
                                password,
                            },
                        },
                    )
                },
            }
        },
        SecretWriteMode::Clear => {
            let store_instruction = match existing {
                Some(r) if r.kind == SecretKind::Os => SecretStoreInstruction::Delete {
                    secret_ref: r.duplicate(),
                },
                _ => SecretStoreInstruction::Nothing,
            };
            Ok(
                SecretInstructionDecision {
                    account_secret_ref: AccountSecretRefUpdate::Assign(None),
                    store_instruction,
                },
            )
        },
    }
}

/// The service error a failed store call surfaces as.
pub open spec fn spec_store_error_kind(e: SecretStoreError) -> ServiceErrorKind {
    match e {
        SecretStoreError::Unavailable(_) => ServiceErrorKind::SecretUnavailable,
        SecretStoreError::Unsupported(_) => ServiceErrorKind::SecretUnsupported,
    }
}

pub open spec fn spec_store_error_message(e: SecretStoreError) -> Seq<char> {
    match e {
        SecretStoreError::Unavailable(m) => m@,
        SecretStoreError::Unsupported(m) => m@,
    }
}

/// Map a secret store failure to the API envelope.
pub fn secret_store_error_to_api(e: SecretStoreError) -> (r: ApiError)
    ensures
        r.status == spec_service_error_status(spec_store_error_kind(e)),
        r.body.code == spec_api_code_of_kind(spec_store_error_kind(e)),
        r.body.message@ == spec_store_error_message(e),
{
    let error = match e {
        SecretStoreError::Unavailable(message) => ServiceError {
            kind: ServiceErrorKind::SecretUnavailable,
            message,
        },
        SecretStoreError::Unsupported(message) => ServiceError {
            kind: ServiceErrorKind::SecretUnsupported,
            message,
        },
    };
    ApiError::from_service_error(error)
}

/// `r` is how carrying out `instruction` against `store` may end: nothing to
/// do is `Ok`; otherwise the store operation with exactly the instruction's
/// reference and password was made, and its failure is returned as the API
/// error of the store error.
pub open spec fn spec_store_outcome<S: SecretStore>(
    store: S,
    instruction: SecretStoreInstruction,
    r: Result<(), ApiError>,
) -> bool {
    match instruction {
        SecretStoreInstruction::Nothing => r is Ok,
        SecretStoreInstruction::Save { secret_ref, password } => exists|out: Result<(), SecretStoreError>|
            store.saves(secret_ref, password@, out) && spec_store_result(out, r),
        SecretStoreInstruction::Update { secret_ref, password } => exists|out: Result<(), SecretStoreError>|
            store.updates(secret_ref, password@, out) && spec_store_result(out, r),
        SecretStoreInstruction::Delete { secret_ref } => exists|out: Result<(), SecretStoreError>|
            store.deletes(secret_ref, out) && spec_store_result(out, r),
    }
}

/// `r` follows the store's answer `out`.
pub open spec fn spec_store_result(out: Result<(), SecretStoreError>, r: Result<(), ApiError>) -> bool {
    match out {
        Ok(()) => r is Ok,
        Err(e) => r matches Err(a) && a.status == spec_service_error_status(spec_store_error_kind(e))
            && a.body.code == spec_api_code_of_kind(spec_store_error_kind(e)) && a.body.message@
            == spec_store_error_message(e),
    }
}

/// Decide the request's secret instruction, carry it out against `store`, and
/// update the account's secret reference. A store failure leaves the account
/// unchanged.
pub fn apply_secret_instruction<S: SecretStore>(
    store: &S,
    account: &mut AccountSettings,
    previous_ref: Option<&SecretRef>,
    request: &SecretWriteRequest,
) -> (r: Result<(), ApiError>)
    ensures
        spec_secret_request_check(*request) is Some ==> check_outcome(
            r,
            spec_secret_request_check(*request),
        ) && *final(account) == *old(account),
        spec_secret_request_check(*request) is None ==> exists|d: SecretInstructionDecision|
            spec_secret_decision(
                old(account).id@,
                match previous_ref {
                    Some(x) => Some(*x),
                    None => None,
                },
                *request,
                d,
            ) && spec_store_outcome(*store, d.store_instruction, r) && (r is Ok
                ==> final(account).transport.secret_ref == match d.account_secret_ref {
                AccountSecretRefUpdate::Preserve => old(account).transport.secret_ref,
                AccountSecretRefUpdate::Assign(x) => x,
            }),
        r is Err ==> final(account).transport.secret_ref == old(account).transport.secret_ref,
        final(account).id == old(account).id,
        final(account).name == old(account).name,
{
    let decision = decide_secret_instruction(account.id.as_str(), previous_ref, request)?;
    let stored = match &decision.store_instruction {
        SecretStoreInstruction::Nothing => Ok(()),
        SecretStoreInstruction::Save { secret_ref, password } => store.save(
            secret_ref,
            password.as_str(),
        ),
        SecretStoreInstruction::Update { secret_ref, password } => store.update(
            secret_ref,
            password.as_str(),
        ),
        SecretStoreInstruction::Delete { secret_ref } => store.delete(secret_ref),
    };
    let ghost made = stored;
    let ghost d = decision;
    match stored {
        Ok(()) => {},
        Err(e) => {
            let error = secret_store_error_to_api(e);
            proof {
                assert(spec_store_result(made, Err::<(), ApiError>(error)));
                assert(spec_store_outcome(*store, d.store_instruction, Err::<(), ApiError>(error)));
            }
            return Err(error);
        },
    }
    proof {
        assert(spec_store_result(made, Ok::<(), ApiError>(())));
        assert(spec_store_outcome(*store, d.store_instruction, Ok::<(), ApiError>(())));
    }
    match decision.account_secret_ref {
        AccountSecretRefUpdate::Preserve => {},
        AccountSecretRefUpdate::Assign(next) => {
            account.transport.secret_ref = next;
        },
    }
    Ok(())
}

/// How a secret is kept, as the API reports it.
#[derive(Clone, Copy, Debug, PartialEq, Eq, Structural)]
pub enum SecretStorage {
    Env,
    Os,
}

/// A redacted view of an account's secret.
#[derive(Debug, PartialEq, Eq)]
pub struct SecretStatus {
    pub storage: SecretStorage,
    pub configured: bool,
    pub label: Option<String>,
}

/// The redacted status of a secret reference: OS secrets hide their key,
/// env secrets expose the variable name.
pub fn secret_status(secret_ref: Option<&SecretRef>) -> (r: SecretStatus)
    ensures
        match secret_ref {
            Some(s) => r.configured && r.storage == (match s.kind {
                SecretKind::Env => SecretStorage::Env,
                SecretKind::Os => SecretStorage::Os,
            }) && r.label == (match s.kind {
                SecretKind::Env => Some(s.key),
                SecretKind::Os => None,
            }),
            None => !r.configured && r.storage == SecretStorage::Os && r.label is None,
        },
{
    match secret_ref {
        Some(s) => SecretStatus {
            storage: match s.kind {
                SecretKind::Env => SecretStorage::Env,
                SecretKind::Os => SecretStorage::Os,
            },
            configured: true,
            label: match s.kind {
                SecretKind::Env => Some(s.key.clone()),
                SecretKind::Os => None,
            },
        },
        None => SecretStatus { storage: SecretStorage::Os, configured: false, label: None },
    }
}

} // verus!
