//! The runtime's secret store: OS-keyring entries for OS secrets, environment
//! variables for env secrets, and a read-compare-write swap.
use vstd::prelude::*;

use crate::account::{SecretKind, SecretRef};
use crate::ledger::concat;
use crate::secrets::{SecretStore, SecretStoreError};
use crate::text::str_eq;

verus! {

/// Keyring service name of every OS-managed provider secret.
pub const KEYRING_SERVICE_NAME: &'static str = "posthaste";

#[verifier::external_type_specification]
#[verifier::external_body]
pub struct ExKeyringEntry(keyring::Entry);

/// `keyring::Entry::new(service, user)`, a failure given as its display
/// text. Nothing is claimed of the outcome: it rests on the platform's
/// credential store.
#[verifier::external_body]
fn keyring_entry(service: &str, user: &str) -> (r: Result<keyring::Entry, String>) {
    keyring::Entry::new(service, user).map_err(|err| err.to_string())
}

/// `keyring::Entry::get_password`, a failure given as its display text.
/// Nothing is claimed of the outcome: it is what the platform store holds.
#[verifier::external_body]
fn entry_get_password(entry: &keyring::Entry) -> (r: Result<String, String>) {
    entry.get_password().map_err(|err| err.to_string())
}

/// `keyring::Entry::set_password`, a failure given as its display text.
/// Nothing is claimed of the outcome: it rests on the platform store.
#[verifier::external_body]
fn entry_set_password(entry: &keyring::Entry, password: &str) -> (r: Result<(), String>) {
    entry.set_password(password).map_err(|err| err.to_string())
}

/// How a keyring deletion ended.
#[derive(Debug)]
pub enum KeyringDeletion {
    Deleted,
    /// There was no credential to delete (`keyring::Error::NoEntry`).
    NoEntry,
    Failed(String),
}

/// `keyring::Entry::delete_credential`, with `NoEntry` told apart from other
/// failures (given as their display text). Nothing is claimed of the
/// outcome: it rests on the platform store.
#[verifier::external_body]
fn entry_delete_credential(entry: &keyring::Entry) -> (r: KeyringDeletion) {
    match entry.delete_credential() {
        Ok(()) => KeyringDeletion::Deleted,
        Err(keyring::Error::NoEntry) => KeyringDeletion::NoEntry,
        Err(err) => KeyringDeletion::Failed(err.to_string()),
    }
}

/// The environment variables the store reads env secrets from.
pub trait EnvironmentVariables {
    /// The value of variable `key`, if it is set (and valid Unicode).
    fn var(&self, key: &str) -> Option<String>;
}

/// The secret store backed by the OS keyring (OS secrets) and environment
/// variables (env secrets, read-only).
pub struct SystemSecretStore<V: EnvironmentVariables> {
    pub env: V,
}

/// The error message of an unset environment variable.
pub open spec fn spec_env_missing(key: Seq<char>) -> Seq<char> {
    "environment variable "@ + key
}

/// The error message of a write the env backing cannot perform.
pub open spec fn spec_env_unsupported(action: Seq<char>, key: Seq<char>) -> Seq<char> {
    action + " via Env:"@ + key
}

/// What an env secret resolves to once variable `key` has been looked up:
/// its value, or `Unavailable` naming the variable when it is unset.
pub fn env_secret_answer(key: &str, value: Option<String>) -> (r: Result<String, SecretStoreError>)
    ensures
        match value {
            Some(v) => r == Ok::<String, SecretStoreError>(v),
            None => r matches Err(SecretStoreError::Unavailable(m)) && m@ == spec_env_missing(key@),
        },
{
    match value {
        Some(v) => Ok(v),
        None => {
            let message = concat("environment variable ", key);
            proof {
                reveal_strlit("environment variable ");
            }
            Err(SecretStoreError::Unavailable(message))
        },
    }
}

/// What a compare-and-swap does once the current value has been read.
#[derive(Debug, PartialEq, Eq)]
pub enum CasStep {
    /// The read failed: report it.
    Fail(SecretStoreError),
    /// The stored value is not the expected one: report it, write nothing.
    Mismatch(String),
    /// The stored value is the expected one: write the new value.
    Write,
}

/// The step after reading `current` when `expected` was expected.
pub fn cas_decision(current: Result<String, SecretStoreError>, expected: &str) -> (r: CasStep)
    ensures
        match current {
            Err(e) => r == CasStep::Fail(e),
            Ok(c) => if c@ == expected@ {
                r == CasStep::Write
            } else {
                r == CasStep::Mismatch(c)
            },
        },
{
    match current {
        Err(e) => CasStep::Fail(e),
        Ok(c) => {
            if str_eq(c.as_str(), expected) {
                CasStep::Write
            } else {
                CasStep::Mismatch(c)
            }
        },
    }
}

/// Outcome of a compare-and-swap.
#[derive(Debug, PartialEq, Eq)]
pub enum SecretCasOutcome {
    Swapped,
    /// The store held `current`, not the expected value.
    Mismatch { current: String },
}

impl<V: EnvironmentVariables> SystemSecretStore<V> {
    fn entry(secret_ref: &SecretRef) -> (r: Result<keyring::Entry, SecretStoreError>)
        ensures
            r is Err ==> r->Err_0 is Unavailable,
    {
        match keyring_entry(KEYRING_SERVICE_NAME, secret_ref.key.as_str()) {
            Ok(entry) => Ok(entry),
            Err(message) => Err(SecretStoreError::Unavailable(message)),
        }
    }

    /// Write `new_value` only if the store still holds `expected_current`;
    /// otherwise report what it holds. A read or write failure is returned.
    pub fn update_if_unchanged(
        &self,
        secret_ref: &SecretRef,
        expected_current: &str,
        new_value: &str,
    ) -> (r: Result<SecretCasOutcome, SecretStoreError>)
        ensures
            exists|read: Result<String, SecretStoreError>, write: Result<(), SecretStoreError>|
                #![trigger spec_cas_answer(read, expected_current@, write, r)]
                self.resolves(*secret_ref, read) && (read matches Ok(c) && c@ == expected_current@
                    ==> self.updates(*secret_ref, new_value@, write)) && spec_cas_answer(
                    read,
                    expected_current@,
                    write,
                    r,
                ),
            r matches Ok(SecretCasOutcome::Mismatch { current }) ==> current@
                != expected_current@,
            secret_ref.kind == SecretKind::Env ==> !(r matches Ok(SecretCasOutcome::Swapped)),
            r matches Err(SecretStoreError::Unsupported(m)) ==> secret_ref.kind == SecretKind::Env
                && m@ == spec_env_unsupported("save"@, secret_ref.key@),
    {
        let read = self.resolve(secret_ref);
        let ghost read_g = read;
        match cas_decision(read, expected_current) {
            CasStep::Fail(e) => {
                assert(spec_cas_answer(read_g, expected_current@, Ok(()), Err(e)));
                Err(e)
            },
            CasStep::Mismatch(current) => {
                let r = Ok(SecretCasOutcome::Mismatch { current });
                assert(spec_cas_answer(read_g, expected_current@, Ok(()), r));
                r
            },
            CasStep::Write => {
                let written = self.update(secret_ref, new_value);
                let ghost written_g = written;
                let r = match written {
                    Ok(()) => Ok(SecretCasOutcome::Swapped),
                    Err(e) => Err(e),
                };
                assert(spec_cas_answer(read_g, expected_current@, written_g, r));
                r
            },
        }
    }
}

/// What a compare-and-swap answers once `read` was read (and, on a match,
/// `write` was written): the read's failure; a mismatch carrying exactly
/// what was read; or the write's outcome.
pub open spec fn spec_cas_answer(
    read: Result<String, SecretStoreError>,
    expected: Seq<char>,
    write: Result<(), SecretStoreError>,
    r: Result<SecretCasOutcome, SecretStoreError>,
) -> bool {
    match read {
        Err(e) => r == Err::<SecretCasOutcome, SecretStoreError>(e),
        Ok(c) => if c@ == expected {
            match write {
                Ok(()) => r == Ok::<SecretCasOutcome, SecretStoreError>(SecretCasOutcome::Swapped),
                Err(e) => r == Err::<SecretCasOutcome, SecretStoreError>(e),
            }
        } else {
            r == Ok::<SecretCasOutcome, SecretStoreError>(SecretCasOutcome::Mismatch { current: c })
        },
    }
}

/// What an env-backed write answers: the backing is read-only.
pub open spec fn spec_env_write_refused(action: Seq<char>, secret_ref: SecretRef, out: Result<(), SecretStoreError>) -> bool {
    out matches Err(SecretStoreError::Unsupported(m)) && m@ == spec_env_unsupported(action, secret_ref.key@)
}

/// What a keyring-backed operation answers: whatever the platform store
/// gives, a failure reported as `Unavailable`.
pub open spec fn spec_keyring_answer<T>(out: Result<T, SecretStoreError>) -> bool {
    out matches Err(e) ==> e is Unavailable
}

impl<V: EnvironmentVariables> SecretStore for SystemSecretStore<V> {
    /// An unset env variable is `Unavailable` naming it; an OS secret is what
    /// its keyring entry holds.
    open spec fn resolves(&self, secret_ref: SecretRef, out: Result<String, SecretStoreError>) -> bool {
        match secret_ref.kind {
            SecretKind::Env => out matches Err(e) ==> (e matches SecretStoreError::Unavailable(m)
                && m@ == spec_env_missing(secret_ref.key@)),
            SecretKind::Os => spec_keyring_answer(out),
        }
    }

    /// Env secrets are read-only; an OS secret is written to its entry.
    open spec fn saves(&self, secret_ref: SecretRef, value: Seq<char>, out: Result<(), SecretStoreError>) -> bool {
        match secret_ref.kind {
            SecretKind::Env => spec_env_write_refused("save"@, secret_ref, out),
            SecretKind::Os => spec_keyring_answer(out),
        }
    }

    /// An update is a save.
    open spec fn updates(&self, secret_ref: SecretRef, value: Seq<char>, out: Result<(), SecretStoreError>) -> bool {
        self.saves(secret_ref, value, out)
    }

    /// Env secrets are read-only; an OS secret's entry is deleted, an absent
    /// entry counting as deleted.
    open spec fn deletes(&self, secret_ref: SecretRef, out: Result<(), SecretStoreError>) -> bool {
        match secret_ref.kind {
            SecretKind::Env => spec_env_write_refused("delete"@, secret_ref, out),
            SecretKind::Os => spec_keyring_answer(out),
        }
    }

    fn resolve(&self, secret_ref: &SecretRef) -> (r: Result<String, SecretStoreError>) {
        match secret_ref.kind {
            SecretKind::Env => env_secret_answer(
                secret_ref.key.as_str(),
                self.env.var(secret_ref.key.as_str()),
            ),
            SecretKind::Os => {
                let entry = Self::entry(secret_ref)?;
                match entry_get_password(&entry) {
                    Ok(password) => Ok(password),
                    Err(message) => Err(SecretStoreError::Unavailable(message)),
                }
            },
        }
    }

    fn save(&self, secret_ref: &SecretRef, value: &str) -> (r: Result<(), SecretStoreError>) {
        match secret_ref.kind {
            SecretKind::Env => {
                let head = concat("save via Env:", secret_ref.key.as_str());
                proof {
                    reveal_strlit("save via Env:");
                    reveal_strlit("save");
                    reveal_strlit(" via Env:");
                    assert(head@ =~= spec_env_unsupported("save"@, secret_ref.key@));
                }
                Err(SecretStoreError::Unsupported(head))
            },
            SecretKind::Os => {
                let entry = Self::entry(secret_ref)?;
                match entry_set_password(&entry, value) {
                    Ok(()) => Ok(()),
                    Err(message) => Err(SecretStoreError::Unavailable(message)),
                }
            },
        }
    }

    fn update(&self, secret_ref: &SecretRef, value: &str) -> (r: Result<(), SecretStoreError>) {
        self.save(secret_ref, value)
    }

    fn delete(&self, secret_ref: &SecretRef) -> (r: Result<(), SecretStoreError>) {
        match secret_ref.kind {
            SecretKind::Env => {
                let head = concat("delete via Env:", secret_ref.key.as_str());
                proof {
                    reveal_strlit("delete via Env:");
                    reveal_strlit("delete");
                    reveal_strlit(" via Env:");
                    assert(head@ =~= spec_env_unsupported("delete"@, secret_ref.key@));
                }
                Err(SecretStoreError::Unsupported(head))
            },
            SecretKind::Os => {
                let entry = Self::entry(secret_ref)?;
                match entry_delete_credential(&entry) {
                    KeyringDeletion::Deleted => Ok(()),
                    KeyringDeletion::NoEntry => Ok(()),
                    KeyringDeletion::Failed(message) => Err(SecretStoreError::Unavailable(message)),
                }
            },
        }
    }
}

} // verus!
