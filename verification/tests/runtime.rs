use std::collections::HashMap;

use posthaste::account::{SecretKind, SecretRef};
use posthaste::domain::DomainEvent;
use posthaste::errors::{RuntimeErrorCode, ServiceError, ServiceErrorKind};
use posthaste::mutation_args::keyword_toggle;
use posthaste::runtime_config::{
    remote_link_target, trim_base_url, BackendTransportConfig, RuntimeBuildError,
    RuntimeShutdownError,
};
use posthaste::runtime_handle::{
    ensure_account_in_scope, ensure_runtime_active, event_matches_filter, runtime_lifecycle_label,
    EventFilter, RuntimeLifecycle,
};
use posthaste::secrets::{SecretStore, SecretStoreError};
use posthaste::system_secrets::{
    cas_decision, env_secret_answer, CasStep, EnvironmentVariables, SecretCasOutcome, SystemSecretStore,
};
use posthaste::account_ids::allocate_unique_account_id;

struct FakeEnv(HashMap<String, String>);

impl EnvironmentVariables for FakeEnv {
    fn var(&self, key: &str) -> Option<String> {
        self.0.get(key).cloned()
    }
}

fn env_store(pairs: &[(&str, &str)]) -> SystemSecretStore<FakeEnv> {
    SystemSecretStore {
        env: FakeEnv(pairs.iter().map(|(k, v)| (k.to_string(), v.to_string())).collect()),
    }
}

fn env_ref(key: &str) -> SecretRef {
    SecretRef { kind: SecretKind::Env, key: key.to_string() }
}

#[test]
fn cas_rejects_stale_expected_and_returns_current() {
    let key = "POSTHASTE_CAS_TEST_STALE";
    let store = env_store(&[(key, "winner-value")]);
    let outcome = store
        .update_if_unchanged(&env_ref(key), "stale-expected", "loser-value")
        .expect("cas resolves the current env value");
    assert_eq!(
        outcome,
        SecretCasOutcome::Mismatch { current: "winner-value".to_string() },
        "a stale expected value must miss and carry the winner's value",
    );
}

#[test]
fn cas_matching_expected_attempts_the_write() {
    let key = "POSTHASTE_CAS_TEST_MATCH";
    let store = env_store(&[(key, "current-value")]);
    let result = store.update_if_unchanged(&env_ref(key), "current-value", "next-value");
    assert!(
        matches!(result, Err(SecretStoreError::Unsupported(_))),
        "a matching CAS must attempt the backing write, not miss: {result:?}",
    );
}

#[test]
fn env_secrets_resolve_from_the_environment_and_are_read_only() {
    let store = env_store(&[("PW", "hunter2")]);
    assert_eq!(store.resolve(&env_ref("PW")), Ok("hunter2".to_string()));
    assert_eq!(
        store.resolve(&env_ref("MISSING")),
        Err(SecretStoreError::Unavailable("environment variable MISSING".to_string()))
    );
    assert_eq!(
        store.save(&env_ref("PW"), "x"),
        Err(SecretStoreError::Unsupported("save via Env:PW".to_string()))
    );
    assert_eq!(
        store.delete(&env_ref("PW")),
        Err(SecretStoreError::Unsupported("delete via Env:PW".to_string()))
    );
    assert_eq!(
        store.update_if_unchanged(&env_ref("MISSING"), "a", "b"),
        Err(SecretStoreError::Unavailable("environment variable MISSING".to_string()))
    );
}

#[test]
fn cas_steps_follow_the_read() {
    assert_eq!(cas_decision(Ok("a".to_string()), "a"), CasStep::Write);
    assert_eq!(cas_decision(Ok("b".to_string()), "a"), CasStep::Mismatch("b".to_string()));
    assert_eq!(
        cas_decision(Err(SecretStoreError::Unavailable("x".to_string())), "a"),
        CasStep::Fail(SecretStoreError::Unavailable("x".to_string()))
    );
}

#[test]
fn a_remote_runtime_needs_capacity_and_a_remote_transport() {
    let remote = || BackendTransportConfig::Remote {
        base_url: "http://far".to_string(),
        token: Some("t".to_string()),
    };
    assert_eq!(
        remote_link_target(0, remote()),
        Err(RuntimeBuildError::InvalidConfig(
            "event_channel_capacity must be greater than zero".to_string()
        ))
    );
    assert_eq!(
        remote_link_target(512, BackendTransportConfig::InProcess),
        Err(RuntimeBuildError::InvalidConfig(
            "a remote runtime requires a remote backend transport".to_string()
        ))
    );
    assert_eq!(
        remote_link_target(1, remote()),
        Ok(("http://far".to_string(), Some("t".to_string())))
    );
    assert_eq!(BackendTransportConfig::default(), BackendTransportConfig::InProcess);
    assert_eq!(trim_base_url("http://far//"), "http://far");
}

#[test]
fn build_and_shutdown_errors_render_their_messages() {
    assert_eq!(
        RuntimeBuildError::InvalidConfig("x".to_string()).message(),
        "invalid runtime build config: x"
    );
    assert_eq!(
        RuntimeBuildError::Io { path: "/tmp/a".to_string(), message: "denied".to_string() }.message(),
        "io error for /tmp/a: denied"
    );
    assert_eq!(
        RuntimeShutdownError::Failed("late".to_string()).message(),
        "runtime shutdown failed: late"
    );
}

#[test]
fn only_ready_or_degraded_runtimes_serve() {
    assert!(ensure_runtime_active(RuntimeLifecycle::Ready).is_ok());
    assert!(ensure_runtime_active(RuntimeLifecycle::Degraded).is_ok());
    let e = ensure_runtime_active(RuntimeLifecycle::Stopped).unwrap_err();
    assert_eq!(e.0.code, RuntimeErrorCode::RuntimeNotReady);
    assert_eq!(e.0.message, "runtime is stopped");
    assert_eq!(e.0.details, "{\"lifecycle\":\"stopped\"}");
    assert_eq!(runtime_lifecycle_label(&RuntimeLifecycle::Starting), "starting");
}

#[test]
fn mutations_stay_inside_the_link_scope() {
    let scope = vec!["a".to_string()];
    assert!(ensure_account_in_scope("b", None).is_ok());
    assert!(ensure_account_in_scope("a", Some(&scope)).is_ok());
    let e = ensure_account_in_scope("b", Some(&scope)).unwrap_err();
    assert_eq!(e.0.code, RuntimeErrorCode::Unauthorized);
    assert_eq!(e.0.message, "mutation source is outside the runtime link account scope");
}

fn event(seq: u64, account: &str, topic: &str, mailbox: Option<&str>) -> DomainEvent {
    DomainEvent {
        seq,
        account_id: account.to_string(),
        topic: topic.to_string(),
        occurred_at: "t".to_string(),
        mailbox_id: mailbox.map(|m| m.to_string()),
        message_id: None,
        payload: "{}".to_string(),
    }
}

#[test]
fn event_filters_match_every_given_field() {
    let any = EventFilter { account_id: None, topic: None, mailbox_id: None, after_seq: None };
    assert!(event_matches_filter(&event(1, "a", "t", None), &any));
    let filter = EventFilter {
        account_id: Some("a".to_string()),
        topic: Some("message.updated".to_string()),
        mailbox_id: Some("inbox".to_string()),
        after_seq: Some(5),
    };
    assert!(event_matches_filter(&event(6, "a", "message.updated", Some("inbox")), &filter));
    assert!(!event_matches_filter(&event(5, "a", "message.updated", Some("inbox")), &filter));
    assert!(!event_matches_filter(&event(6, "b", "message.updated", Some("inbox")), &filter));
    assert!(!event_matches_filter(&event(6, "a", "account.updated", Some("inbox")), &filter));
    assert!(!event_matches_filter(&event(6, "a", "message.updated", None), &filter));
}

#[test]
fn keyword_toggles_add_or_remove_one_keyword() {
    let on = keyword_toggle("$flagged", true);
    assert_eq!(on.add, vec!["$flagged".to_string()]);
    assert!(on.remove.is_empty());
    let off = keyword_toggle("$seen", false);
    assert!(off.add.is_empty());
    assert_eq!(off.remove, vec!["$seen".to_string()]);
}

#[test]
fn account_ids_get_numeric_suffixes_on_collision() {
    let taken = ["work".to_string(), "work-2".to_string()];
    let lookup = |id: &String| -> Result<bool, ServiceError> { Ok(taken.contains(id)) };
    assert_eq!(allocate_unique_account_id(&lookup, "work").ok(), Some("work-3".to_string()));
    assert_eq!(allocate_unique_account_id(&lookup, "home").ok(), Some("home".to_string()));
    let failing = |_: &String| -> Result<bool, ServiceError> {
        Err(ServiceError { kind: ServiceErrorKind::StorageFailure, message: "db down".to_string() })
    };
    let e = allocate_unique_account_id(&failing, "work").unwrap_err();
    assert_eq!(e.status, 500);
    assert_eq!(e.body.message, "db down");
}

#[test]
fn unparseable_mutation_args_name_the_mutation() {
    let e = posthaste::mutation_args::invalid_args_error("message.setKeywords", "missing field `add`");
    assert_eq!(e.0.code, posthaste::errors::RuntimeErrorCode::InvalidMutation);
    assert_eq!(e.0.message, "invalid args for mutation 'message.setKeywords'");
    assert_eq!(e.0.details, "{\"error\":\"missing field `add`\"}");
}

#[test]
fn env_secret_answer_passes_a_value_through_and_names_an_unset_variable() {
    assert_eq!(
        env_secret_answer("TOKEN", Some("abc".to_string())),
        Ok("abc".to_string())
    );
    assert_eq!(
        env_secret_answer("TOKEN", None),
        Err(SecretStoreError::Unavailable("environment variable TOKEN".to_string()))
    );
}
