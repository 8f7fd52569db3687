use posthaste::account::{AccountAppearance, AccountOverview};
use posthaste::errors::{ApiErrorCode, BAD_REQUEST};
use posthaste::read_calls::{
    account_list_read_result, admit_read_call, check_read_batch_size, enabled_account_ids,
    record_read_result,
    resolve_account_id_reference, resolve_selected_account_ids, AccountIdSelector, ReadResult,
    TagListReadResult,
};

fn overview(id: &str, enabled: bool) -> AccountOverview {
    AccountOverview {
        id: id.to_string(),
        name: id.to_uppercase(),
        enabled,
        appearance: AccountAppearance::Initials { initials: "A".to_string(), color_hue: 1 },
    }
}

fn prior() -> Vec<(String, ReadResult)> {
    let accounts = account_list_read_result(vec![
        overview("a", true),
        overview("b", false),
        overview("c", true),
    ]);
    vec![
        ("accounts".to_string(), ReadResult::AccountList(accounts)),
        ("tags".to_string(), ReadResult::TagList(TagListReadResult { items: Vec::new() })),
    ]
}

fn query_error(message: &str, result: posthaste::errors::ApiError) {
    assert_eq!(result.status, BAD_REQUEST);
    assert_eq!(result.body.code, ApiErrorCode::InvalidQuery);
    assert_eq!(result.body.message, message);
}

#[test]
fn account_list_result_keeps_order_and_enabled_subset() {
    let result = account_list_read_result(vec![overview("a", true), overview("b", false), overview("c", true)]);
    assert_eq!(result.ids, vec!["a", "b", "c"]);
    assert_eq!(result.enabled_ids, vec!["a", "c"]);
    assert_eq!(result.items.len(), 3);
    assert_eq!(enabled_account_ids(&vec![overview("x", false)]), Vec::<String>::new());
}

#[test]
fn references_resolve_against_earlier_account_lists() {
    let prior = prior();
    assert_eq!(resolve_account_id_reference(&prior, "#accounts.ids").ok(), Some(vec![
        "a".to_string(),
        "b".to_string(),
        "c".to_string()
    ]));
    assert_eq!(
        resolve_account_id_reference(&prior, "#accounts.enabledIds").ok(),
        Some(vec!["a".to_string(), "c".to_string()])
    );
}

#[test]
fn bad_references_are_invalid_queries() {
    let prior = prior();
    query_error(
        "invalid read result reference: accounts.ids",
        resolve_account_id_reference(&prior, "accounts.ids").unwrap_err(),
    );
    query_error(
        "invalid read result reference: accounts",
        resolve_account_id_reference(&prior, "#accounts").unwrap_err(),
    );
    query_error(
        "invalid read result reference: missing.ids",
        resolve_account_id_reference(&prior, "#missing.ids").unwrap_err(),
    );
    query_error(
        "invalid read result reference: tags.ids",
        resolve_account_id_reference(&prior, "#tags.ids").unwrap_err(),
    );
    query_error(
        "invalid read result reference: accounts.names",
        resolve_account_id_reference(&prior, "#accounts.names").unwrap_err(),
    );
    query_error(
        "invalid read result reference: accounts.ids.x",
        resolve_account_id_reference(&prior, "#accounts.ids.x").unwrap_err(),
    );
}

#[test]
fn explicit_selectors_pass_through() {
    let ids = vec!["z".to_string(), "y".to_string()];
    assert_eq!(
        resolve_selected_account_ids(&prior(), &AccountIdSelector::Explicit(ids.clone())).ok(),
        Some(ids)
    );
    assert_eq!(
        resolve_selected_account_ids(&prior(), &AccountIdSelector::Reference("#accounts.enabledIds".to_string())).ok(),
        Some(vec!["a".to_string(), "c".to_string()])
    );
}

#[test]
fn batches_are_bounded_and_ids_unique_and_non_blank() {
    assert!(check_read_batch_size(16).is_ok());
    query_error("read request exceeds 16 calls", check_read_batch_size(17).unwrap_err());
    let prior = prior();
    assert!(admit_read_call(&prior, "mailboxes").is_ok());
    query_error("read call id must not be empty", admit_read_call(&prior, "  ").unwrap_err());
    query_error("read call ids must be unique", admit_read_call(&prior, "tags").unwrap_err());
}

#[test]
fn recorded_results_are_keyed_by_distinct_call_ids() {
    let mut results: Vec<(String, ReadResult)> = Vec::new();
    assert!(admit_read_call(&results, "accounts").is_ok());
    record_read_result(
        &mut results,
        "accounts".to_string(),
        ReadResult::AccountList(account_list_read_result(vec![overview("a", true)])),
    );
    query_error("read call ids must be unique", admit_read_call(&results, "accounts").unwrap_err());
    assert!(admit_read_call(&results, "tags").is_ok());
    record_read_result(
        &mut results,
        "tags".to_string(),
        ReadResult::TagList(TagListReadResult { items: Vec::new() }),
    );
    assert_eq!(results.len(), 2);
    assert_eq!(resolve_account_id_reference(&results, "#accounts.ids").ok(), Some(vec!["a".to_string()]));
}
