//! Typed read calls (`POST /v1/read`): a batch of read-only operations run in
//! order, where later calls may refer to the account lists of earlier ones.
use vstd::prelude::*;

use crate::account::AccountOverview;
use crate::domain::dup_strings;
use crate::errors::{bad_request, check_outcome, ApiError, ApiErrorCode, BAD_REQUEST};
use crate::ledger::concat;
use crate::text::{chars_of, is_blank, lemma_find_char, spec_find_char, spec_is_blank, str_eq};

verus! {

/// At most this many calls per read request.
pub const MAX_READ_CALLS: usize = 16;

pub const READ_TOO_MANY_MESSAGE: &'static str = "read request exceeds 16 calls";

pub const READ_ID_EMPTY_MESSAGE: &'static str = "read call id must not be empty";

pub const READ_ID_UNIQUE_MESSAGE: &'static str = "read call ids must be unique";

/// Supported read operations (`Account/list`, `Mailbox/list`,
/// `SmartMailbox/list`, `Tag/list`).
#[derive(Clone, Copy, Debug, PartialEq, Eq, Structural)]
pub enum ReadOperation {
    AccountList,
    MailboxList,
    SmartMailboxList,
    TagList,
}

/// Account id selector: an explicit list, or a result reference such as
/// `#accounts.ids`.
#[derive(Debug)]
pub enum AccountIdSelector {
    Explicit(Vec<String>),
    Reference(String),
}

/// Optional read-call arguments; only the account lists use `account_ids`.
#[derive(Debug)]
pub struct ReadCallArgs {
    pub account_ids: Option<AccountIdSelector>,
}

/// One read operation of a batch, under a caller-chosen id.
#[derive(Debug)]
pub struct ReadCall {
    pub id: String,
    pub op: ReadOperation,
    pub args: ReadCallArgs,
}

/// Request body of `POST /v1/read`.
#[derive(Debug)]
pub struct ReadRequest {
    pub calls: Vec<ReadCall>,
}

/// A mailbox of an account, as listed.
#[derive(Debug)]
pub struct MailboxSummary {
    pub id: String,
    pub name: String,
    pub role: Option<String>,
}

/// A smart mailbox, as listed.
#[derive(Debug)]
pub struct SmartMailboxSummary {
    pub id: String,
    pub name: String,
}

/// A tag, as listed.
#[derive(Debug)]
pub struct TagSummary {
    pub name: String,
}

/// Result of `Account/list`: every account id, the enabled ones, and the
/// account overviews, in listing order.
#[derive(Debug)]
pub struct AccountListReadResult {
    pub ids: Vec<String>,
    pub enabled_ids: Vec<String>,
    pub items: Vec<AccountOverview>,
}

/// Result of `Mailbox/list`: the mailboxes of each requested account.
#[derive(Debug)]
pub struct MailboxListReadResult {
    pub by_account_id: Vec<(String, Vec<MailboxSummary>)>,
}

/// Result of `SmartMailbox/list`.
#[derive(Debug)]
pub struct SmartMailboxListReadResult {
    pub items: Vec<SmartMailboxSummary>,
}

/// Result of `Tag/list`.
#[derive(Debug)]
pub struct TagListReadResult {
    pub items: Vec<TagSummary>,
}

/// A successful read-call result, by operation.
#[derive(Debug)]
pub enum ReadResult {
    AccountList(AccountListReadResult),
    MailboxList(MailboxListReadResult),
    SmartMailboxList(SmartMailboxListReadResult),
    TagList(TagListReadResult),
}

/// Response body of `POST /v1/read`: the results keyed by call id, in the
/// order the calls ran; no call id occurs twice (`spec_ids_unique`).
#[derive(Debug)]
pub struct ReadResponse {
    pub results: Vec<(String, ReadResult)>,
}

/// A batch may hold at most sixteen calls.
pub fn check_read_batch_size(calls: usize) -> (r: Result<(), ApiError>)
    ensures
        check_outcome(
            r,
            if calls > MAX_READ_CALLS {
                Some((ApiErrorCode::InvalidQuery, READ_TOO_MANY_MESSAGE@))
            } else {
                None
            },
        ),
{
    if calls > MAX_READ_CALLS {
        return Err(bad_request(ApiErrorCode::InvalidQuery, READ_TOO_MANY_MESSAGE));
    }
    Ok(())
}

/// Whether a result is recorded under `id`.
pub open spec fn spec_has_result(results: Seq<(String, ReadResult)>, id: Seq<char>) -> bool {
    exists|i: int| 0 <= i < results.len() && (#[trigger] results[i]).0@ == id
}

/// A call may run when its id is not blank and no earlier call used it.
pub fn admit_read_call(results: &Vec<(String, ReadResult)>, id: &str) -> (r: Result<(), ApiError>)
    ensures
        check_outcome(
            r,
            if spec_is_blank(id@) {
                Some((ApiErrorCode::InvalidQuery, READ_ID_EMPTY_MESSAGE@))
            } else if spec_has_result(results@, id@) {
                Some((ApiErrorCode::InvalidQuery, READ_ID_UNIQUE_MESSAGE@))
            } else {
                None
            },
        ),
{
    if is_blank(id) {
        return Err(bad_request(ApiErrorCode::InvalidQuery, READ_ID_EMPTY_MESSAGE));
    }
    let mut i: usize = 0;
    while i < results.len()
        invariant
            i <= results@.len(),
            !spec_is_blank(id@),
            forall|j: int| 0 <= j < i ==> (#[trigger] results@[j]).0@ != id@,
        decreases results@.len() - i,
    {
        if str_eq(results[i].0.as_str(), id) {
            assert((results@[i as int]).0@ == id@);
            return Err(bad_request(ApiErrorCode::InvalidQuery, READ_ID_UNIQUE_MESSAGE));
        }
        i = i + 1;
    }
    Ok(())
}

/// No two results are recorded under the same call id: the results form a
/// map from call id to result.
pub open spec fn spec_ids_unique(results: Seq<(String, ReadResult)>) -> bool {
    forall|i: int, j: int|
        0 <= i < j < results.len() ==> (#[trigger] results[i]).0@ != (#[trigger] results[j]).0@
}

/// Record the result of an admitted call (one whose id is not recorded yet):
/// the results stay keyed by distinct call ids.
pub fn record_read_result(results: &mut Vec<(String, ReadResult)>, id: String, result: ReadResult)
    requires
        spec_ids_unique(old(results)@),
        !spec_has_result(old(results)@, id@),
    ensures
        final(results)@ == old(results)@.push((id, result)),
        spec_ids_unique(final(results)@),
        spec_lookup_result(final(results)@, id@) == Some(result),
{
    let ghost before = results@;
    results.push((id, result));
    proof {
        let after = results@;
        assert forall|i: int, j: int| 0 <= i < j < after.len() implies (#[trigger] after[i]).0@
            != (#[trigger] after[j]).0@ by {
            if j == before.len() {
                assert(after[i] == before[i]);
                if before[i].0@ == id@ {
                    assert(spec_has_result(before, id@));
                }
            } else {
                assert(after[i] == before[i] && after[j] == before[j]);
            }
        }
        lemma_lookup_last(before, id, result);
    }
}

proof fn lemma_lookup_last(results: Seq<(String, ReadResult)>, id: String, result: ReadResult)
    requires
        !spec_has_result(results, id@),
    ensures
        spec_lookup_result(results.push((id, result)), id@) == Some(result),
    decreases results.len(),
{
    let after = results.push((id, result));
    if results.len() == 0 {
        assert(after[0] == (id, result));
    } else {
        assert(results[0].0@ != id@) by {
            if results[0].0@ == id@ {
                assert(spec_has_result(results, id@));
            }
        }
        assert(after[0] == results[0]);
        assert(after.drop_first() =~= results.drop_first().push((id, result)));
        assert forall|i: int| 0 <= i < results.drop_first().len() implies (
        #[trigger] results.drop_first()[i]).0@ != id@ by {
            assert(results.drop_first()[i] == results[i + 1]);
            if results[i + 1].0@ == id@ {
                assert(spec_has_result(results, id@));
            }
        }
        lemma_lookup_last(results.drop_first(), id, result);
    }
}

/// The ids of the enabled accounts among `items`, in order.
pub open spec fn spec_enabled_ids(items: Seq<AccountOverview>) -> Seq<String>
    decreases items.len(),
{
    if items.len() == 0 {
        Seq::empty()
    } else {
        let rest = spec_enabled_ids(items.drop_last());
        if items.last().enabled {
            rest.push(items.last().id)
        } else {
            rest
        }
    }
}

/// The enabled ids of a listing are the ids of exactly its enabled
/// accounts, each once per listing, in listing order: the listing filtered
/// by the `enabled` flag.
pub proof fn law_enabled_ids_are_the_enabled_accounts(items: Seq<AccountOverview>)
    ensures
        spec_enabled_ids(items) == items.filter(|a: AccountOverview| a.enabled).map_values(
            |a: AccountOverview| a.id,
        ),
    decreases items.len(),
{
    reveal_with_fuel(Seq::filter, 1);
    if items.len() > 0 {
        law_enabled_ids_are_the_enabled_accounts(items.drop_last());
        let f = items.drop_last().filter(|a: AccountOverview| a.enabled);
        assert(f.push(items.last()).map_values(|a: AccountOverview| a.id) =~= f.map_values(
            |a: AccountOverview| a.id,
        ).push(items.last().id));
    }
}

/// The ids of the enabled accounts, in listing order.
pub fn enabled_account_ids(items: &Vec<AccountOverview>) -> (r: Vec<String>)
    ensures
        r@ == spec_enabled_ids(items@),
{
    let mut r: Vec<String> = Vec::new();
    let mut i: usize = 0;
    while i < items.len()
        invariant
            i <= items@.len(),
            r@ == spec_enabled_ids(items@.subrange(0, i as int)),
        decreases items@.len() - i,
    {
        assert(items@.subrange(0, i + 1).drop_last() =~= items@.subrange(0, i as int));
        if items[i].enabled {
            r.push(items[i].id.clone());
        }
        i = i + 1;
    }
    assert(items@.subrange(0, items@.len() as int) =~= items@);
    r
}

/// The `Account/list` result for the listed accounts.
pub fn account_list_read_result(items: Vec<AccountOverview>) -> (r: AccountListReadResult)
    ensures
        r.ids@ == items@.map_values(|a: AccountOverview| a.id),
        r.enabled_ids@ == spec_enabled_ids(items@),
        r.items@ == items@,
{
    let mut ids: Vec<String> = Vec::new();
    let mut i: usize = 0;
    while i < items.len()
        invariant
            i <= items@.len(),
            ids@ == items@.subrange(0, i as int).map_values(|a: AccountOverview| a.id),
        decreases items@.len() - i,
    {
        ids.push(items[i].id.clone());
        proof {
            assert(items@.subrange(0, i + 1).map_values(|a: AccountOverview| a.id) =~= items@.subrange(
                0,
                i as int,
            ).map_values(|a: AccountOverview| a.id).push(items@[i as int].id));
        }
        i = i + 1;
    }
    assert(items@.subrange(0, items@.len() as int) =~= items@);
    let enabled_ids = enabled_account_ids(&items);
    AccountListReadResult { ids, enabled_ids, items }
}

/// The result recorded under `id`, the first one if several are.
pub open spec fn spec_lookup_result(results: Seq<(String, ReadResult)>, id: Seq<char>) -> Option<
    ReadResult,
>
    decreases results.len(),
{
    if results.len() == 0 {
        None
    } else if results[0].0@ == id {
        Some(results[0].1)
    } else {
        spec_lookup_result(results.drop_first(), id)
    }
}

/// The message of an unusable result reference.
pub open spec fn spec_invalid_reference(reference: Seq<char>) -> Option<(ApiErrorCode, Seq<char>)> {
    Some((ApiErrorCode::InvalidQuery, "invalid read result reference: "@ + reference))
}

/// What a result reference `#call.field` resolves to: the `ids` or
/// `enabledIds` of the `Account/list` result of call `call`. A reference
/// without the leading `#` is reported as written; later failures report it
/// without the `#`.
pub open spec fn spec_resolve_reference(
    results: Seq<(String, ReadResult)>,
    reference: Seq<char>,
) -> Result<Seq<String>, Option<(ApiErrorCode, Seq<char>)>> {
    if reference.len() == 0 || reference[0] != '#' {
        Err(spec_invalid_reference(reference))
    } else {
        let rest = reference.drop_first();
        let k = spec_find_char(rest, '.') as int;
        if k == rest.len() {
            Err(spec_invalid_reference(rest))
        } else {
            let call_id = rest.subrange(0, k);
            let field = rest.subrange(k + 1, rest.len() as int);
            match spec_lookup_result(results, call_id) {
                Some(ReadResult::AccountList(accounts)) => if field == "ids"@ {
                    Ok(accounts.ids@)
                } else if field == "enabledIds"@ {
                    Ok(accounts.enabled_ids@)
                } else {
                    Err(spec_invalid_reference(rest))
                },
                _ => Err(spec_invalid_reference(rest)),
            }
        }
    }
}

proof fn lemma_lookup_recorded(results: Seq<(String, ReadResult)>, i: int)
    requires
        spec_ids_unique(results),
        0 <= i < results.len(),
    ensures
        spec_lookup_result(results, results[i].0@) == Some(results[i].1),
    decreases results.len(),
{
    if i > 0 {
        assert(results[0].0@ != results[i].0@);
        let rest = results.drop_first();
        assert(rest[i - 1] == results[i]);
        assert forall|a: int, b: int| 0 <= a < b < rest.len() implies (#[trigger] rest[a]).0@
            != (#[trigger] rest[b]).0@ by {
            assert(rest[a] == results[a + 1] && rest[b] == results[b + 1]);
        }
        lemma_lookup_recorded(rest, i - 1);
    }
}

/// A result reference `#call.ids` (or `#call.enabledIds`) resolves to the
/// ids (or the enabled ids) of the `Account/list` result recorded under
/// `call` (a call id without a `.`); a reference that does not start with
/// `#` never resolves.
pub proof fn law_references_resolve_to_recorded_account_lists(
    results: Seq<(String, ReadResult)>,
    i: int,
    reference: Seq<char>,
)
    requires
        spec_ids_unique(results),
        0 <= i < results.len(),
        !results[i].0@.contains('.'),
        results[i].1 is AccountList,
    ensures
        ({
            let call = results[i].0@;
            let accounts = results[i].1->AccountList_0;
            &&& spec_resolve_reference(results, seq!['#'] + call + seq!['.'] + "ids"@) == Ok::<
                Seq<String>,
                Option<(ApiErrorCode, Seq<char>)>,
            >(accounts.ids@)
            &&& spec_resolve_reference(results, seq!['#'] + call + seq!['.'] + "enabledIds"@)
                == Ok::<Seq<String>, Option<(ApiErrorCode, Seq<char>)>>(accounts.enabled_ids@)
            &&& (reference.len() == 0 || reference[0] != '#') ==> spec_resolve_reference(
                results,
                reference,
            ) is Err
        }),
{
    let call = results[i].0@;
    lemma_lookup_recorded(results, i);
    let fields: Seq<Seq<char>> = seq!["ids"@, "enabledIds"@];
    assert forall|f: int| 0 <= f < 2 implies {
        let r = seq!['#'] + call + seq!['.'] + #[trigger] fields[f];
        let rest = r.drop_first();
        &&& rest =~= call + seq!['.'] + fields[f]
        &&& spec_find_char(rest, '.') == call.len()
        &&& rest.subrange(0, call.len() as int) =~= call
        &&& rest.subrange(call.len() as int + 1, rest.len() as int) =~= fields[f]
    } by {
        let r = seq!['#'] + call + seq!['.'] + fields[f];
        let rest = r.drop_first();
        assert(rest =~= call + seq!['.'] + fields[f]);
        assert forall|j: int| 0 <= j < call.len() implies #[trigger] rest[j] != '.' by {
            assert(rest[j] == call[j]);
            if call[j] == '.' {
                assert(call.contains('.'));
            }
        }
        assert(rest[call.len() as int] == '.');
        lemma_find_char(rest, '.', call.len() as int);
        assert(rest.subrange(0, call.len() as int) =~= call);
        assert(rest.subrange(call.len() as int + 1, rest.len() as int) =~= fields[f]);
    }
    assert(fields[0] == "ids"@);
    assert(fields[1] == "enabledIds"@);
    reveal_strlit("ids");
    reveal_strlit("enabledIds");
    assert("enabledIds"@.len() != "ids"@.len());
}

fn invalid_read_reference(reference: &[char]) -> (r: ApiError)
    ensures
        check_outcome(Err::<(), ApiError>(r), spec_invalid_reference(reference@)),
{
    let mut message = chars_of("invalid read result reference: ");
    crate::text::append_chars(&mut message, reference);
    bad_request_owned(message.as_slice())
}

fn bad_request_owned(message: &[char]) -> (r: ApiError)
    ensures
        r.status == BAD_REQUEST,
        r.body.code == ApiErrorCode::InvalidQuery,
        r.body.message@ == message@,
        r.body.details@ == "{}"@,
{
    ApiError::new(BAD_REQUEST, ApiErrorCode::InvalidQuery, crate::text::string_of(message))
}

fn lookup_result<'a>(results: &'a Vec<(String, ReadResult)>, id: &[char]) -> (r: Option<
    &'a ReadResult,
>)
    ensures
        match spec_lookup_result(results@, id@) {
            Some(x) => r matches Some(y) && *y == x,
            None => r is None,
        },
{
    let mut i: usize = 0;
    assert(results@.subrange(0, results@.len() as int) =~= results@);
    while i < results.len()
        invariant
            i <= results@.len(),
            spec_lookup_result(results@, id@) == spec_lookup_result(
                results@.subrange(i as int, results@.len() as int),
                id@,
            ),
        decreases results@.len() - i,
    {
        proof {
            let s = results@.subrange(i as int, results@.len() as int);
            assert(s.drop_first() =~= results@.subrange(i + 1, results@.len() as int));
            assert(s[0] == results@[i as int]);
        }
        let key = chars_of(results[i].0.as_str());
        if crate::text::chars_eq(key.as_slice(), id) {
            return Some(&results[i].1);
        }
        i = i + 1;
    }
    None
}

/// Resolve a result reference against the results of the calls run so far.
pub fn resolve_account_id_reference(results: &Vec<(String, ReadResult)>, reference: &str) -> (r:
    Result<Vec<String>, ApiError>)
    ensures
        match spec_resolve_reference(results@, reference@) {
            Ok(ids) => r matches Ok(v) && v@ == ids,
            Err(e) => check_outcome(r, e),
        },
{
    let v = chars_of(reference);
    if v.len() == 0 || v[0] != '#' {
        return Err(invalid_read_reference(v.as_slice()));
    }
    let rest = crate::text::slice_chars(v.as_slice(), 1, v.len());
    assert(rest@ =~= reference@.drop_first());
    let mut k: usize = 0;
    while k < rest.len() && rest[k] != '.'
        invariant
            k <= rest@.len(),
            forall|j: int| 0 <= j < k ==> #[trigger] rest@[j] != '.',
        decreases rest@.len() - k,
    {
        k = k + 1;
    }
    proof {
        lemma_find_char(rest@, '.', k as int);
    }
    if k == rest.len() {
        return Err(invalid_read_reference(rest.as_slice()));
    }
    let call_id = crate::text::slice_chars(rest.as_slice(), 0, k);
    let field = crate::text::slice_chars(rest.as_slice(), k + 1, rest.len());
    match lookup_result(results, call_id.as_slice()) {
        Some(ReadResult::AccountList(accounts)) => {
            let ids = chars_of("ids");
            let enabled = chars_of("enabledIds");
            if crate::text::chars_eq(field.as_slice(), ids.as_slice()) {
                Ok(dup_strings(&accounts.ids))
            } else if crate::text::chars_eq(field.as_slice(), enabled.as_slice()) {
                Ok(dup_strings(&accounts.enabled_ids))
            } else {
                Err(invalid_read_reference(rest.as_slice()))
            }
        },
        _ => Err(invalid_read_reference(rest.as_slice())),
    }
}

/// The accounts a call selects, for an explicit list or a result reference.
pub fn resolve_selected_account_ids(
    results: &Vec<(String, ReadResult)>,
    selector: &AccountIdSelector,
) -> (r: Result<Vec<String>, ApiError>)
    ensures
        match selector {
            AccountIdSelector::Explicit(ids) => r matches Ok(v) && v@ == ids@,
            AccountIdSelector::Reference(reference) => match spec_resolve_reference(
                results@,
                reference@,
            ) {
                Ok(ids) => r matches Ok(v) && v@ == ids,
                Err(e) => check_outcome(r, e),
            },
        },
{
    match selector {
        AccountIdSelector::Explicit(ids) => Ok(dup_strings(ids)),
        AccountIdSelector::Reference(reference) => resolve_account_id_reference(
            results,
            reference.as_str(),
        ),
    }
}

} // verus!
