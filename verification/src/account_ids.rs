//! Allocating a free id for a new account.
use vstd::prelude::*;

use crate::errors::{
    internal_error, spec_api_code_of_kind, spec_service_error_status, ApiError, ServiceError,
    INTERNAL_SERVER_ERROR,
};
use crate::text::{chars_of, push_decimal, spec_decimal, string_of};

verus! {

/// The `attempt`-th candidate id for `seed`: the seed itself first, then
/// `{seed}-2`, `{seed}-3`, ….
pub open spec fn spec_candidate(seed: Seq<char>, attempt: nat) -> Seq<char> {
    if attempt < 2 {
        seed
    } else {
        seed + "-"@ + spec_decimal(attempt)
    }
}

fn candidate(seed: &str, attempt: u64) -> (r: String)
    ensures
        r@ == spec_candidate(seed@, attempt as nat),
{
    if attempt < 2 {
        return string_of(chars_of(seed).as_slice());
    }
    let mut v = chars_of(seed);
    v.push('-');
    push_decimal(&mut v, attempt);
    proof {
        reveal_strlit("-");
    }
    assert(v@ =~= seed@ + "-"@ + spec_decimal(attempt as nat));
    string_of(v.as_slice())
}

pub const IDS_EXHAUSTED_MESSAGE: &'static str = "no free account id";

/// The lookup reported the `j`-th candidate for `seed` taken.
pub open spec fn spec_reported_taken<F: Fn(&String) -> Result<bool, ServiceError>>(
    is_taken: &F,
    seed: Seq<char>,
    j: nat,
) -> bool {
    exists|c: String|
        c@ == spec_candidate(seed, j) && #[trigger] is_taken.ensures(
            (&c,),
            Ok::<bool, ServiceError>(true),
        )
}

/// The lookup reported every candidate before the `k`-th taken.
pub open spec fn spec_taken_before<F: Fn(&String) -> Result<bool, ServiceError>>(
    is_taken: &F,
    seed: Seq<char>,
    k: nat,
) -> bool {
    forall|j: nat| 1 <= j < k ==> #[trigger] spec_reported_taken(is_taken, seed, j)
}

/// `e` is the API error of lookup failure `se`.
pub open spec fn spec_lookup_error(e: ApiError, se: ServiceError) -> bool {
    &&& e.status == spec_service_error_status(se.kind)
    &&& e.body.code == spec_api_code_of_kind(se.kind)
    &&& e.body.message == se.message
}

/// Find a free account id from `seed`, trying `seed`, then `seed-2`,
/// `seed-3`, … until `is_taken` reports one free. A lookup failure is
/// returned as its API error. Every candidate before the returned one (or
/// before the failed lookup) was reported taken; the internal error comes
/// only once every candidate up to `u64::MAX` was reported taken.
pub fn allocate_unique_account_id<F: Fn(&String) -> Result<bool, ServiceError>>(
    is_taken: &F,
    seed: &str,
) -> (r: Result<String, ApiError>)
    requires
        forall|c: &String| #[trigger] is_taken.requires((c,)),
    ensures
        r matches Ok(id) ==> exists|k: nat|
            1 <= k && id@ == #[trigger] spec_candidate(seed@, k) && is_taken.ensures(
                (&id,),
                Ok::<bool, ServiceError>(false),
            ) && spec_taken_before(is_taken, seed@, k),
        r matches Err(e) ==> {
            ||| exists|k: nat, c: String, se: ServiceError|
                #![trigger is_taken.ensures((&c,), Err::<bool, ServiceError>(se)), spec_taken_before(is_taken, seed@, k)]
                1 <= k && c@ == spec_candidate(seed@, k) && is_taken.ensures(
                    (&c,),
                    Err::<bool, ServiceError>(se),
                ) && spec_lookup_error(e, se) && spec_taken_before(is_taken, seed@, k)
            ||| e.status == INTERNAL_SERVER_ERROR && e.body.message@ == IDS_EXHAUSTED_MESSAGE@
                && spec_taken_before(is_taken, seed@, u64::MAX as nat + 1)
        },
{
    let mut attempt: u64 = 1;
    let mut current = candidate(seed, attempt);
    loop
        invariant
            1 <= attempt,
            current@ == spec_candidate(seed@, attempt as nat),
            forall|c: &String| #[trigger] is_taken.requires((c,)),
            spec_taken_before(is_taken, seed@, attempt as nat),
        decreases u64::MAX - attempt,
    {
        match is_taken(&current) {
            Err(se) => {
                let e = ApiError::from_service_error(se);
                assert(spec_lookup_error(e, se));
                return Err(e);
            },
            Ok(false) => {
                return Ok(current);
            },
            Ok(true) => {
                assert(spec_reported_taken(is_taken, seed@, attempt as nat));
                if attempt == u64::MAX {
                    let message = crate::errors::owned(IDS_EXHAUSTED_MESSAGE);
                    return Err(internal_error(message));
                }
                attempt = attempt + 1;
                current = candidate(seed, attempt);
            },
        }
    }
}

} // verus!
