//! The live gateway an account's message endpoints need.
use vstd::prelude::*;

use crate::errors::{
    spec_api_code_of_kind, spec_service_error_status, ApiError, ServiceError, ServiceErrorKind,
};
use crate::ledger::concat;

verus! {

/// The message of the service error raised when an account has no live gateway.
pub open spec fn spec_gateway_unavailable_message(account_id: Seq<char>) -> Seq<char> {
    "gateway unavailable: "@ + account_id
}

/// The account's live gateway, or the service error `GatewayUnavailable`
/// (503) naming the account.
pub fn require_live_gateway<G>(gateway: Option<G>, account_id: &str) -> (r: Result<G, ApiError>)
    ensures
        gateway is Some <==> r is Ok,
        r matches Ok(g) ==> gateway == Some(g),
        r matches Err(e) ==> {
            &&& e.status == spec_service_error_status(ServiceErrorKind::GatewayUnavailable)
            &&& e.body.code == spec_api_code_of_kind(ServiceErrorKind::GatewayUnavailable)
            &&& e.body.message@ == spec_gateway_unavailable_message(account_id@)
            &&& e.body.details@ == "{}"@
        },
{
    match gateway {
        Some(g) => Ok(g),
        None => Err(
            ApiError::from_service_error(
                ServiceError {
                    kind: ServiceErrorKind::GatewayUnavailable,
                    message: concat("gateway unavailable: ", account_id),
                },
            ),
        ),
    }
}

} // verus!
