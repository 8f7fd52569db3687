//! OAuth start-request validation and the loopback callback pages.
use vstd::prelude::*;

use crate::errors::{bad_request, check_outcome, owned, ApiError, ApiErrorCode, BAD_REQUEST};
use crate::requests::OAuthCallbackQuery;
use crate::text::{is_blank, spec_is_blank, spec_trim, trim_str};

verus! {

pub const CLIENT_ID_MESSAGE: &'static str = "clientId is required";

pub const REDIRECT_URI_MESSAGE: &'static str = "redirectUri is required";

pub const OAUTH_SUCCESS_HTML: &'static str =
    "<!doctype html><meta charset=\"utf-8\"><title>Posthaste OAuth</title><p>Authentication complete. You can return to Posthaste.</p>";

pub const OAUTH_PROCESSING_HTML: &'static str =
    "<!doctype html><meta charset=\"utf-8\"><meta http-equiv=\"refresh\" content=\"1\"><title>Posthaste OAuth</title><p>Authentication is still completing. This page will refresh automatically.</p>";

/// The page served once the OAuth flow completed.
pub fn oauth_success_html() -> (r: String)
    ensures
        r@ == OAUTH_SUCCESS_HTML@,
{
    owned(OAUTH_SUCCESS_HTML)
}

/// The self-refreshing page served while the OAuth flow is still completing.
pub fn oauth_processing_html() -> (r: String)
    ensures
        r@ == OAUTH_PROCESSING_HTML@,
{
    owned(OAUTH_PROCESSING_HTML)
}

/// A blank client id or redirect URI is refused (client id first).
pub open spec fn spec_oauth_start_check(client_id: Seq<char>, redirect_uri: Seq<char>) -> Option<
    (ApiErrorCode, Seq<char>),
> {
    if spec_is_blank(client_id) {
        Some((ApiErrorCode::InvalidOauthRequest, CLIENT_ID_MESSAGE@))
    } else if spec_is_blank(redirect_uri) {
        Some((ApiErrorCode::InvalidOauthRequest, REDIRECT_URI_MESSAGE@))
    } else {
        None
    }
}

/// Trim the OAuth start fields: client id and redirect URI are required; a
/// blank client secret is dropped.
pub fn validate_oauth_start_request<'a>(
    client_id: &'a str,
    client_secret: Option<&'a str>,
    redirect_uri: &'a str,
) -> (r: Result<(&'a str, Option<&'a str>, &'a str), ApiError>)
    ensures
        check_outcome(r, spec_oauth_start_check(client_id@, redirect_uri@)),
        r matches Ok((id, secret, uri)) ==> {
            &&& id@ == spec_trim(client_id@)
            &&& uri@ == spec_trim(redirect_uri@)
            &&& match client_secret {
                Some(s) => if spec_is_blank(s@) {
                    secret is None
                } else {
                    secret matches Some(t) && t@ == spec_trim(s@)
                },
                None => secret is None,
            }
        },
{
    let id = trim_str(client_id);
    if is_blank(client_id) {
        return Err(bad_request(ApiErrorCode::InvalidOauthRequest, CLIENT_ID_MESSAGE));
    }
    let uri = trim_str(redirect_uri);
    if is_blank(redirect_uri) {
        return Err(bad_request(ApiErrorCode::InvalidOauthRequest, REDIRECT_URI_MESSAGE));
    }
    let secret = match client_secret {
        Some(s) => {
            if is_blank(s) {
                None
            } else {
                Some(trim_str(s))
            }
        },
        None => None,
    };
    Ok((id, secret, uri))
}


pub const MISSING_CODE_MESSAGE: &'static str = "OAuth callback is missing code";

pub const UNKNOWN_STATE_MESSAGE: &'static str = "OAuth callback state is unknown or already used";

pub const PROVIDER_WITHOUT_OAUTH_MESSAGE: &'static str = "provider does not support built-in OAuth";

pub const ACCOUNT_PROVIDER_WITHOUT_OAUTH_MESSAGE: &'static str =
    "account provider does not support built-in OAuth";

/// What the loopback callback query is refused for, if anything: a provider
/// error (reported with its description when there is one), then a missing
/// or blank code.
pub open spec fn spec_callback_check(query: OAuthCallbackQuery) -> Option<(ApiErrorCode, Seq<char>)> {
    match query.error {
        Some(e) => Some(
            (
                ApiErrorCode::OauthDenied,
                match query.error_description {
                    Some(d) => d@,
                    None => e@,
                },
            ),
        ),
        None => match query.code {
            Some(c) => if spec_is_blank(c@) {
                Some((ApiErrorCode::InvalidOauthCallback, MISSING_CODE_MESSAGE@))
            } else {
                None
            },
            None => Some((ApiErrorCode::InvalidOauthCallback, MISSING_CODE_MESSAGE@)),
        },
    }
}

/// The authorization code of a loopback callback, trimmed, or the 400 the
/// callback is refused with.
pub fn oauth_callback_code(query: &OAuthCallbackQuery) -> (r: Result<String, ApiError>)
    ensures
        check_outcome(r, spec_callback_check(*query)),
        r matches Ok(code) ==> (query.code matches Some(c) && code@ == spec_trim(c@)),
{
    if let Some(error) = &query.error {
        let message = match &query.error_description {
            Some(d) => d.clone(),
            None => error.clone(),
        };
        return Err(ApiError::new(BAD_REQUEST, ApiErrorCode::OauthDenied, message));
    }
    match &query.code {
        Some(c) => {
            if is_blank(c.as_str()) {
                return Err(bad_request(ApiErrorCode::InvalidOauthCallback, MISSING_CODE_MESSAGE));
            }
            Ok(owned(trim_str(c.as_str())))
        },
        None => Err(bad_request(ApiErrorCode::InvalidOauthCallback, MISSING_CODE_MESSAGE)),
    }
}

/// Where a flow stands when its callback arrives.
#[derive(Clone, Copy, Debug, PartialEq, Eq, Structural)]
pub enum OAuthFlowCompletion {
    /// Waiting for this callback: exchange the code.
    Pending,
    /// Another delivery of the callback is exchanging the code.
    Completing,
    /// The flow already completed.
    Completed,
    /// No flow has this state, or it was used.
    Unknown,
}

/// What a callback does given its flow: `Ok(None)` to exchange the code,
/// `Ok(Some(page))` to answer at once, or the 400 for an unknown state.
pub fn oauth_completion_response(completion: OAuthFlowCompletion) -> (r: Result<
    Option<String>,
    ApiError,
>)
    ensures
        completion == OAuthFlowCompletion::Pending ==> r matches Ok(None),
        completion == OAuthFlowCompletion::Completing ==> (r matches Ok(Some(page)) && page@
            == OAUTH_PROCESSING_HTML@),
        completion == OAuthFlowCompletion::Completed ==> (r matches Ok(Some(page)) && page@
            == OAUTH_SUCCESS_HTML@),
        completion == OAuthFlowCompletion::Unknown ==> check_outcome(
            r,
            Some((ApiErrorCode::InvalidOauthCallback, UNKNOWN_STATE_MESSAGE@)),
        ),
{
    match completion {
        OAuthFlowCompletion::Pending => Ok(None),
        OAuthFlowCompletion::Completing => Ok(Some(oauth_processing_html())),
        OAuthFlowCompletion::Completed => Ok(Some(oauth_success_html())),
        OAuthFlowCompletion::Unknown => Err(
            bad_request(ApiErrorCode::InvalidOauthCallback, UNKNOWN_STATE_MESSAGE),
        ),
    }
}

/// The OAuth profile of a provider, or the 400 a start request is refused
/// with when the provider has none: `InvalidProvider` when the provider was
/// named by the request, `InvalidAccount` when it is the account's.
pub fn require_oauth_profile<P>(profile: Option<P>, for_account: bool) -> (r: Result<P, ApiError>)
    ensures
        profile matches Some(p) ==> (r matches Ok(q) && q == p),
        profile is None ==> check_outcome(
            r,
            if for_account {
                Some((ApiErrorCode::InvalidAccount, ACCOUNT_PROVIDER_WITHOUT_OAUTH_MESSAGE@))
            } else {
                Some((ApiErrorCode::InvalidProvider, PROVIDER_WITHOUT_OAUTH_MESSAGE@))
            },
        ),
{
    match profile {
        Some(p) => Ok(p),
        None => {
            if for_account {
                Err(
                    bad_request(
                        ApiErrorCode::InvalidAccount,
                        ACCOUNT_PROVIDER_WITHOUT_OAUTH_MESSAGE,
                    ),
                )
            } else {
                Err(bad_request(ApiErrorCode::InvalidProvider, PROVIDER_WITHOUT_OAUTH_MESSAGE))
            }
        },
    }
}

} // verus!
