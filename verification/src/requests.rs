//! Request and response bodies of the `/v1` account, OAuth, mailbox and
//! compose endpoints.
use vstd::prelude::*;

use crate::account::{
    AccountAppearance, AccountDriver, ImapTransportSettings, ProviderAuthKind, ProviderHint,
    SmtpTransportSettings,
};

verus! {

/// Transport fields of account create/patch requests.
#[derive(Debug)]
pub struct AccountTransportRequest {
    pub provider: Option<ProviderHint>,
    pub auth: Option<ProviderAuthKind>,
    pub base_url: Option<String>,
    pub username: Option<String>,
    pub imap: Option<ImapTransportSettings>,
    pub smtp: Option<SmtpTransportSettings>,
}

impl AccountTransportRequest {
    /// An empty transport request (every field omitted).
    pub fn empty() -> (r: Self)
        ensures
            r.provider is None && r.auth is None && r.base_url is None && r.username is None
                && r.imap is None && r.smtp is None,
    {
        AccountTransportRequest {
            provider: None,
            auth: None,
            base_url: None,
            username: None,
            imap: None,
            smtp: None,
        }
    }
}

/// How a secret is mutated on account save.
#[derive(Clone, Copy, Debug, PartialEq, Eq, Structural)]
pub enum SecretWriteMode {
    Keep,
    Replace,
    Clear,
}

/// The secret instruction embedded in account create/patch requests.
#[derive(Debug)]
pub struct SecretWriteRequest {
    pub mode: SecretWriteMode,
    pub password: Option<String>,
}

/// Request body for `POST /v1/accounts/{account_id}/oauth/start`.
#[derive(Debug)]
pub struct StartOAuthRequest {
    pub client_id: String,
    pub client_secret: Option<String>,
    pub redirect_uri: String,
}

/// Request body for `POST /v1/oauth/start`.
#[derive(Debug)]
pub struct StartProviderOAuthRequest {
    pub provider: ProviderHint,
    pub client_id: String,
    pub client_secret: Option<String>,
    pub redirect_uri: String,
}

/// Response body of the OAuth start endpoints.
#[derive(Debug)]
pub struct StartOAuthResponse {
    pub authorization_url: String,
    pub state: String,
    pub redirect_uri: String,
}

/// Query parameters of the loopback OAuth redirect endpoint.
#[derive(Debug)]
pub struct OAuthCallbackQuery {
    pub state: String,
    pub code: Option<String>,
    pub error: Option<String>,
    pub error_description: Option<String>,
}

/// Request body for `POST /v1/accounts`.
#[derive(Debug)]
pub struct CreateAccountRequest {
    pub id: Option<String>,
    pub name: String,
    pub full_name: Option<String>,
    pub email_patterns: Vec<String>,
    pub driver: Option<AccountDriver>,
    pub enabled: Option<bool>,
    pub appearance: Option<AccountAppearance>,
    pub transport: AccountTransportRequest,
    pub secret: SecretWriteRequest,
}

/// Request body for `PATCH /v1/accounts/{account_id}`; omitted fields are
/// preserved.
#[derive(Debug)]
pub struct PatchAccountRequest {
    pub name: Option<String>,
    pub full_name: Option<String>,
    pub email_patterns: Option<Vec<String>>,
    pub driver: Option<AccountDriver>,
    pub enabled: Option<bool>,
    pub appearance: Option<AccountAppearance>,
    pub transport: Option<AccountTransportRequest>,
    pub secret: Option<SecretWriteRequest>,
}

/// Request body for `PATCH /v1/sources/{source_id}/mailboxes/{mailbox_id}`:
/// the outer `Option` tells an omitted `role` from an explicit `null`.
#[derive(Debug)]
pub struct PatchMailboxRequest {
    pub role: Option<Option<String>>,
}

/// Product API readiness response.
#[derive(Debug)]
pub struct HealthResponse {
    pub status: String,
}

/// Generic success response.
#[derive(Debug)]
pub struct OkResponse {
    pub ok: bool,
}

/// Response of `POST /v1/accounts/{id}/verify`.
#[derive(Debug)]
pub struct VerificationResponse {
    pub ok: bool,
    pub identity_email: Option<String>,
    pub push_supported: bool,
}

/// The readiness body: `{"status": "ok"}`.
pub fn health() -> (r: HealthResponse)
    ensures
        r.status@ == "ok"@,
{
    HealthResponse { status: crate::errors::owned("ok") }
}

} // verus!
