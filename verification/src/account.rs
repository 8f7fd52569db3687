//! Plain-value models of the account configuration records.
use vstd::prelude::*;

use crate::domain::{dup_opt_string, dup_strings};

verus! {

/// Which protocol family an account syncs over.
#[derive(Clone, Copy, Debug, PartialEq, Eq, Structural)]
pub enum AccountDriver {
    Jmap,
    ImapSmtp,
}

/// Where a secret is kept.
#[derive(Clone, Copy, Debug, PartialEq, Eq, Structural)]
pub enum SecretKind {
    /// An environment variable named by the reference key.
    Env,
    /// An OS-keyring entry named by the reference key.
    Os,
}

/// A reference to a stored secret.
#[derive(Debug, PartialEq, Eq)]
pub struct SecretRef {
    pub kind: SecretKind,
    pub key: String,
}

impl SecretRef {
    pub fn duplicate(&self) -> (r: Self)
        ensures
            r == *self,
    {
        SecretRef { kind: self.kind, key: self.key.clone() }
    }
}

pub fn dup_opt_secret_ref(s: &Option<SecretRef>) -> (r: Option<SecretRef>)
    ensures
        r == *s,
{
    match s {
        Some(v) => Some(v.duplicate()),
        None => None,
    }
}

/// The provider a transport targets, by its identifier.
#[derive(Debug, PartialEq, Eq)]
pub struct ProviderHint(pub String);

/// The authentication scheme of a transport, by its identifier.
#[derive(Debug, PartialEq, Eq)]
pub struct ProviderAuthKind(pub String);

/// An IMAP endpoint.
#[derive(Debug, PartialEq, Eq)]
pub struct ImapTransportSettings {
    pub host: String,
    pub port: u16,
}

/// An SMTP endpoint.
#[derive(Debug, PartialEq, Eq)]
pub struct SmtpTransportSettings {
    pub host: String,
    pub port: u16,
}

impl ProviderHint {
    pub fn duplicate(&self) -> (r: Self)
        ensures
            r == *self,
    {
        ProviderHint(self.0.clone())
    }
}

impl ProviderAuthKind {
    pub fn duplicate(&self) -> (r: Self)
        ensures
            r == *self,
    {
        ProviderAuthKind(self.0.clone())
    }
}

impl ImapTransportSettings {
    pub fn duplicate(&self) -> (r: Self)
        ensures
            r == *self,
    {
        ImapTransportSettings { host: self.host.clone(), port: self.port }
    }
}

impl SmtpTransportSettings {
    pub fn duplicate(&self) -> (r: Self)
        ensures
            r == *self,
    {
        SmtpTransportSettings { host: self.host.clone(), port: self.port }
    }
}

pub fn dup_opt_imap(s: &Option<ImapTransportSettings>) -> (r: Option<ImapTransportSettings>)
    ensures
        r == *s,
{
    match s {
        Some(v) => Some(v.duplicate()),
        None => None,
    }
}

pub fn dup_opt_smtp(s: &Option<SmtpTransportSettings>) -> (r: Option<SmtpTransportSettings>)
    ensures
        r == *s,
{
    match s {
        Some(v) => Some(v.duplicate()),
        None => None,
    }
}

/// An account's transport configuration.
#[derive(Debug)]
pub struct AccountTransportSettings {
    pub provider: ProviderHint,
    pub auth: ProviderAuthKind,
    pub base_url: Option<String>,
    pub username: Option<String>,
    pub imap: Option<ImapTransportSettings>,
    pub smtp: Option<SmtpTransportSettings>,
    pub secret_ref: Option<SecretRef>,
}

/// An account's visual identity.
#[derive(Debug, PartialEq, Eq)]
pub enum AccountAppearance {
    Initials { initials: String, color_hue: u16 },
    Image { image_id: String, initials: String, color_hue: u16 },
}

impl AccountAppearance {
    pub fn duplicate(&self) -> (r: Self)
        ensures
            r == *self,
    {
        match self {
            AccountAppearance::Initials { initials, color_hue } => AccountAppearance::Initials {
                initials: initials.clone(),
                color_hue: *color_hue,
            },
            AccountAppearance::Image { image_id, initials, color_hue } => AccountAppearance::Image {
                image_id: image_id.clone(),
                initials: initials.clone(),
                color_hue: *color_hue,
            },
        }
    }
}

/// A configured account.
#[derive(Debug)]
pub struct AccountSettings {
    pub id: String,
    pub name: String,
    pub full_name: Option<String>,
    pub email_patterns: Vec<String>,
    pub driver: AccountDriver,
    pub enabled: bool,
    pub appearance: Option<AccountAppearance>,
    pub transport: AccountTransportSettings,
    pub created_at: String,
    pub updated_at: String,
}

/// The runtime overview of an account, as the API serves it.
#[derive(Debug)]
pub struct AccountOverview {
    pub id: String,
    pub name: String,
    pub enabled: bool,
    pub appearance: AccountAppearance,
}

} // verus!
