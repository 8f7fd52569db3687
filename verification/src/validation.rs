//! Validation of account settings before they are saved.
use vstd::prelude::*;

use crate::account::{AccountDriver, AccountSettings};
use crate::appearance::{spec_appearance_check, validate_account_appearance};
use crate::errors::{bad_request, check_outcome, ApiError, ApiErrorCode, BAD_REQUEST};
use crate::ledger::concat;
use crate::text::{chars_of, is_blank, spec_is_blank, spec_trim, trim_chars};

verus! {

pub const ID_MESSAGE: &'static str = "account id is required";

pub const NAME_MESSAGE: &'static str = "account name is required";

pub const PATTERN_MESSAGE: &'static str = "email patterns must not be blank";

pub const JMAP_URL_MESSAGE: &'static str = "JMAP base URL is required";

pub const JMAP_SECRET_MESSAGE: &'static str =
    "JMAP secret must be configured before saving the account";

pub const IMAP_USERNAME_MESSAGE: &'static str = "IMAP/SMTP username is required";

pub const IMAP_SECRET_MESSAGE: &'static str =
    "IMAP/SMTP secret must be configured before saving the account";

pub const SENDER_MESSAGE: &'static str =
    "IMAP/SMTP accounts require a concrete sender email pattern";

/// A concrete email pattern: after trimming, non-empty, no `*`, and a
/// non-empty local part and domain around its first `@`.
pub open spec fn spec_is_concrete_email(p: Seq<char>) -> bool {
    let t = spec_trim(p);
    &&& t.len() > 0
    &&& !t.contains('*')
    &&& exists|i: int|
        0 < i < t.len() - 1 && t[i] == '@' && forall|j: int| 0 <= j < i ==> #[trigger] t[j] != '@'
}

pub fn is_concrete_email_pattern(pattern: &str) -> (r: bool)
    ensures
        r == spec_is_concrete_email(pattern@),
{
    let v = chars_of(pattern);
    let t = trim_chars(v.as_slice());
    if t.len() == 0 {
        return false;
    }
    let mut i: usize = 0;
    while i < t.len()
        invariant
            i <= t@.len(),
            t@ == spec_trim(pattern@),
            forall|j: int| 0 <= j < i ==> #[trigger] t@[j] != '*',
        decreases t@.len() - i,
    {
        if t[i] == '*' {
            assert(t@.contains('*'));
            return false;
        }
        i = i + 1;
    }
    assert(!t@.contains('*'));
    let mut a: usize = 0;
    while a < t.len() && t[a] != '@'
        invariant
            a <= t@.len(),
            forall|j: int| 0 <= j < a ==> #[trigger] t@[j] != '@',
        decreases t@.len() - a,
    {
        a = a + 1;
    }
    proof {
        if exists|k: int|
            0 < k < t@.len() - 1 && t@[k] == '@' && forall|j: int|
                0 <= j < k ==> #[trigger] t@[j] != '@' {
            let k = choose|k: int|
                0 < k < t@.len() - 1 && t@[k] == '@' && forall|j: int|
                    0 <= j < k ==> #[trigger] t@[j] != '@';
            if a < k {
                assert(t@[a as int] == '@');
            }
            if k < a {
                assert(t@[k] != '@');
            }
        }
    }
    a < t.len() && a > 0 && a + 1 < t.len()
}

/// Some pattern is concrete.
pub open spec fn spec_has_concrete_sender(a: AccountSettings) -> bool {
    exists|i: int| 0 <= i < a.email_patterns@.len() && spec_is_concrete_email(
        #[trigger] a.email_patterns@[i]@,
    )
}

fn has_concrete_sender_email(account: &AccountSettings) -> (r: bool)
    ensures
        r == spec_has_concrete_sender(*account),
{
    let mut i: usize = 0;
    while i < account.email_patterns.len()
        invariant
            i <= account.email_patterns@.len(),
            forall|j: int|
                0 <= j < i ==> !spec_is_concrete_email(#[trigger] account.email_patterns@[j]@),
        decreases account.email_patterns@.len() - i,
    {
        if is_concrete_email_pattern(account.email_patterns[i].as_str()) {
            return true;
        }
        i = i + 1;
    }
    false
}

fn any_blank(v: &Vec<String>) -> (r: bool)
    ensures
        r == exists|i: int| 0 <= i < v@.len() && spec_is_blank(#[trigger] v@[i]@),
{
    let mut i: usize = 0;
    while i < v.len()
        invariant
            i <= v@.len(),
            forall|j: int| 0 <= j < i ==> !spec_is_blank(#[trigger] v@[j]@),
        decreases v@.len() - i,
    {
        if is_blank(v[i].as_str()) {
            return true;
        }
        i = i + 1;
    }
    false
}

/// An optional string that is present and non-blank.
pub open spec fn spec_present(o: Option<String>) -> bool {
    o matches Some(s) && !spec_is_blank(s@)
}

fn present(o: &Option<String>) -> (r: bool)
    ensures
        r == spec_present(*o),
{
    match o {
        Some(s) => !is_blank(s.as_str()),
        None => false,
    }
}

/// The first fault of an endpoint labelled `label`: missing, blank host, or
/// port zero.
pub open spec fn spec_endpoint_check(label: Seq<char>, endpoint: Option<(Seq<char>, u16)>) -> Option<
    (ApiErrorCode, Seq<char>),
> {
    match endpoint {
        None => Some((ApiErrorCode::InvalidAccount, label + " endpoint is required"@)),
        Some((host, port)) => if spec_is_blank(host) {
            Some((ApiErrorCode::InvalidAccount, label + " host is required"@))
        } else if port == 0 {
            Some((ApiErrorCode::InvalidAccount, label + " port must be greater than zero"@))
        } else {
            None
        },
    }
}

fn labelled_error(label: &str, suffix: &str) -> (r: ApiError)
    ensures
        r.status == BAD_REQUEST,
        r.body.code == ApiErrorCode::InvalidAccount,
        r.body.message@ == label@ + suffix@,
        r.body.details@ == "{}"@,
{
    ApiError::new(BAD_REQUEST, ApiErrorCode::InvalidAccount, concat(label, suffix))
}

fn validate_endpoint(label: &str, endpoint: Option<(&String, u16)>) -> (r: Result<(), ApiError>)
    ensures
        check_outcome(
            r,
            spec_endpoint_check(
                label@,
                match endpoint {
                    Some((h, p)) => Some((h@, p)),
                    None => None,
                },
            ),
        ),
{
    match endpoint {
        None => Err(labelled_error(label, " endpoint is required")),
        Some((host, port)) => {
            if is_blank(host.as_str()) {
                return Err(labelled_error(label, " host is required"));
            }
            if port == 0 {
                return Err(labelled_error(label, " port must be greater than zero"));
            }
            Ok(())
        },
    }
}

/// The first rule an account's settings break.
pub open spec fn spec_account_check(a: AccountSettings) -> Option<(ApiErrorCode, Seq<char>)> {
    let imap = match a.transport.imap {
        Some(e) => Some((e.host@, e.port)),
        None => None,
    };
    let smtp = match a.transport.smtp {
        Some(e) => Some((e.host@, e.port)),
        None => None,
    };
    if spec_is_blank(a.id@) {
        Some((ApiErrorCode::InvalidAccount, ID_MESSAGE@))
    } else if spec_is_blank(a.name@) {
        Some((ApiErrorCode::InvalidAccount, NAME_MESSAGE@))
    } else if exists|i: int|
        0 <= i < a.email_patterns@.len() && spec_is_blank(#[trigger] a.email_patterns@[i]@) {
        Some((ApiErrorCode::InvalidAccount, PATTERN_MESSAGE@))
    } else if a.driver == AccountDriver::Jmap && !spec_present(a.transport.base_url) {
        Some((ApiErrorCode::AccountBaseUrlRequired, JMAP_URL_MESSAGE@))
    } else if a.driver == AccountDriver::Jmap && a.transport.secret_ref is None {
        Some((ApiErrorCode::AccountSecretRequired, JMAP_SECRET_MESSAGE@))
    } else if a.driver == AccountDriver::ImapSmtp && !spec_present(a.transport.username) {
        Some((ApiErrorCode::AccountUsernameRequired, IMAP_USERNAME_MESSAGE@))
    } else if a.driver == AccountDriver::ImapSmtp && a.transport.secret_ref is None {
        Some((ApiErrorCode::AccountSecretRequired, IMAP_SECRET_MESSAGE@))
    } else if a.driver == AccountDriver::ImapSmtp && spec_endpoint_check("IMAP"@, imap) is Some {
        spec_endpoint_check("IMAP"@, imap)
    } else if a.driver == AccountDriver::ImapSmtp && spec_endpoint_check("SMTP"@, smtp) is Some {
        spec_endpoint_check("SMTP"@, smtp)
    } else if a.driver == AccountDriver::ImapSmtp && !spec_has_concrete_sender(a) {
        Some((ApiErrorCode::AccountSenderRequired, SENDER_MESSAGE@))
    } else {
        match a.appearance {
            Some(app) => spec_appearance_check(app),
            None => None,
        }
    }
}

/// The rules account settings must meet before they are saved, in the
/// order they are checked; the first rule broken refuses the settings with
/// its code and message:
/// - a non-blank id and name, and no blank email pattern;
/// - a JMAP account needs a non-blank base URL, then a secret reference;
/// - an IMAP/SMTP account needs a non-blank username, then a secret
///   reference, then an IMAP and an SMTP endpoint (each present, with a
///   non-blank host and a non-zero port), then a concrete sender pattern.
/// Settings breaking none of these are judged by their appearance alone.
pub proof fn law_account_settings_rules(a: AccountSettings)
    ensures
        ({
            let r = spec_account_check(a);
            let invalid = |m: Seq<char>| r == Some((ApiErrorCode::InvalidAccount, m));
            let base = !spec_is_blank(a.id@) && !spec_is_blank(a.name@) && forall|i: int|
                0 <= i < a.email_patterns@.len() ==> !spec_is_blank(#[trigger] a.email_patterns@[i]@);
            let t = a.transport;
            let jmap = base && a.driver == AccountDriver::Jmap;
            let url_ok = t.base_url is Some && !spec_is_blank(t.base_url->0@);
            let imap_smtp = base && a.driver == AccountDriver::ImapSmtp;
            let user_ok = t.username is Some && !spec_is_blank(t.username->0@);
            let creds = imap_smtp && user_ok && t.secret_ref is Some;
            let imap_ok = t.imap is Some && !spec_is_blank(t.imap->0.host@) && t.imap->0.port != 0;
            let smtp_ok = t.smtp is Some && !spec_is_blank(t.smtp->0.host@) && t.smtp->0.port != 0;
            let appearance = match a.appearance {
                Some(app) => spec_appearance_check(app),
                None => None,
            };
            &&& spec_is_blank(a.id@) ==> invalid(ID_MESSAGE@)
            &&& !spec_is_blank(a.id@) && spec_is_blank(a.name@) ==> invalid(NAME_MESSAGE@)
            &&& !spec_is_blank(a.id@) && !spec_is_blank(a.name@) && (exists|i: int|
                0 <= i < a.email_patterns@.len() && spec_is_blank(#[trigger] a.email_patterns@[i]@))
                ==> invalid(PATTERN_MESSAGE@)
            &&& jmap && !url_ok ==> r == Some(
                (ApiErrorCode::AccountBaseUrlRequired, JMAP_URL_MESSAGE@),
            )
            &&& jmap && url_ok && t.secret_ref is None ==> r == Some(
                (ApiErrorCode::AccountSecretRequired, JMAP_SECRET_MESSAGE@),
            )
            &&& jmap && url_ok && t.secret_ref is Some ==> r == appearance
            &&& imap_smtp && !user_ok ==> r == Some(
                (ApiErrorCode::AccountUsernameRequired, IMAP_USERNAME_MESSAGE@),
            )
            &&& imap_smtp && user_ok && t.secret_ref is None ==> r == Some(
                (ApiErrorCode::AccountSecretRequired, IMAP_SECRET_MESSAGE@),
            )
            &&& creds && t.imap is None ==> invalid("IMAP"@ + " endpoint is required"@)
            &&& creds && t.imap is Some && spec_is_blank(t.imap->0.host@) ==> invalid(
                "IMAP"@ + " host is required"@,
            )
            &&& creds && t.imap is Some && !spec_is_blank(t.imap->0.host@) && t.imap->0.port == 0
                ==> invalid("IMAP"@ + " port must be greater than zero"@)
            &&& creds && imap_ok && t.smtp is None ==> invalid("SMTP"@ + " endpoint is required"@)
            &&& creds && imap_ok && t.smtp is Some && spec_is_blank(t.smtp->0.host@) ==> invalid(
                "SMTP"@ + " host is required"@,
            )
            &&& creds && imap_ok && t.smtp is Some && !spec_is_blank(t.smtp->0.host@)
                && t.smtp->0.port == 0 ==> invalid("SMTP"@ + " port must be greater than zero"@)
            &&& creds && imap_ok && smtp_ok && !(exists|i: int|
                0 <= i < a.email_patterns@.len() && spec_is_concrete_email(
                    #[trigger] a.email_patterns@[i]@,
                )) ==> r == Some((ApiErrorCode::AccountSenderRequired, SENDER_MESSAGE@))
            &&& creds && imap_ok && smtp_ok && (exists|i: int|
                0 <= i < a.email_patterns@.len() && spec_is_concrete_email(
                    #[trigger] a.email_patterns@[i]@,
                )) ==> r == appearance
        }),
{
}

/// A concrete email pattern is, once trimmed, a non-empty local part, an
/// `@`, and a non-empty domain, with no `*` anywhere and no `@` in the
/// local part.
pub proof fn law_concrete_email_shape(p: Seq<char>)
    ensures
        spec_is_concrete_email(p) <==> (!spec_trim(p).contains('*') && exists|local: Seq<char>, domain: Seq<char>|
            #![trigger local + seq!['@'] + domain]
            spec_trim(p) == local + seq!['@'] + domain && local.len() > 0 && domain.len() > 0
                && !local.contains('@')),
{
    let t = spec_trim(p);
    if spec_is_concrete_email(p) {
        let i = choose|i: int|
            0 < i < t.len() - 1 && t[i] == '@' && forall|j: int| 0 <= j < i ==> #[trigger] t[j] != '@';
        let local = t.subrange(0, i);
        let domain = t.subrange(i + 1, t.len() as int);
        assert(t =~= local + seq!['@'] + domain);
        assert(!local.contains('@')) by {
            if local.contains('@') {
                let k = choose|k: int| 0 <= k < local.len() && local[k] == '@';
                assert(t[k] == local[k]);
            }
        }
    }
    if !t.contains('*') && exists|local: Seq<char>, domain: Seq<char>|
        #![trigger local + seq!['@'] + domain]
        t == local + seq!['@'] + domain && local.len() > 0 && domain.len() > 0 && !local.contains('@') {
        let (local, domain) = choose|local: Seq<char>, domain: Seq<char>|
            #![trigger local + seq!['@'] + domain]
            t == local + seq!['@'] + domain && local.len() > 0 && domain.len() > 0 && !local.contains('@');
        let i = local.len() as int;
        assert(t[i] == '@');
        assert forall|j: int| 0 <= j < i implies #[trigger] t[j] != '@' by {
            assert(t[j] == local[j]);
            if t[j] == '@' {
                assert(local.contains('@'));
            }
        }
        assert(0 < i < t.len() - 1);
    }
}

/// Validate required fields: id and name, non-blank patterns; base URL and a
/// secret for JMAP; username, secret, both endpoints and a concrete sender
/// pattern for IMAP/SMTP; and the appearance.
pub fn validate_account_settings(account: &AccountSettings) -> (r: Result<(), ApiError>)
    ensures
        check_outcome(r, spec_account_check(*account)),
{
    if is_blank(account.id.as_str()) {
        return Err(bad_request(ApiErrorCode::InvalidAccount, ID_MESSAGE));
    }
    if is_blank(account.name.as_str()) {
        return Err(bad_request(ApiErrorCode::InvalidAccount, NAME_MESSAGE));
    }
    if any_blank(&account.email_patterns) {
        return Err(bad_request(ApiErrorCode::InvalidAccount, PATTERN_MESSAGE));
    }
    if account.driver == AccountDriver::Jmap {
        if !present(&account.transport.base_url) {
            return Err(bad_request(ApiErrorCode::AccountBaseUrlRequired, JMAP_URL_MESSAGE));
        }
        if account.transport.secret_ref.is_none() {
            return Err(bad_request(ApiErrorCode::AccountSecretRequired, JMAP_SECRET_MESSAGE));
        }
    }
    if account.driver == AccountDriver::ImapSmtp {
        if !present(&account.transport.username) {
            return Err(
                bad_request(ApiErrorCode::AccountUsernameRequired, IMAP_USERNAME_MESSAGE),
            );
        }
        if account.transport.secret_ref.is_none() {
            return Err(bad_request(ApiErrorCode::AccountSecretRequired, IMAP_SECRET_MESSAGE));
        }
        let imap = match &account.transport.imap {
            Some(e) => Some((&e.host, e.port)),
            None => None,
        };
        validate_endpoint("IMAP", imap)?;
        let smtp = match &account.transport.smtp {
            Some(e) => Some((&e.host, e.port)),
            None => None,
        };
        validate_endpoint("SMTP", smtp)?;
        if !has_concrete_sender_email(account) {
            return Err(bad_request(ApiErrorCode::AccountSenderRequired, SENDER_MESSAGE));
        }
    }
    if let Some(appearance) = &account.appearance {
        validate_account_appearance(appearance)?;
    }
    Ok(())
}

} // verus!
