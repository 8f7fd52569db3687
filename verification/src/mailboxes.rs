//! Mailbox roles, the validation of a mailbox role patch, and the checks on
//! message listing requests.
use vstd::prelude::*;

use crate::errors::{bad_request, check_outcome, ApiError, ApiErrorCode};
use crate::text::{is_blank, spec_is_blank, str_eq};

verus! {

pub const ROLE_REQUIRED_MESSAGE: &'static str = "role is required";

pub const ROLE_UNSUPPORTED_MESSAGE: &'static str = "unsupported mailbox role";

/// The special-use role of a mailbox (the JMAP mailbox role names).
#[derive(Clone, Copy, Debug, PartialEq, Eq, Structural)]
pub enum MailboxRole {
    All,
    Archive,
    Drafts,
    Flagged,
    Important,
    Inbox,
    Junk,
    Sent,
    Subscribed,
    Trash,
}

/// The role named `s`, if any.
pub open spec fn spec_parse_role(s: Seq<char>) -> Option<MailboxRole> {
    if s == "all"@ {
        Some(MailboxRole::All)
    } else if s == "archive"@ {
        Some(MailboxRole::Archive)
    } else if s == "drafts"@ {
        Some(MailboxRole::Drafts)
    } else if s == "flagged"@ {
        Some(MailboxRole::Flagged)
    } else if s == "important"@ {
        Some(MailboxRole::Important)
    } else if s == "inbox"@ {
        Some(MailboxRole::Inbox)
    } else if s == "junk"@ {
        Some(MailboxRole::Junk)
    } else if s == "sent"@ {
        Some(MailboxRole::Sent)
    } else if s == "subscribed"@ {
        Some(MailboxRole::Subscribed)
    } else if s == "trash"@ {
        Some(MailboxRole::Trash)
    } else {
        None
    }
}

impl MailboxRole {
    pub fn parse(s: &str) -> (r: Option<MailboxRole>)
        ensures
            r == spec_parse_role(s@),
    {
        if str_eq(s, "all") {
            Some(MailboxRole::All)
        } else if str_eq(s, "archive") {
            Some(MailboxRole::Archive)
        } else if str_eq(s, "drafts") {
            Some(MailboxRole::Drafts)
        } else if str_eq(s, "flagged") {
            Some(MailboxRole::Flagged)
        } else if str_eq(s, "important") {
            Some(MailboxRole::Important)
        } else if str_eq(s, "inbox") {
            Some(MailboxRole::Inbox)
        } else if str_eq(s, "junk") {
            Some(MailboxRole::Junk)
        } else if str_eq(s, "sent") {
            Some(MailboxRole::Sent)
        } else if str_eq(s, "subscribed") {
            Some(MailboxRole::Subscribed)
        } else if str_eq(s, "trash") {
            Some(MailboxRole::Trash)
        } else {
            None
        }
    }
}

/// A role patch must name the field; `null` clears the role, a string must be
/// a known role.
pub open spec fn spec_role_patch_check(role: Option<Option<String>>) -> Option<
    (ApiErrorCode, Seq<char>),
> {
    match role {
        None => Some((ApiErrorCode::InvalidMailbox, ROLE_REQUIRED_MESSAGE@)),
        Some(None) => None,
        Some(Some(v)) => if spec_parse_role(v@) is Some {
            None
        } else {
            Some((ApiErrorCode::InvalidMailbox, ROLE_UNSUPPORTED_MESSAGE@))
        },
    }
}

pub fn validate_patch_mailbox_role(role: Option<Option<String>>) -> (r: Result<
    Option<String>,
    ApiError,
>)
    ensures
        check_outcome(r, spec_role_patch_check(role)),
        r matches Ok(v) ==> Some(v) == role,
{
    let Some(role) = role else {
        return Err(bad_request(ApiErrorCode::InvalidMailbox, ROLE_REQUIRED_MESSAGE));
    };
    match &role {
        None => Ok(role),
        Some(value) => {
            if MailboxRole::parse(value.as_str()).is_some() {
                Ok(role)
            } else {
                Err(bad_request(ApiErrorCode::InvalidMailbox, ROLE_UNSUPPORTED_MESSAGE))
            }
        },
    }
}

/// A position in a source's message listing.
#[derive(Debug)]
pub struct MessageCursor {
    pub source_id: String,
    pub position: String,
}

pub const CURSOR_SOURCE_MESSAGE: &'static str = "cursor does not belong to requested source";

/// A cursor must belong to the source it is used on.
pub fn validate_source_message_cursor(account_id: &str, cursor: Option<&MessageCursor>) -> (r:
    Result<(), ApiError>)
    ensures
        check_outcome(
            r,
            match cursor {
                Some(c) => if c.source_id@ != account_id@ {
                    Some((ApiErrorCode::InvalidCursor, CURSOR_SOURCE_MESSAGE@))
                } else {
                    None
                },
                None => None,
            },
        ),
{
    match cursor {
        Some(c) => {
            if !str_eq(c.source_id.as_str(), account_id) {
                return Err(bad_request(ApiErrorCode::InvalidCursor, CURSOR_SOURCE_MESSAGE));
            }
            Ok(())
        },
        None => Ok(()),
    }
}

pub const EMPTY_SEARCH_MESSAGE: &'static str = "search query must not be empty";

/// A global message search needs a query that is not blank.
pub fn validate_search_query(q: &str) -> (r: Result<(), ApiError>)
    ensures
        check_outcome(
            r,
            if spec_is_blank(q@) {
                Some((ApiErrorCode::InvalidQuery, EMPTY_SEARCH_MESSAGE@))
            } else {
                None
            },
        ),
{
    if is_blank(q) {
        return Err(bad_request(ApiErrorCode::InvalidQuery, EMPTY_SEARCH_MESSAGE));
    }
    Ok(())
}

} // verus!
