//! The argument shapes of the message-state mutations, the error for
//! arguments that do not parse, and the keyword command a desired keyword
//! presence becomes.
use vstd::prelude::*;

use crate::errors::{RuntimeAdapterError, RuntimeError, RuntimeErrorCode, Terminality};
use crate::json::{spec_json_string, write_json_string, write_raw};
use crate::text::string_of;

verus! {

/// Add and remove keywords of a message.
#[derive(Debug, PartialEq, Eq)]
pub struct SetKeywordsCommand {
    pub add: Vec<String>,
    pub remove: Vec<String>,
}

/// The command that makes `keyword` present (or absent) on a message: one
/// keyword added, or one removed.
pub fn keyword_toggle(keyword: &str, present: bool) -> (r: SetKeywordsCommand)
    ensures
        present ==> r.add@.len() == 1 && r.add@[0]@ == keyword@ && r.remove@.len() == 0,
        !present ==> r.remove@.len() == 1 && r.remove@[0]@ == keyword@ && r.add@.len() == 0,
{
    let mut one: Vec<String> = Vec::new();
    one.push(crate::errors::owned(keyword));
    if present {
        SetKeywordsCommand { add: one, remove: Vec::new() }
    } else {
        SetKeywordsCommand { add: Vec::new(), remove: one }
    }
}

/// Arguments of `message.setKeywords`.
#[derive(Debug)]
pub struct MessageSetKeywordsMutationArgs {
    pub source_id: String,
    pub message_id: String,
    pub command: SetKeywordsCommand,
}

/// Arguments of `message.setReadState`.
#[derive(Debug)]
pub struct MessageSetReadStateArgs {
    pub source_id: String,
    pub message_id: String,
    pub read: bool,
}

/// Arguments of `message.setFlaggedState`.
#[derive(Debug)]
pub struct MessageSetFlaggedStateArgs {
    pub source_id: String,
    pub message_id: String,
    pub flagged: bool,
}

/// Arguments of `message.setUserTags` (absent lists are empty).
#[derive(Debug)]
pub struct MessageSetUserTagsArgs {
    pub source_id: String,
    pub message_id: String,
    pub add: Vec<String>,
    pub remove: Vec<String>,
}

/// Arguments of `message.moveToMailbox`.
#[derive(Debug)]
pub struct MessageMoveToMailboxArgs {
    pub source_id: String,
    pub message_id: String,
    pub mailbox_id: String,
}

/// Arguments of `message.moveToRole`.
#[derive(Debug)]
pub struct MessageMoveToRoleArgs {
    pub source_id: String,
    pub message_id: String,
    pub role: String,
}

/// Arguments of `message.replaceMailboxes`.
#[derive(Debug)]
pub struct MessageReplaceMailboxesArgs {
    pub source_id: String,
    pub message_id: String,
    pub mailbox_ids: Vec<String>,
}

/// A message mutation that targets one message by id (archive, trash,
/// destroy).
#[derive(Debug)]
pub struct MessageTargetArgs {
    pub source_id: String,
    pub message_id: String,
}

pub const INVALID_ARGS_OPEN: &'static str = "invalid args for mutation '";

pub const ERROR_DETAIL_OPEN: &'static str = "{\"error\":";

/// The error for the arguments of mutation `name` that do not parse as its
/// argument shape; the parser's `detail` goes in the error's details.
pub fn invalid_args_error(name: &str, detail: &str) -> (r: RuntimeError)
    ensures
        r.0.code == RuntimeErrorCode::InvalidMutation,
        r.0.terminality == Terminality::Permanent,
        r.0.message@ == INVALID_ARGS_OPEN@ + name@ + seq!['\''],
        r.0.details@ == ERROR_DETAIL_OPEN@ + spec_json_string(detail@) + seq!['}'],
{
    let mut message: Vec<char> = Vec::new();
    write_raw(&mut message, INVALID_ARGS_OPEN);
    write_raw(&mut message, name);
    message.push('\'');
    let mut details: Vec<char> = Vec::new();
    write_raw(&mut details, ERROR_DETAIL_OPEN);
    write_json_string(&mut details, detail);
    details.push('}');
    RuntimeError(
        RuntimeAdapterError {
            code: RuntimeErrorCode::InvalidMutation,
            message: string_of(message.as_slice()),
            terminality: Terminality::Permanent,
            details: string_of(details.as_slice()),
        },
    )
}

} // verus!
