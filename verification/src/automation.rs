//! Automation rules: normalization and validation of user-supplied rules and
//! drafts.
use vstd::prelude::*;

use crate::domain::dup_strings;
use crate::errors::{bad_request, check_outcome, ApiError, ApiErrorCode};
use crate::text::{chars_of, is_blank, spec_is_blank, spec_trim, str_eq, trim};

verus! {

/// What a rule does to a matching message.
#[derive(Debug, PartialEq, Eq)]
pub enum AutomationAction {
    ApplyTag { tag: String },
    RemoveTag { tag: String },
    MarkRead,
    MarkUnread,
    Flag,
    Unflag,
    MoveToMailbox { mailbox_id: String },
}

/// An automation rule. `triggers` are the trigger names; `condition` is the
/// JSON text of the rule's match condition.
#[derive(Debug)]
pub struct AutomationRule {
    pub id: String,
    pub name: String,
    pub enabled: bool,
    pub triggers: Vec<String>,
    pub condition: String,
    pub actions: Vec<AutomationAction>,
    pub backfill: bool,
}

/// `r` is `a` with its tag or mailbox id trimmed.
pub open spec fn spec_action_normalized(a: AutomationAction, r: AutomationAction) -> bool {
    match a {
        AutomationAction::ApplyTag { tag } => r matches AutomationAction::ApplyTag { tag: t }
            && t@ == spec_trim(tag@),
        AutomationAction::RemoveTag { tag } => r matches AutomationAction::RemoveTag { tag: t }
            && t@ == spec_trim(tag@),
        AutomationAction::MoveToMailbox { mailbox_id } => r matches AutomationAction::MoveToMailbox {
            mailbox_id: m,
        } && m@ == spec_trim(mailbox_id@),
        _ => r == a,
    }
}

pub fn normalize_automation_action(action: &AutomationAction) -> (r: AutomationAction)
    ensures
        spec_action_normalized(*action, r),
{
    match action {
        AutomationAction::ApplyTag { tag } => AutomationAction::ApplyTag { tag: trim(tag.as_str()) },
        AutomationAction::RemoveTag { tag } => AutomationAction::RemoveTag {
            tag: trim(tag.as_str()),
        },
        AutomationAction::MarkRead => AutomationAction::MarkRead,
        AutomationAction::MarkUnread => AutomationAction::MarkUnread,
        AutomationAction::Flag => AutomationAction::Flag,
        AutomationAction::Unflag => AutomationAction::Unflag,
        AutomationAction::MoveToMailbox { mailbox_id } => AutomationAction::MoveToMailbox {
            mailbox_id: trim(mailbox_id.as_str()),
        },
    }
}

/// `r` is `rule` with id and name trimmed and every action normalized.
pub open spec fn spec_rule_normalized(rule: AutomationRule, r: AutomationRule) -> bool {
    &&& r.id@ == spec_trim(rule.id@)
    &&& r.name@ == spec_trim(rule.name@)
    &&& r.enabled == rule.enabled
    &&& r.triggers@ == rule.triggers@
    &&& r.condition == rule.condition
    &&& r.backfill == rule.backfill
    &&& r.actions@.len() == rule.actions@.len()
    &&& forall|j: int|
        0 <= j < rule.actions@.len() ==> spec_action_normalized(
            rule.actions@[j],
            #[trigger] r.actions@[j],
        )
}

fn normalize_rule(rule: &AutomationRule) -> (r: AutomationRule)
    ensures
        spec_rule_normalized(*rule, r),
{
    let mut actions: Vec<AutomationAction> = Vec::new();
    let mut j: usize = 0;
    while j < rule.actions.len()
        invariant
            j <= rule.actions@.len(),
            actions@.len() == j,
            forall|k: int|
                0 <= k < j ==> spec_action_normalized(rule.actions@[k], #[trigger] actions@[k]),
        decreases rule.actions@.len() - j,
    {
        actions.push(normalize_automation_action(&rule.actions[j]));
        j = j + 1;
    }
    AutomationRule {
        id: trim(rule.id.as_str()),
        name: trim(rule.name.as_str()),
        enabled: rule.enabled,
        triggers: dup_strings(&rule.triggers),
        condition: rule.condition.clone(),
        actions,
        backfill: rule.backfill,
    }
}

/// Trim rule ids, names, tags and mailbox ids.
pub fn normalize_automation_rules(rules: &Vec<AutomationRule>) -> (r: Vec<AutomationRule>)
    ensures
        r@.len() == rules@.len(),
        forall|i: int| 0 <= i < rules@.len() ==> spec_rule_normalized(rules@[i], #[trigger] r@[i]),
{
    let mut r: Vec<AutomationRule> = Vec::new();
    let mut i: usize = 0;
    while i < rules.len()
        invariant
            i <= rules@.len(),
            r@.len() == i,
            forall|k: int| 0 <= k < i ==> spec_rule_normalized(rules@[k], #[trigger] r@[k]),
        decreases rules@.len() - i,
    {
        r.push(normalize_rule(&rules[i]));
        i = i + 1;
    }
    r
}

pub const DRAFT_ID_MESSAGE: &'static str = "automation draft id is required";

pub const DRAFT_UNIQUE_MESSAGE: &'static str = "automation rule and draft ids must be unique";

pub const RULE_ID_MESSAGE: &'static str = "automation rule id is required";

pub const RULE_UNIQUE_MESSAGE: &'static str = "automation rule ids must be unique";

pub const RULE_NAME_MESSAGE: &'static str = "automation rule name is required";

pub const RULE_TRIGGER_MESSAGE: &'static str = "automation rule must include at least one trigger";

pub const RULE_ACTION_MESSAGE: &'static str = "automation rule must include at least one action";

pub const TAG_MESSAGE: &'static str = "automation tag must be a non-system keyword";

pub const TARGET_MESSAGE: &'static str = "automation target mailbox id is required";

/// The trimmed id of `rules[j]` equals `t` for some `j < n`.
pub open spec fn id_among(rules: Seq<AutomationRule>, n: int, t: Seq<char>) -> bool {
    exists|j: int| 0 <= j < n && #[trigger] spec_trim(rules[j].id@) == t
}

/// What is wrong with draft `i` given the active rules and the drafts before it.
pub open spec fn spec_draft_fault(
    active: Seq<AutomationRule>,
    drafts: Seq<AutomationRule>,
    i: int,
) -> Option<(ApiErrorCode, Seq<char>)> {
    let t = spec_trim(drafts[i].id@);
    if t.len() == 0 {
        Some((ApiErrorCode::InvalidAccount, DRAFT_ID_MESSAGE@))
    } else if id_among(active, active.len() as int, t) || id_among(drafts, i, t) {
        Some((ApiErrorCode::InvalidAccount, DRAFT_UNIQUE_MESSAGE@))
    } else {
        None
    }
}

/// The first fault among drafts `i..`.
pub open spec fn spec_drafts_check_from(
    active: Seq<AutomationRule>,
    drafts: Seq<AutomationRule>,
    i: int,
) -> Option<(ApiErrorCode, Seq<char>)>
    decreases drafts.len() - i,
{
    if i < 0 || i >= drafts.len() {
        None
    } else if spec_draft_fault(active, drafts, i) is Some {
        spec_draft_fault(active, drafts, i)
    } else {
        spec_drafts_check_from(active, drafts, i + 1)
    }
}

/// Whether `t` is one of `ids`.
fn contains_id(ids: &Vec<String>, t: &str) -> (r: bool)
    ensures
        r == exists|j: int| 0 <= j < ids@.len() && #[trigger] ids@[j]@ == t@,
{
    let mut j: usize = 0;
    while j < ids.len()
        invariant
            j <= ids@.len(),
            forall|k: int| 0 <= k < j ==> #[trigger] ids@[k]@ != t@,
        decreases ids@.len() - j,
    {
        if str_eq(ids[j].as_str(), t) {
            return true;
        }
        j = j + 1;
    }
    false
}

/// Draft ids are required and unique among the active rules and the drafts.
pub fn validate_automation_drafts(
    active_rules: &Vec<AutomationRule>,
    draft_rules: &Vec<AutomationRule>,
) -> (r: Result<(), ApiError>)
    ensures
        check_outcome(r, spec_drafts_check_from(active_rules@, draft_rules@, 0)),
{
    let ghost act = active_rules@;
    let ghost dr = draft_rules@;
    let mut ids: Vec<String> = Vec::new();
    let mut i: usize = 0;
    while i < active_rules.len()
        invariant
            i <= act.len(),
            act == active_rules@,
            ids@.len() == i,
            forall|k: int| 0 <= k < i ==> #[trigger] ids@[k]@ == spec_trim(act[k].id@),
        decreases act.len() - i,
    {
        ids.push(trim(active_rules[i].id.as_str()));
        i = i + 1;
    }
    let n = active_rules.len();
    let mut d: usize = 0;
    while d < draft_rules.len()
        invariant
            d <= dr.len(),
            dr == draft_rules@,
            act == active_rules@,
            n == act.len(),
            ids@.len() == n + d,
            forall|k: int| 0 <= k < n ==> #[trigger] ids@[k]@ == spec_trim(act[k].id@),
            forall|k: int| 0 <= k < d ==> #[trigger] ids@[n + k]@ == spec_trim(dr[k].id@),
            spec_drafts_check_from(act, dr, 0) == spec_drafts_check_from(act, dr, d as int),
        decreases dr.len() - d,
    {
        let t = trim(draft_rules[d].id.as_str());
        if chars_of(t.as_str()).len() == 0 {
            return Err(bad_request(ApiErrorCode::InvalidAccount, DRAFT_ID_MESSAGE));
        }
        let seen = contains_id(&ids, t.as_str());
        proof {
            let tv = spec_trim(dr[d as int].id@);
            if seen {
                let j = choose|j: int| 0 <= j < ids@.len() && #[trigger] ids@[j]@ == t@;
                if j < n {
                    assert(spec_trim(act[j].id@) == tv);
                } else {
                    let k = j - n;
                    assert(ids@[n + k]@ == spec_trim(dr[k].id@));
                    assert(spec_trim(dr[k].id@) == tv);
                }
            } else {
                assert forall|j: int| 0 <= j < n implies #[trigger] spec_trim(act[j].id@) != tv by {
                    assert(ids@[j]@ == spec_trim(act[j].id@));
                }
                assert forall|j: int| 0 <= j < d implies #[trigger] spec_trim(dr[j].id@) != tv by {
                    assert(ids@[n + j]@ == spec_trim(dr[j].id@));
                }
            }
        }
        if seen {
            return Err(bad_request(ApiErrorCode::InvalidAccount, DRAFT_UNIQUE_MESSAGE));
        }
        ids.push(t);
        d = d + 1;
    }
    Ok(())
}

/// The first fault among `actions[j..]`: a blank or system (`$`-prefixed)
/// tag, or a blank target mailbox.
pub open spec fn spec_action_fault(a: AutomationAction) -> Option<(ApiErrorCode, Seq<char>)> {
    match a {
        AutomationAction::ApplyTag { tag } | AutomationAction::RemoveTag { tag } => if spec_is_blank(
            tag@,
        ) || (tag@.len() > 0 && tag@[0] == '$') {
            Some((ApiErrorCode::InvalidAccount, TAG_MESSAGE@))
        } else {
            None
        },
        AutomationAction::MoveToMailbox { mailbox_id } => if spec_is_blank(mailbox_id@) {
            Some((ApiErrorCode::InvalidAccount, TARGET_MESSAGE@))
        } else {
            None
        },
        _ => None,
    }
}

pub open spec fn spec_actions_check_from(acts: Seq<AutomationAction>, j: int) -> Option<
    (ApiErrorCode, Seq<char>),
>
    decreases acts.len() - j,
{
    if j < 0 || j >= acts.len() {
        None
    } else if spec_action_fault(acts[j]) is Some {
        spec_action_fault(acts[j])
    } else {
        spec_actions_check_from(acts, j + 1)
    }
}

/// What is wrong with rule `i` given the rules before it.
pub open spec fn spec_rule_fault(rules: Seq<AutomationRule>, i: int) -> Option<
    (ApiErrorCode, Seq<char>),
> {
    let rule = rules[i];
    if spec_is_blank(rule.id@) {
        Some((ApiErrorCode::InvalidAccount, RULE_ID_MESSAGE@))
    } else if id_among(rules, i, spec_trim(rule.id@)) {
        Some((ApiErrorCode::InvalidAccount, RULE_UNIQUE_MESSAGE@))
    } else if spec_is_blank(rule.name@) {
        Some((ApiErrorCode::InvalidAccount, RULE_NAME_MESSAGE@))
    } else if rule.triggers@.len() == 0 {
        Some((ApiErrorCode::InvalidAccount, RULE_TRIGGER_MESSAGE@))
    } else if rule.actions@.len() == 0 {
        Some((ApiErrorCode::InvalidAccount, RULE_ACTION_MESSAGE@))
    } else {
        spec_actions_check_from(rule.actions@, 0)
    }
}

pub open spec fn spec_rules_check_from(rules: Seq<AutomationRule>, i: int) -> Option<
    (ApiErrorCode, Seq<char>),
>
    decreases rules.len() - i,
{
    if i < 0 || i >= rules.len() {
        None
    } else if spec_rule_fault(rules, i) is Some {
        spec_rule_fault(rules, i)
    } else {
        spec_rules_check_from(rules, i + 1)
    }
}

fn starts_with_dollar(s: &str) -> (r: bool)
    ensures
        r == (s@.len() > 0 && s@[0] == '$'),
{
    let v = chars_of(s);
    v.len() > 0 && v[0] == '$'
}

fn validate_actions(acts: &Vec<AutomationAction>) -> (r: Result<(), ApiError>)
    ensures
        check_outcome(r, spec_actions_check_from(acts@, 0)),
{
    let mut j: usize = 0;
    while j < acts.len()
        invariant
            j <= acts@.len(),
            spec_actions_check_from(acts@, 0) == spec_actions_check_from(acts@, j as int),
        decreases acts@.len() - j,
    {
        match &acts[j] {
            AutomationAction::ApplyTag { tag } | AutomationAction::RemoveTag { tag } => {
                if is_blank(tag.as_str()) || starts_with_dollar(tag.as_str()) {
                    return Err(bad_request(ApiErrorCode::InvalidAccount, TAG_MESSAGE));
                }
            },
            AutomationAction::MoveToMailbox { mailbox_id } => {
                if is_blank(mailbox_id.as_str()) {
                    return Err(bad_request(ApiErrorCode::InvalidAccount, TARGET_MESSAGE));
                }
            },
            _ => {},
        }
        j = j + 1;
    }
    Ok(())
}

/// Every rule has a unique non-blank id, a name, at least one trigger and one
/// action, and only valid actions.
pub fn validate_automation_rules(rules: &Vec<AutomationRule>) -> (r: Result<(), ApiError>)
    ensures
        check_outcome(r, spec_rules_check_from(rules@, 0)),
{
    let ghost rs = rules@;
    let mut ids: Vec<String> = Vec::new();
    let mut i: usize = 0;
    while i < rules.len()
        invariant
            i <= rs.len(),
            rs == rules@,
            ids@.len() == i,
            forall|k: int| 0 <= k < i ==> #[trigger] ids@[k]@ == spec_trim(rs[k].id@),
            spec_rules_check_from(rs, 0) == spec_rules_check_from(rs, i as int),
        decreases rs.len() - i,
    {
        let rule = &rules[i];
        if is_blank(rule.id.as_str()) {
            return Err(bad_request(ApiErrorCode::InvalidAccount, RULE_ID_MESSAGE));
        }
        let t = trim(rule.id.as_str());
        let seen = contains_id(&ids, t.as_str());
        proof {
            let tv = spec_trim(rs[i as int].id@);
            if seen {
                let j = choose|j: int| 0 <= j < ids@.len() && #[trigger] ids@[j]@ == t@;
                assert(spec_trim(rs[j].id@) == tv);
            } else {
                assert forall|j: int| 0 <= j < i implies #[trigger] spec_trim(rs[j].id@) != tv by {
                    assert(ids@[j]@ == spec_trim(rs[j].id@));
                }
            }
        }
        if seen {
            return Err(bad_request(ApiErrorCode::InvalidAccount, RULE_UNIQUE_MESSAGE));
        }
        ids.push(t);
        if is_blank(rule.name.as_str()) {
            return Err(bad_request(ApiErrorCode::InvalidAccount, RULE_NAME_MESSAGE));
        }
        if rule.triggers.len() == 0 {
            return Err(bad_request(ApiErrorCode::InvalidAccount, RULE_TRIGGER_MESSAGE));
        }
        if rule.actions.len() == 0 {
            return Err(bad_request(ApiErrorCode::InvalidAccount, RULE_ACTION_MESSAGE));
        }
        validate_actions(&rule.actions)?;
        i = i + 1;
    }
    Ok(())
}

} // verus!
