//! Normalization of user-supplied account fields.
use vstd::prelude::*;

use crate::account::{
    dup_opt_imap, dup_opt_smtp, AccountSettings, AccountTransportSettings,
};
use crate::appearance::{normalize_account_appearance, spec_normalize_initials, min_hue};
use crate::account::AccountAppearance;
use crate::domain::dup_opt_string;
use crate::requests::{AccountTransportRequest, PatchAccountRequest};
use crate::text::{is_blank, spec_is_blank, spec_trim, trim};

verus! {

/// `Some(trimmed)` for a non-blank string, `None` for blank or absent.
pub open spec fn spec_normalize_optional(value: Option<String>) -> Option<Seq<char>> {
    match value {
        Some(v) => if spec_is_blank(v@) {
            None
        } else {
            Some(spec_trim(v@))
        },
        None => None,
    }
}

pub open spec fn opt_view(o: Option<String>) -> Option<Seq<char>> {
    match o {
        Some(s) => Some(s@),
        None => None,
    }
}

/// Trim an optional string, turning blank into `None`.
pub fn normalize_optional(value: Option<String>) -> (r: Option<String>)
    ensures
        opt_view(r) == spec_normalize_optional(value),
{
    match value {
        Some(v) => {
            if is_blank(v.as_str()) {
                None
            } else {
                Some(trim(v.as_str()))
            }
        },
        None => None,
    }
}

/// The trimmed, non-blank entries of `patterns`, in order.
pub open spec fn spec_normalize_patterns(patterns: Seq<String>) -> Seq<Seq<char>>
    decreases patterns.len(),
{
    if patterns.len() == 0 {
        Seq::empty()
    } else {
        let r = spec_normalize_patterns(patterns.drop_last());
        if spec_is_blank(patterns.last()@) {
            r
        } else {
            r.push(spec_trim(patterns.last()@))
        }
    }
}

pub open spec fn views(v: Seq<String>) -> Seq<Seq<char>> {
    v.map_values(|s: String| s@)
}

/// Trim email addresses/patterns and drop empty ones (`*@example.com`
/// patterns are kept).
pub fn normalize_email_patterns(patterns: &Vec<String>) -> (r: Vec<String>)
    ensures
        views(r@) == spec_normalize_patterns(patterns@),
{
    let mut r: Vec<String> = Vec::new();
    let mut i: usize = 0;
    assert(patterns@.take(0) =~= Seq::<String>::empty());
    assert(views(r@) =~= Seq::<Seq<char>>::empty());
    while i < patterns.len()
        invariant
            i <= patterns@.len(),
            views(r@) == spec_normalize_patterns(patterns@.take(i as int)),
        decreases patterns@.len() - i,
    {
        let ghost prev = r@;
        proof {
            let p = patterns@.take(i + 1);
            assert(p.drop_last() =~= patterns@.take(i as int));
            assert(p.last() == patterns@[i as int]);
        }
        if !is_blank(patterns[i].as_str()) {
            let t = trim(patterns[i].as_str());
            r.push(t);
            assert(views(r@) =~= views(prev).push(t@));
        }
        i = i + 1;
    }
    assert(patterns@.take(patterns@.len() as int) =~= patterns@);
    r
}

/// The appearance after normalization.
pub open spec fn spec_normalized_appearance(a: AccountAppearance, r: AccountAppearance) -> bool {
    match a {
        AccountAppearance::Initials { initials, color_hue } => r matches AccountAppearance::Initials {
            initials: i2,
            color_hue: h2,
        } && i2@ == spec_normalize_initials(initials@) && h2 == min_hue(color_hue),
        AccountAppearance::Image { image_id, initials, color_hue } => r matches AccountAppearance::Image {
            image_id: d2,
            initials: i2,
            color_hue: h2,
        } && d2@ == spec_trim(image_id@) && i2@ == spec_normalize_initials(initials@) && h2
            == min_hue(color_hue),
    }
}

/// The transport after a transport patch: provided fields taken (strings
/// normalized), omitted ones kept.
pub open spec fn spec_transport_patched(
    old: AccountTransportSettings,
    t: AccountTransportRequest,
    new: AccountTransportSettings,
) -> bool {
    &&& new.secret_ref == old.secret_ref
    &&& new.provider == match t.provider {
        Some(p) => p,
        None => old.provider,
    }
    &&& new.auth == match t.auth {
        Some(a) => a,
        None => old.auth,
    }
    &&& opt_view(new.base_url) == match t.base_url {
        Some(b) => spec_normalize_optional(Some(b)),
        None => opt_view(old.base_url),
    }
    &&& opt_view(new.username) == match t.username {
        Some(u) => spec_normalize_optional(Some(u)),
        None => opt_view(old.username),
    }
    &&& new.imap == match t.imap {
        Some(i) => Some(i),
        None => old.imap,
    }
    &&& new.smtp == match t.smtp {
        Some(s) => Some(s),
        None => old.smtp,
    }
}

fn apply_transport_patch(transport: &mut AccountTransportSettings, t: &AccountTransportRequest)
    ensures
        spec_transport_patched(*old(transport), *t, *final(transport)),
{
    if let Some(provider) = &t.provider {
        transport.provider = provider.duplicate();
    }
    if let Some(auth) = &t.auth {
        transport.auth = auth.duplicate();
    }
    if t.base_url.is_some() {
        transport.base_url = normalize_optional(dup_opt_string(&t.base_url));
    }
    if t.username.is_some() {
        transport.username = normalize_optional(dup_opt_string(&t.username));
    }
    if t.imap.is_some() {
        transport.imap = dup_opt_imap(&t.imap);
    }
    if t.smtp.is_some() {
        transport.smtp = dup_opt_smtp(&t.smtp);
    }
}

/// Sparse-merge patch fields into an existing account: every provided field
/// is taken (name trimmed, full name and transport strings normalized, email
/// patterns normalized, appearance normalized); every omitted field, including
/// transport sub-fields, is preserved.
pub fn apply_account_patch(account: &mut AccountSettings, request: &PatchAccountRequest)
    ensures
        final(account).id == old(account).id,
        final(account).created_at == old(account).created_at,
        final(account).updated_at == old(account).updated_at,
        final(account).name@ == match request.name {
            Some(n) => spec_trim(n@),
            None => old(account).name@,
        },
        opt_view(final(account).full_name) == match request.full_name {
            Some(f) => spec_normalize_optional(Some(f)),
            None => opt_view(old(account).full_name),
        },
        views(final(account).email_patterns@) == match request.email_patterns {
            Some(p) => spec_normalize_patterns(p@),
            None => views(old(account).email_patterns@),
        },
        final(account).driver == match request.driver {
            Some(d) => d,
            None => old(account).driver,
        },
        final(account).enabled == match request.enabled {
            Some(e) => e,
            None => old(account).enabled,
        },
        match request.appearance {
            Some(a) => final(account).appearance matches Some(r) && spec_normalized_appearance(a, r),
            None => final(account).appearance == old(account).appearance,
        },
        match request.transport {
            None => final(account).transport == old(account).transport,
            Some(t) => spec_transport_patched(old(account).transport, t, final(account).transport),
        },
{
    if let Some(name) = &request.name {
        account.name = trim(name.as_str());
    }
    if let Some(full_name) = &request.full_name {
        account.full_name = normalize_optional(Some(full_name.clone()));
    }
    if let Some(email_patterns) = &request.email_patterns {
        account.email_patterns = normalize_email_patterns(email_patterns);
    }
    if let Some(driver) = &request.driver {
        account.driver = *driver;
    }
    if let Some(enabled) = request.enabled {
        account.enabled = enabled;
    }
    if let Some(appearance) = &request.appearance {
        account.appearance = Some(normalize_account_appearance(appearance.duplicate()));
    }
    if let Some(transport) = &request.transport {
        apply_transport_patch(&mut account.transport, transport);
    }
}

} // verus!
