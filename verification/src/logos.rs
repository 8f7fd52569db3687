//! Account logo file types and the appearance parts a logo keeps.
use vstd::prelude::*;

use crate::account::{AccountAppearance, AccountOverview, AccountSettings};
use crate::appearance::{
    default_account_appearance, min_hue, normalize_account_appearance, spec_color_hue,
    spec_initials_label, spec_normalize_initials,
};
use crate::errors::{bad_request, check_outcome, ApiError, ApiErrorCode};
use crate::ledger::concat;
use crate::text::{
    chars_of, find_char_from, slice_chars, spec_find_char, spec_trim, str_eq, string_of, trim_chars,
};

verus! {

pub const LOGO_TYPE_MESSAGE: &'static str = "account logo must be a PNG, JPEG, WebP, or GIF image";

/// The file extension of an accepted logo content type.
pub open spec fn spec_logo_extension(content_type: Seq<char>) -> Option<Seq<char>> {
    if content_type == "image/png"@ {
        Some("png"@)
    } else if content_type == "image/jpeg"@ {
        Some("jpg"@)
    } else if content_type == "image/webp"@ {
        Some("webp"@)
    } else if content_type == "image/gif"@ {
        Some("gif"@)
    } else {
        None
    }
}

pub fn account_logo_extension(content_type: &str) -> (r: Result<&'static str, ApiError>)
    ensures
        check_outcome(
            r,
            if spec_logo_extension(content_type@) is Some {
                None
            } else {
                Some((ApiErrorCode::InvalidAccountLogo, LOGO_TYPE_MESSAGE@))
            },
        ),
        r matches Ok(ext) ==> Some(ext@) == spec_logo_extension(content_type@),
{
    if str_eq(content_type, "image/png") {
        Ok("png")
    } else if str_eq(content_type, "image/jpeg") {
        Ok("jpg")
    } else if str_eq(content_type, "image/webp") {
        Ok("webp")
    } else if str_eq(content_type, "image/gif") {
        Ok("gif")
    } else {
        Err(bad_request(ApiErrorCode::InvalidAccountLogo, LOGO_TYPE_MESSAGE))
    }
}

/// The initials and hue a logo upload keeps: those of the account's current
/// appearance (or its default), normalized.
pub open spec fn spec_fallback_parts(account: AccountSettings) -> (Seq<char>, u16) {
    match account.appearance {
        Some(AccountAppearance::Initials { initials, color_hue }) => (
            spec_normalize_initials(initials@),
            min_hue(color_hue),
        ),
        Some(AccountAppearance::Image { initials, color_hue, .. }) => (
            spec_normalize_initials(initials@),
            min_hue(color_hue),
        ),
        None => (
            spec_normalize_initials(spec_normalize_initials(spec_initials_label(account))),
            min_hue(spec_color_hue(account)),
        ),
    }
}

pub fn account_appearance_fallback_parts(account: &AccountSettings) -> (r: (String, u16))
    ensures
        (r.0@, r.1) == spec_fallback_parts(*account),
{
    let appearance = match &account.appearance {
        Some(a) => a.duplicate(),
        None => default_account_appearance(account),
    };
    match normalize_account_appearance(appearance) {
        AccountAppearance::Initials { initials, color_hue } => (initials, color_hue),
        AccountAppearance::Image { initials, color_hue, .. } => (initials, color_hue),
    }
}

/// The logo image id an account's appearance references, if any.
pub fn account_appearance_image_id(account: &AccountSettings) -> (r: Option<String>)
    ensures
        match account.appearance {
            Some(AccountAppearance::Image { image_id, .. }) => r == Some(image_id),
            _ => r is None,
        },
{
    match &account.appearance {
        Some(AccountAppearance::Image { image_id, .. }) => Some(image_id.clone()),
        _ => None,
    }
}

/// The logo image id an account overview's appearance references, if any.
pub fn account_appearance_image_id_from_overview(account: &AccountOverview) -> (r: Option<String>)
    ensures
        match account.appearance {
            AccountAppearance::Image { image_id, .. } => r == Some(image_id),
            AccountAppearance::Initials { .. } => r is None,
        },
{
    match &account.appearance {
        AccountAppearance::Image { image_id, .. } => Some(image_id.clone()),
        AccountAppearance::Initials { .. } => None,
    }
}


pub const LOGO_EMPTY_MESSAGE: &'static str = "account logo file is empty";

pub const LOGO_TOO_LARGE_MESSAGE: &'static str = "account logo file is too large";

/// The media type of a `Content-Type` header value: the text before any `;`,
/// trimmed; empty without a header.
pub open spec fn spec_header_media_type(header: Option<Seq<char>>) -> Seq<char> {
    match header {
        Some(h) => spec_trim(h.take(spec_find_char(h, ';') as int)),
        None => Seq::empty(),
    }
}

/// The media type of a `Content-Type` header value.
pub fn header_media_type(header: Option<&str>) -> (r: String)
    ensures
        r@ == spec_header_media_type(
            match header {
                Some(h) => Some(h@),
                None => None,
            },
        ),
{
    match header {
        None => {
            proof {
                reveal_strlit("");
            }
            crate::errors::owned("")
        },
        Some(h) => {
            let v = chars_of(h);
            let k = find_char_from(v.as_slice(), 0, ';');
            assert(v@.subrange(0, v@.len() as int) =~= v@);
            let head = slice_chars(v.as_slice(), 0, k);
            assert(head@ =~= h@.take(k as int));
            let t = trim_chars(head.as_slice());
            string_of(t.as_slice())
        },
    }
}

/// What an uploaded logo is refused for, if anything: an empty body, a body
/// over `max_bytes`, then a media type that is not PNG, JPEG, WebP or GIF.
pub open spec fn spec_logo_upload_check(
    byte_len: nat,
    max_bytes: nat,
    media_type: Seq<char>,
) -> Option<(ApiErrorCode, Seq<char>)> {
    if byte_len == 0 {
        Some((ApiErrorCode::InvalidAccountLogo, LOGO_EMPTY_MESSAGE@))
    } else if byte_len > max_bytes {
        Some((ApiErrorCode::InvalidAccountLogo, LOGO_TOO_LARGE_MESSAGE@))
    } else if spec_logo_extension(media_type) is None {
        Some((ApiErrorCode::InvalidAccountLogo, LOGO_TYPE_MESSAGE@))
    } else {
        None
    }
}

/// The file extension a logo upload of `byte_len` bytes is stored under, or
/// the 400 it is refused with.
pub fn logo_upload_extension(byte_len: usize, max_bytes: usize, content_type: Option<&str>) -> (r:
    Result<&'static str, ApiError>)
    ensures
        check_outcome(
            r,
            spec_logo_upload_check(
                byte_len as nat,
                max_bytes as nat,
                spec_header_media_type(
                    match content_type {
                        Some(h) => Some(h@),
                        None => None,
                    },
                ),
            ),
        ),
        r matches Ok(ext) ==> Some(ext@) == spec_logo_extension(
            spec_header_media_type(
                match content_type {
                    Some(h) => Some(h@),
                    None => None,
                },
            ),
        ),
{
    if byte_len == 0 {
        return Err(bad_request(ApiErrorCode::InvalidAccountLogo, LOGO_EMPTY_MESSAGE));
    }
    if byte_len > max_bytes {
        return Err(bad_request(ApiErrorCode::InvalidAccountLogo, LOGO_TOO_LARGE_MESSAGE));
    }
    let media_type = header_media_type(content_type);
    account_logo_extension(media_type.as_str())
}

/// The stored file name of a logo: `{image_id}.{extension}`.
pub fn logo_file_name(image_id: &str, extension: &str) -> (r: String)
    ensures
        r@ == image_id@ + "."@ + extension@,
{
    let head = concat(image_id, ".");
    concat(head.as_str(), extension)
}

/// The files a stored logo may be, with their content types, in the order
/// they are looked for: PNG, JPEG, WebP, GIF.
pub fn logo_file_candidates(image_id: &str) -> (r: Vec<(String, &'static str)>)
    ensures
        r@.len() == 4,
        r@[0].0@ == image_id@ + ".png"@ && r@[0].1@ == "image/png"@,
        r@[1].0@ == image_id@ + ".jpg"@ && r@[1].1@ == "image/jpeg"@,
        r@[2].0@ == image_id@ + ".webp"@ && r@[2].1@ == "image/webp"@,
        r@[3].0@ == image_id@ + ".gif"@ && r@[3].1@ == "image/gif"@,
{
    let mut r: Vec<(String, &'static str)> = Vec::new();
    r.push((concat(image_id, ".png"), "image/png"));
    r.push((concat(image_id, ".jpg"), "image/jpeg"));
    r.push((concat(image_id, ".webp"), "image/webp"));
    r.push((concat(image_id, ".gif"), "image/gif"));
    r
}

/// The simple (unhyphenated) lower-case text of a random v4 UUID: 32
/// lower-case hex digits, the version digit `4` at 12 and the variant digit
/// (one of `8`, `9`, `a`, `b`) at 16.
pub open spec fn spec_uuid_v4_simple_text(u: Seq<char>) -> bool {
    &&& u.len() == 32
    &&& forall|i: int| 0 <= i < 32 ==> ('0' <= #[trigger] u[i] <= '9') || ('a' <= u[i] <= 'f')
    &&& u[12] == '4'
    &&& (u[16] == '8' || u[16] == '9' || u[16] == 'a' || u[16] == 'b')
}

/// A fresh random v4 UUID in its simple text form
/// (`Uuid::new_v4().simple().to_string()`). Which UUID comes out is chance;
/// its shape is what `new_v4` (version and variant bits set) and the
/// lower-hex `Display` of `Simple` make it.
#[verifier::external_body]
fn new_uuid_v4_simple() -> (r: String)
    ensures
        spec_uuid_v4_simple_text(r@),
{
    uuid::Uuid::new_v4().simple().to_string()
}

/// A fresh logo image id: a random v4 UUID in its simple form (32 lower-case
/// hex digits, the version digit `4` at 12, the variant digit at 16).
pub fn new_logo_image_id() -> (r: String)
    ensures
        r@.len() == 32,
        forall|i: int| 0 <= i < 32 ==> ('0' <= #[trigger] r@[i] <= '9') || ('a' <= r@[i] <= 'f'),
        r@[12] == '4',
        r@[16] == '8' || r@[16] == '9' || r@[16] == 'a' || r@[16] == 'b',
{
    new_uuid_v4_simple()
}

/// Point the account's appearance at a new logo, keeping its fallback
/// initials and hue; the logo it referenced before, if any, is returned.
pub fn set_logo_appearance(account: &mut AccountSettings, image_id: String) -> (previous: Option<
    String,
>)
    ensures
        previous == match old(account).appearance {
            Some(AccountAppearance::Image { image_id: p, .. }) => Some(p),
            _ => None,
        },
        final(account).appearance matches Some(AccountAppearance::Image { image_id: id, initials, color_hue })
            && id == image_id && (initials@, color_hue) == spec_fallback_parts(*old(account)),
        final(account).id == old(account).id,
        final(account).name == old(account).name,
        final(account).enabled == old(account).enabled,
        final(account).transport.secret_ref == old(account).transport.secret_ref,
{
    let previous = account_appearance_image_id(account);
    let (initials, color_hue) = account_appearance_fallback_parts(account);
    account.appearance = Some(AccountAppearance::Image { image_id, initials, color_hue });
    previous
}

/// The logo to delete after a new one replaced it: the previous one, unless
/// it is the new one.
pub fn superseded_logo(previous: Option<String>, image_id: &str) -> (r: Option<String>)
    ensures
        match previous {
            Some(p) => if p@ == image_id@ {
                r is None
            } else {
                r == Some(p)
            },
            None => r is None,
        },
{
    match previous {
        Some(p) => {
            if str_eq(p.as_str(), image_id) {
                None
            } else {
                Some(p)
            }
        },
        None => None,
    }
}

} // verus!
