//! Account visual identity: default initials and hue, normalization and
//! validation of user-supplied appearance.
use vstd::prelude::*;

use crate::account::{AccountAppearance, AccountSettings};
use crate::errors::{bad_request, check_outcome, ApiError, ApiErrorCode};
use crate::ledger::concat;
use crate::text::{
    ascii_upper, chars_of, is_blank, is_whitespace, spec_is_ascii_text, spec_is_blank,
    spec_is_whitespace, spec_trim, string_of, trim, trim_chars,
};

verus! {

pub const INITIALS_MESSAGE: &'static str = "account appearance initials must be 1-4 characters";

pub const HUE_MESSAGE: &'static str = "account appearance color hue must be between 0 and 360";

pub const LOGO_ID_MESSAGE: &'static str = "account logo image id is invalid";

/// `char::is_ascii_alphanumeric`.
pub open spec fn spec_is_ascii_alnum(c: char) -> bool {
    ('0' <= c && c <= '9') || ('a' <= c && c <= 'z') || ('A' <= c && c <= 'Z')
}

pub fn is_ascii_alnum(c: char) -> (r: bool)
    ensures
        r == spec_is_ascii_alnum(c),
{
    ('0' <= c && c <= '9') || ('a' <= c && c <= 'z') || ('A' <= c && c <= 'Z')
}

/// The first character of each whitespace-separated word of `s`.
pub open spec fn word_initials(s: Seq<char>) -> Seq<char>
    decreases s.len(),
{
    if s.len() == 0 {
        Seq::empty()
    } else {
        let p = s.drop_last();
        let c = s.last();
        let r = word_initials(p);
        if !spec_is_whitespace(c) && (p.len() == 0 || spec_is_whitespace(p.last())) {
            r.push(c)
        } else {
            r
        }
    }
}

/// The non-whitespace characters of `s`, in order.
pub open spec fn non_ws_chars(s: Seq<char>) -> Seq<char>
    decreases s.len(),
{
    if s.len() == 0 {
        Seq::empty()
    } else {
        let r = non_ws_chars(s.drop_last());
        if spec_is_whitespace(s.last()) {
            r
        } else {
            r.push(s.last())
        }
    }
}

/// What `str::to_uppercase` returns for `s` (Unicode case mapping).
pub uninterp spec fn uppercase(s: Seq<char>) -> Seq<char>;

/// `str::to_uppercase`. Its result is named; of it the documentation gives
/// that each character maps to one or more characters (so the text never
/// shrinks, and empty text stays empty) and that ASCII text is upper-cased
/// as `to_ascii_uppercase` does it. What it does to other characters is the
/// Unicode case tables and is left unsaid.
#[verifier::external_body]
fn to_uppercase(s: &str) -> (r: String)
    ensures
        r@ == uppercase(s@),
        r@.len() >= s@.len(),
        s@.len() == 0 ==> r@.len() == 0,
        spec_is_ascii_text(s@) ==> r@ == s@.map_values(|c: char| ascii_upper(c)),
{
    s.to_uppercase()
}

/// At most the first `n` characters of `s` (`chars().take(n)`).
pub open spec fn prefix(s: Seq<char>, n: int) -> Seq<char> {
    if s.len() <= n {
        s
    } else {
        s.take(n)
    }
}

/// The raw initials of `s`: the first letters of its first two words, or, for
/// fewer than two words, its first two non-whitespace characters.
pub open spec fn spec_raw_initials(s: Seq<char>) -> Seq<char> {
    if word_initials(s).len() >= 2 {
        prefix(word_initials(s), 2)
    } else {
        prefix(non_ws_chars(s), 2)
    }
}

/// Normalized initials: the raw initials, trimmed and upper-cased, at most
/// four characters, and `A` when nothing is left.
pub open spec fn spec_normalize_initials(s: Seq<char>) -> Seq<char> {
    let u = uppercase(spec_trim(spec_raw_initials(s)));
    if u.len() == 0 {
        seq!['A']
    } else {
        prefix(u, 4)
    }
}

fn take_chars(v: &Vec<char>, n: usize) -> (r: Vec<char>)
    ensures
        r@ == prefix(v@, n as int),
{
    let m = if v.len() <= n {
        v.len()
    } else {
        n
    };
    let r = crate::text::slice_chars(v.as_slice(), 0, m);
    assert(v@.subrange(0, v@.len() as int) =~= v@);
    r
}

pub fn normalize_initials(value: &str) -> (r: String)
    ensures
        r@ == spec_normalize_initials(value@),
        1 <= r@.len() <= 4,
        spec_is_ascii_text(spec_raw_initials(value@)) ==> !spec_is_blank(r@),
        spec_is_ascii_text(spec_raw_initials(value@)) ==> {
            &&& r@ == if spec_raw_initials(value@).len() == 0 {
                seq!['A']
            } else {
                spec_raw_initials(value@).map_values(|c: char| ascii_upper(c))
            }
            &&& r@.len() <= 2
            &&& spec_no_whitespace(r@)
            &&& forall|i: int| 0 <= i < r@.len() ==> !('a' <= #[trigger] r@[i] && r@[i] <= 'z')
        },
{
    let v = chars_of(value);
    let mut words: Vec<char> = Vec::new();
    let mut letters: Vec<char> = Vec::new();
    let mut prev_ws = true;
    let mut i: usize = 0;
    assert(v@.take(0) =~= Seq::<char>::empty());
    while i < v.len()
        invariant
            i <= v@.len(),
            words@ == word_initials(v@.take(i as int)),
            letters@ == non_ws_chars(v@.take(i as int)),
            prev_ws == (i == 0 || spec_is_whitespace(v@[i - 1])),
        decreases v@.len() - i,
    {
        let c = v[i];
        let ws = is_whitespace(c);
        proof {
            let p = v@.take(i + 1);
            assert(p.drop_last() =~= v@.take(i as int));
            assert(p.last() == c);
            if i > 0 {
                assert(v@.take(i as int).last() == v@[i - 1]);
            }
        }
        if !ws && prev_ws {
            words.push(c);
        }
        if !ws {
            letters.push(c);
        }
        prev_ws = ws;
        i = i + 1;
    }
    assert(v@.take(v@.len() as int) =~= v@);
    let raw = if words.len() >= 2 {
        take_chars(&words, 2)
    } else {
        take_chars(&letters, 2)
    };
    let trimmed = trim_chars(raw.as_slice());
    let trimmed_text = string_of(trimmed.as_slice());
    let up = to_uppercase(trimmed_text.as_str());
    let uc = chars_of(up.as_str());
    proof {
        lemma_raw_initials_no_whitespace(value@);
        let raw_initials = spec_raw_initials(value@);
        assert(raw@ == raw_initials);
        assert(trimmed_text@ == raw_initials);
        if spec_is_ascii_text(raw_initials) {
            assert(uc@ == raw_initials.map_values(|c: char| ascii_upper(c)));
            assert(raw_initials.len() <= 2);
            assert forall|i: int| 0 <= i < uc@.len() implies !spec_is_whitespace(#[trigger] uc@[i])
                && !('a' <= uc@[i] && uc@[i] <= 'z') by {
                assert(uc@[i] == ascii_upper(raw_initials[i]));
                assert(!spec_is_whitespace(raw_initials[i]));
            }
        }
        if spec_is_ascii_text(raw_initials) && uc@.len() > 0 {
            assert(uc@[0] == ascii_upper(raw_initials[0]));
            assert(!spec_is_whitespace(raw_initials[0]));
            assert(!spec_is_whitespace(uc@[0]));
        }
    }
    if uc.len() == 0 {
        let mut a: Vec<char> = Vec::new();
        a.push('A');
        assert(a@ =~= seq!['A']);
        assert(!spec_is_whitespace(a@[0]));
        string_of(a.as_slice())
    } else {
        let t = take_chars(&uc, 4);
        assert(t@.len() > 0 && t@[0] == uc@[0]);
        proof {
            if spec_is_ascii_text(spec_raw_initials(value@)) {
                assert(t@ == uc@);
            }
        }
        string_of(t.as_slice())
    }
}

/// The label initials are derived from: the name, or, when it is blank, the
/// full name, or `Account`.
pub open spec fn spec_initials_label(account: AccountSettings) -> Seq<char> {
    if spec_is_blank(account.name@) {
        match account.full_name {
            Some(full) => full@,
            None => "Account"@,
        }
    } else {
        account.name@
    }
}

pub fn derive_account_initials(account: &AccountSettings) -> (r: String)
    ensures
        r@ == spec_normalize_initials(spec_initials_label(*account)),
{
    if is_blank(account.name.as_str()) {
        match &account.full_name {
            Some(full) => normalize_initials(full.as_str()),
            None => normalize_initials("Account"),
        }
    } else {
        normalize_initials(account.name.as_str())
    }
}

/// The 31-multiplier rolling hash of `b` in wrapping `u32` arithmetic.
pub open spec fn hash_bytes(b: Seq<u8>) -> u32
    decreases b.len(),
{
    if b.len() == 0 {
        0
    } else {
        vstd::wrapping::u32_specs::wrapping_add(
            vstd::wrapping::u32_specs::wrapping_mul(hash_bytes(b.drop_last()), 31),
            b.last() as u32,
        )
    }
}

/// The deterministic hue of an account: the hash of the UTF-8 bytes of
/// `{id}:{name}`, modulo 361.
pub open spec fn spec_color_hue(account: AccountSettings) -> u16 {
    (hash_bytes(vstd::utf8::encode_utf8(account.id@ + ":"@ + account.name@)) % 361) as u16
}

pub fn account_color_hue(account: &AccountSettings) -> (r: u16)
    ensures
        r == spec_color_hue(*account),
{
    let head = concat(account.id.as_str(), ":");
    let seed = concat(head.as_str(), account.name.as_str());
    let bytes = seed.as_str().as_bytes();
    assert(bytes@ == vstd::utf8::encode_utf8(account.id@ + ":"@ + account.name@));
    let mut hash: u32 = 0;
    let mut i: usize = 0;
    assert(bytes@.take(0) =~= Seq::<u8>::empty());
    while i < bytes.len()
        invariant
            i <= bytes@.len(),
            hash == hash_bytes(bytes@.take(i as int)),
        decreases bytes@.len() - i,
    {
        proof {
            let p = bytes@.take(i + 1);
            assert(p.drop_last() =~= bytes@.take(i as int));
            assert(p.last() == bytes@[i as int]);
        }
        hash = hash.wrapping_mul(31).wrapping_add(bytes[i] as u32);
        i = i + 1;
    }
    assert(bytes@.take(bytes@.len() as int) =~= bytes@);
    (hash % 361) as u16
}

/// The deterministic default appearance of an uncustomized account.
pub fn default_account_appearance(account: &AccountSettings) -> (r: AccountAppearance)
    ensures
        r matches AccountAppearance::Initials { initials, color_hue } && initials@
            == spec_normalize_initials(spec_initials_label(*account)) && color_hue
            == spec_color_hue(*account),
{
    AccountAppearance::Initials {
        initials: derive_account_initials(account),
        color_hue: account_color_hue(account),
    }
}

pub open spec fn min_hue(h: u16) -> u16 {
    if h <= 360 {
        h
    } else {
        360
    }
}

/// Normalize user-supplied appearance strings, keeping the selected mode:
/// initials normalized, image id trimmed, hue capped at 360. A normalized
/// initials appearance passes validation (shown where the letters its
/// initials are taken from are ASCII, whose upper-casing is known here).
pub fn normalize_account_appearance(appearance: AccountAppearance) -> (r: AccountAppearance)
    ensures
        appearance matches AccountAppearance::Initials { initials, .. } && spec_is_ascii_text(
            spec_raw_initials(initials@),
        ) ==> spec_appearance_check(r) is None,
        match appearance {
            AccountAppearance::Initials { initials, color_hue } => r matches AccountAppearance::Initials {
                initials: i2,
                color_hue: h2,
            } && i2@ == spec_normalize_initials(initials@) && h2 == min_hue(color_hue),
            AccountAppearance::Image { image_id, initials, color_hue } => r matches AccountAppearance::Image {
                image_id: d2,
                initials: i2,
                color_hue: h2,
            } && d2@ == spec_trim(image_id@) && i2@ == spec_normalize_initials(initials@) && h2
                == min_hue(color_hue),
        },
{
    match appearance {
        AccountAppearance::Initials { initials, color_hue } => AccountAppearance::Initials {
            initials: normalize_initials(initials.as_str()),
            color_hue: if color_hue <= 360 {
                color_hue
            } else {
                360
            },
        },
        AccountAppearance::Image { image_id, initials, color_hue } => AccountAppearance::Image {
            image_id: trim(image_id.as_str()),
            initials: normalize_initials(initials.as_str()),
            color_hue: if color_hue <= 360 {
                color_hue
            } else {
                360
            },
        },
    }
}

/// A logo image id is non-empty ASCII alphanumerics and hyphens.
pub open spec fn spec_valid_logo_id(s: Seq<char>) -> bool {
    s.len() > 0 && forall|i: int| 0 <= i < s.len() ==> spec_is_ascii_alnum(#[trigger] s[i]) || s[i]
        == '-'
}

pub open spec fn spec_logo_id_check(s: Seq<char>) -> Option<(ApiErrorCode, Seq<char>)> {
    if spec_valid_logo_id(s) {
        None
    } else {
        Some((ApiErrorCode::InvalidAccountLogo, LOGO_ID_MESSAGE@))
    }
}

pub fn validate_logo_image_id(image_id: &str) -> (r: Result<(), ApiError>)
    ensures
        check_outcome(r, spec_logo_id_check(image_id@)),
{
    let v = chars_of(image_id);
    let mut ok = v.len() > 0;
    let mut i: usize = 0;
    while i < v.len()
        invariant
            i <= v@.len(),
            v@ == image_id@,
            ok == (v@.len() > 0 && forall|j: int|
                0 <= j < i ==> spec_is_ascii_alnum(#[trigger] v@[j]) || v@[j] == '-'),
        decreases v@.len() - i,
    {
        if !(is_ascii_alnum(v[i]) || v[i] == '-') {
            ok = false;
        }
        i = i + 1;
    }
    if !ok {
        return Err(bad_request(ApiErrorCode::InvalidAccountLogo, LOGO_ID_MESSAGE));
    }
    Ok(())
}

/// The first rule an appearance breaks: blank or over-long initials, a hue
/// above 360, or an invalid logo image id.
pub open spec fn spec_appearance_check(a: AccountAppearance) -> Option<(ApiErrorCode, Seq<char>)> {
    let (initials, hue, image) = match a {
        AccountAppearance::Initials { initials, color_hue } => (initials@, color_hue, None),
        AccountAppearance::Image { image_id, initials, color_hue } => (
            initials@,
            color_hue,
            Some(image_id@),
        ),
    };
    if spec_is_blank(initials) || initials.len() > 4 {
        Some((ApiErrorCode::InvalidAccount, INITIALS_MESSAGE@))
    } else if hue > 360 {
        Some((ApiErrorCode::InvalidAccount, HUE_MESSAGE@))
    } else {
        match image {
            Some(id) => spec_logo_id_check(id),
            None => None,
        }
    }
}

pub fn validate_account_appearance(appearance: &AccountAppearance) -> (r: Result<(), ApiError>)
    ensures
        check_outcome(r, spec_appearance_check(*appearance)),
{
    let (initials, color_hue, image_id) = match appearance {
        AccountAppearance::Initials { initials, color_hue } => (initials, color_hue, None),
        AccountAppearance::Image { image_id, initials, color_hue } => (
            initials,
            color_hue,
            Some(image_id),
        ),
    };
    if is_blank(initials.as_str()) || initials.as_str().unicode_len() > 4 {
        return Err(bad_request(ApiErrorCode::InvalidAccount, INITIALS_MESSAGE));
    }
    if *color_hue > 360 {
        return Err(bad_request(ApiErrorCode::InvalidAccount, HUE_MESSAGE));
    }
    if let Some(image_id) = image_id {
        validate_logo_image_id(image_id.as_str())?;
    }
    Ok(())
}

/// No character of `s` is whitespace.
pub open spec fn spec_no_whitespace(s: Seq<char>) -> bool {
    forall|i: int| 0 <= i < s.len() ==> !spec_is_whitespace(#[trigger] s[i])
}

proof fn lemma_word_initials_no_whitespace(s: Seq<char>)
    ensures
        spec_no_whitespace(word_initials(s)),
    decreases s.len(),
{
    if s.len() > 0 {
        lemma_word_initials_no_whitespace(s.drop_last());
    }
}

proof fn lemma_non_ws_chars_no_whitespace(s: Seq<char>)
    ensures
        spec_no_whitespace(non_ws_chars(s)),
    decreases s.len(),
{
    if s.len() > 0 {
        lemma_non_ws_chars_no_whitespace(s.drop_last());
    }
}

proof fn lemma_raw_initials_no_whitespace(s: Seq<char>)
    ensures
        spec_no_whitespace(spec_raw_initials(s)),
        spec_trim(spec_raw_initials(s)) == spec_raw_initials(s),
{
    lemma_word_initials_no_whitespace(s);
    lemma_non_ws_chars_no_whitespace(s);
    let r = spec_raw_initials(s);
    assert(spec_no_whitespace(r));
    crate::text::lemma_ws_prefix_len(r, 0);
    crate::text::lemma_ws_suffix_len(r, 0);
    assert(r.skip(0) =~= r);
    assert(r.take(r.len() as int) =~= r);
}

} // verus!
