//! JSON text building: string literals and small objects.
use vstd::prelude::*;

verus! {

pub open spec fn hex_digit(n: u32) -> char {
    if n < 10 {
        (('0' as u32) + n) as char
    } else {
        (('a' as u32) + (n - 10)) as char
    }
}

/// The JSON escape of one character, as `serde_json` writes it.
pub open spec fn spec_escape_char(c: char) -> Seq<char> {
    if c == '"' {
        seq!['\\', '"']
    } else if c == '\\' {
        seq!['\\', '\\']
    } else if c == '\n' {
        seq!['\\', 'n']
    } else if c == '\r' {
        seq!['\\', 'r']
    } else if c == '\t' {
        seq!['\\', 't']
    } else if c == '\u{8}' {
        seq!['\\', 'b']
    } else if c == '\u{c}' {
        seq!['\\', 'f']
    } else if (c as u32) < 0x20 {
        seq!['\\', 'u', '0', '0', hex_digit((c as u32) / 16), hex_digit((c as u32) % 16)]
    } else {
        seq![c]
    }
}

/// The escaped body of a JSON string literal for `s`.
pub open spec fn spec_escape(s: Seq<char>) -> Seq<char>
    decreases s.len(),
{
    if s.len() == 0 {
        Seq::empty()
    } else {
        spec_escape(s.drop_last()) + spec_escape_char(s.last())
    }
}

/// The JSON string literal for `s`.
pub open spec fn spec_json_string(s: Seq<char>) -> Seq<char> {
    seq!['"'] + spec_escape(s) + seq!['"']
}

/// The ASCII character with code `k`.
pub fn ascii_at(k: u32) -> (c: char)
    requires
        k < 128,
    ensures
        c == k as char,
{
    let table: [char; 128] = [
        '\u{0}', '\u{1}', '\u{2}', '\u{3}', '\u{4}', '\u{5}', '\u{6}', '\u{7}', '\u{8}', '\u{9}',
        '\u{a}', '\u{b}', '\u{c}', '\u{d}', '\u{e}', '\u{f}', '\u{10}', '\u{11}', '\u{12}',
        '\u{13}', '\u{14}', '\u{15}', '\u{16}', '\u{17}', '\u{18}', '\u{19}', '\u{1a}', '\u{1b}',
        '\u{1c}', '\u{1d}', '\u{1e}', '\u{1f}', ' ', '!', '"', '#', '$', '%', '&', '\'', '(', ')',
        '*', '+', ',', '-', '.', '/', '0', '1', '2', '3', '4', '5', '6', '7', '8', '9', ':', ';',
        '<', '=', '>', '?', '@', 'A', 'B', 'C', 'D', 'E', 'F', 'G', 'H', 'I', 'J', 'K', 'L', 'M',
        'N', 'O', 'P', 'Q', 'R', 'S', 'T', 'U', 'V', 'W', 'X', 'Y', 'Z', '[', '\\', ']', '^', '_',
        '`', 'a', 'b', 'c', 'd', 'e', 'f', 'g', 'h', 'i', 'j', 'k', 'l', 'm', 'n', 'o', 'p', 'q',
        'r', 's', 't', 'u', 'v', 'w', 'x', 'y', 'z', '{', '|', '}', '~', '\u{7f}',
    ];
    table[k as usize]
}


fn push_seq(out: &mut Vec<char>, extra: &[char])
    ensures
        final(out)@ == old(out)@ + extra@,
{
    let mut i: usize = 0;
    let ghost start = out@;
    while i < extra.len()
        invariant
            i <= extra@.len(),
            out@ == start + extra@.subrange(0, i as int),
        decreases extra@.len() - i,
    {
        out.push(extra[i]);
        i = i + 1;
    }
    assert(extra@.subrange(0, extra@.len() as int) =~= extra@);
}

/// `serde_json::to_string` of a string: its JSON string literal as
/// serde_json's serializer writes it, which is `spec_json_string`: quotes
/// around the text, `"` and `\` backslash-escaped, `\b \f \n \r \t` for
/// those controls, `\u00xx` (lower-case hex) for the other controls below
/// U+0020, every other character as it is.
#[verifier::external_body]
fn json_string_literal(s: &str) -> (r: String)
    ensures
        r@ == spec_json_string(s@),
{
    serde_json::to_string(s).unwrap_or_default()
}

/// Append the JSON string literal of `s` to `out`.
pub fn write_json_string(out: &mut Vec<char>, s: &str)
    ensures
        final(out)@ == old(out)@ + spec_json_string(s@),
{
    let literal = json_string_literal(s);
    write_raw(out, literal.as_str());
}

/// What `serde_json` finds in JSON text `text` at JSON pointer `pointer`
/// (`serde_json::from_str` into a `Value`, then `Value::pointer`): whether
/// the text parses and holds the boolean `true` there.
pub uninterp spec fn json_true_at(text: Seq<char>, pointer: Seq<char>) -> bool;

/// `serde_json::from_str::<Value>(text)` followed by `Value::pointer(pointer)`
/// and `Value::as_bool`: `true` exactly when the text parses and holds `true`
/// at the pointer. The result is named, not stated: it is what serde_json's
/// parser gives, a function of the two strings alone.
#[verifier::external_body]
pub(crate) fn json_pointer_is_true(text: &str, pointer: &str) -> (r: bool)
    ensures
        r == json_true_at(text@, pointer@),
{
    match serde_json::from_str::<serde_json::Value>(text) {
        Ok(value) => value.pointer(pointer).and_then(serde_json::Value::as_bool).unwrap_or(false),
        Err(_) => false,
    }
}

/// Append the characters of `s` to `out`.
pub fn write_raw(out: &mut Vec<char>, s: &str)
    ensures
        final(out)@ == old(out)@ + s@,
{
    let v = crate::text::chars_of(s);
    push_seq(out, v.as_slice());
}

} // verus!
