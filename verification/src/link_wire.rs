//! The runtime↔authority-server link wire, near end: SSE event-block framing,
//! query-value percent-encoding, the down-channel subscribe request, the
//! link's error vocabulary, and the jitter source of the reconnect backoff.
use vstd::prelude::*;

use crate::clock::since_unix_epoch;
use crate::errors::{RuntimeError, RuntimeErrorCode, Terminality};
use crate::json::{ascii_at, write_raw};
use crate::ledger::concat;
use crate::text::{push_decimal, spec_decimal,
    append_chars, chars_of, find_char_from, lemma_find_char_bound, matches_at, slice_chars,
    spec_find_char, spec_trim_start_char, string_of, trim_start_char,
};

verus! {

/// A line without the `\r` of a `\r\n` ending.
pub open spec fn spec_strip_cr(line: Seq<char>) -> Seq<char> {
    if line.len() > 0 && line.last() == '\r' {
        line.drop_last()
    } else {
        line
    }
}

/// What one SSE line contributes to the payload: the value of a `data:` field
/// without its leading spaces; nothing for any other line.
pub open spec fn spec_line_data(line: Seq<char>) -> Seq<char> {
    if line.len() >= 5 && line.subrange(0, 5) == "data:"@ {
        spec_trim_start_char(line.skip(5), ' ')
    } else {
        Seq::empty()
    }
}

/// The concatenated `data:` values of the lines of `s`, split as `str::lines`
/// splits: at `\n`, a `\r` before the `\n` dropped, no empty last line after
/// a final `\n`.
pub open spec fn spec_sse_data(s: Seq<char>) -> Seq<char>
    decreases s.len(),
{
    if s.len() == 0 {
        Seq::empty()
    } else {
        let k = spec_find_char(s, '\n') as int;
        if k < s.len() {
            spec_line_data(spec_strip_cr(s.subrange(0, k))) + spec_sse_data(
                s.subrange(k + 1, s.len() as int),
            )
        } else {
            spec_line_data(s)
        }
    }
}

fn line_data(line: &[char]) -> (r: Vec<char>)
    ensures
        r@ == spec_line_data(line@),
{
    let prefix = chars_of("data:");
    proof {
        reveal_strlit("data:");
    }
    if matches_at(line, 0, prefix.as_slice()) {
        let value = slice_chars(line, 5, line.len());
        assert(value@ =~= line@.skip(5));
        trim_start_char(value.as_slice(), ' ')
    } else {
        Vec::new()
    }
}

/// The payload of one SSE event block: its `data:` values concatenated, or
/// `None` for a block without data (a keep-alive comment).
pub fn sse_block_payload(block: &str) -> (r: Option<String>)
    ensures
        match r {
            Some(d) => d@ == spec_sse_data(block@) && d@.len() > 0,
            None => spec_sse_data(block@).len() == 0,
        },
{
    let v = chars_of(block);
    let n = v.len();
    let mut data: Vec<char> = Vec::new();
    let mut i: usize = 0;
    assert(v@.subrange(0, n as int) =~= v@);
    assert(data@ + spec_sse_data(v@) =~= spec_sse_data(v@));
    while i < n
        invariant
            n == v@.len(),
            v@ == block@,
            i <= n,
            data@ + spec_sse_data(v@.subrange(i as int, n as int)) == spec_sse_data(block@),
        decreases n - i,
    {
        let ghost s = v@.subrange(i as int, n as int);
        let k = find_char_from(v.as_slice(), i, '\n');
        proof {
            lemma_find_char_bound(s, '\n');
        }
        if k < n {
            let end = if k > i && v[k - 1] == '\r' {
                k - 1
            } else {
                k
            };
            let line = slice_chars(v.as_slice(), i, end);
            let part = line_data(line.as_slice());
            proof {
                let raw = s.subrange(0, k - i);
                assert(raw =~= v@.subrange(i as int, k as int));
                assert(line@ =~= spec_strip_cr(raw));
                assert(s.subrange(k - i + 1, s.len() as int) =~= v@.subrange(k + 1, n as int));
                let tail = spec_sse_data(v@.subrange(k + 1, n as int));
                assert(data@ + (part@ + tail) =~= (data@ + part@) + tail);
            }
            append_chars(&mut data, part.as_slice());
            i = k + 1;
        } else {
            let line = slice_chars(v.as_slice(), i, n);
            let part = line_data(line.as_slice());
            proof {
                assert(line@ =~= s);
                assert(v@.subrange(n as int, n as int) =~= Seq::<char>::empty());
                assert(data@ + part@ + Seq::<char>::empty() =~= data@ + part@);
            }
            append_chars(&mut data, part.as_slice());
            i = n;
        }
    }
    proof {
        assert(v@.subrange(n as int, n as int) =~= Seq::<char>::empty());
        assert(data@ + Seq::<char>::empty() =~= data@);
    }
    if data.len() == 0 {
        None
    } else {
        Some(string_of(data.as_slice()))
    }
}

/// RFC 3986 unreserved bytes: ASCII letters, digits, `-`, `.`, `_`, `~`.
pub open spec fn spec_unreserved(b: u8) -> bool {
    (65 <= b <= 90) || (97 <= b <= 122) || (48 <= b <= 57) || b == 45 || b == 46 || b == 95 || b
        == 126
}

/// The upper-case hexadecimal digit of `n < 16`.
pub open spec fn upper_hex_digit(n: u8) -> char {
    if n < 10 {
        ((48 + n) as u32) as char
    } else {
        ((55 + n) as u32) as char
    }
}

/// One byte of a percent-encoded value: itself if unreserved, else `%XX`.
pub open spec fn spec_percent_byte(b: u8) -> Seq<char> {
    if spec_unreserved(b) {
        seq![(b as u32) as char]
    } else {
        seq!['%', upper_hex_digit(b / 16), upper_hex_digit(b % 16)]
    }
}

pub open spec fn spec_percent_encode_bytes(bs: Seq<u8>) -> Seq<char>
    decreases bs.len(),
{
    if bs.len() == 0 {
        Seq::empty()
    } else {
        spec_percent_encode_bytes(bs.drop_last()) + spec_percent_byte(bs.last())
    }
}

fn upper_hex(n: u8) -> (c: char)
    requires
        n < 16,
    ensures
        c == upper_hex_digit(n),
{
    if n < 10 {
        ascii_at((48 + n) as u32)
    } else {
        ascii_at((55 + n) as u32)
    }
}

/// A character percent-encoded text is made of: an ASCII letter or digit,
/// `-`, `.`, `_`, `~`, or `%`.
pub open spec fn spec_is_encoded_char(c: char) -> bool {
    ('A' <= c && c <= 'Z') || ('a' <= c && c <= 'z') || ('0' <= c && c <= '9') || c == '-' || c
        == '.' || c == '_' || c == '~' || c == '%'
}

proof fn lemma_encoded_chars(bytes: Seq<u8>)
    ensures
        forall|i: int|
            0 <= i < spec_percent_encode_bytes(bytes).len() ==> spec_is_encoded_char(
                #[trigger] spec_percent_encode_bytes(bytes)[i],
            ),
    decreases bytes.len(),
{
    if bytes.len() > 0 {
        lemma_encoded_chars(bytes.drop_last());
        let rest = spec_percent_encode_bytes(bytes.drop_last());
        let b = bytes.last();
        let piece = spec_percent_byte(b);
        let all = spec_percent_encode_bytes(bytes);
        assert(all == rest + piece);
        if spec_unreserved(b) {
            assert(spec_is_encoded_char((b as u32) as char));
        } else {
            assert(spec_is_encoded_char(upper_hex_digit(b / 16)));
            assert(spec_is_encoded_char(upper_hex_digit(b % 16)));
        }
        assert forall|i: int| 0 <= i < all.len() implies spec_is_encoded_char(#[trigger] all[i]) by {
            if i >= rest.len() {
                assert(all[i] == piece[i - rest.len()]);
            } else {
                assert(all[i] == rest[i]);
            }
        }
    }
}

/// Percent-encode a query value: each UTF-8 byte kept if unreserved, else
/// written `%XX` in upper-case hex. The text is made of unreserved
/// characters and `%` only, and percent-decoding it gives back exactly the
/// value's bytes.
pub fn percent_encode(value: &str) -> (r: String)
    ensures
        r@ == spec_percent_encode_bytes(vstd::utf8::encode_utf8(value@)),
        forall|i: int| 0 <= i < r@.len() ==> spec_is_encoded_char(#[trigger] r@[i]),
        spec_percent_decode(r@) == vstd::utf8::encode_utf8(value@),
{
    let bytes = value.as_bytes();
    assert(bytes@ == vstd::utf8::encode_utf8(value@));
    let mut out: Vec<char> = Vec::new();
    let mut i: usize = 0;
    assert(bytes@.take(0) =~= Seq::<u8>::empty());
    while i < bytes.len()
        invariant
            i <= bytes@.len(),
            out@ == spec_percent_encode_bytes(bytes@.take(i as int)),
        decreases bytes@.len() - i,
    {
        proof {
            let p = bytes@.take(i + 1);
            assert(p.drop_last() =~= bytes@.take(i as int));
            assert(p.last() == bytes@[i as int]);
        }
        let b = bytes[i];
        if (65 <= b && b <= 90) || (97 <= b && b <= 122) || (48 <= b && b <= 57) || b == 45 || b
            == 46 || b == 95 || b == 126 {
            out.push(ascii_at(b as u32));
        } else {
            let piece = [ascii_at(37), upper_hex(b / 16), upper_hex(b % 16)];
            append_chars(&mut out, &piece);
            assert(piece@ =~= seq!['%', upper_hex_digit(b / 16), upper_hex_digit(b % 16)]);
        }
        i = i + 1;
    }
    assert(bytes@.take(bytes@.len() as int) =~= bytes@);
    proof {
        lemma_encoded_chars(bytes@);
        law_percent_decoding_undoes_encoding(bytes@);
    }
    string_of(out.as_slice())
}

/// The value of a hexadecimal digit (either case; `0` for any other
/// character).
pub open spec fn hex_value(c: char) -> int {
    if '0' <= c && c <= '9' {
        c as int - 48
    } else if 'A' <= c && c <= 'F' {
        c as int - 55
    } else if 'a' <= c && c <= 'f' {
        c as int - 87
    } else {
        0
    }
}

/// Percent-decoding: `%XY` is the byte of hex value `XY`, any other
/// character the byte of its code.
pub open spec fn spec_percent_decode(cs: Seq<char>) -> Seq<u8>
    decreases cs.len(),
{
    if cs.len() == 0 {
        Seq::empty()
    } else if cs[0] == '%' && cs.len() >= 3 {
        seq![(16 * hex_value(cs[1]) + hex_value(cs[2])) as u8] + spec_percent_decode(cs.skip(3))
    } else {
        seq![(cs[0] as u32) as u8] + spec_percent_decode(cs.skip(1))
    }
}

proof fn lemma_percent_encode_concat(a: Seq<u8>, b: Seq<u8>)
    ensures
        spec_percent_encode_bytes(a + b) == spec_percent_encode_bytes(a)
            + spec_percent_encode_bytes(b),
    decreases b.len(),
{
    if b.len() == 0 {
        assert(a + b =~= a);
        assert(spec_percent_encode_bytes(a) + spec_percent_encode_bytes(b) =~= spec_percent_encode_bytes(a));
    } else {
        assert((a + b).drop_last() =~= a + b.drop_last());
        assert((a + b).last() == b.last());
        lemma_percent_encode_concat(a, b.drop_last());
        assert(spec_percent_encode_bytes(a) + spec_percent_encode_bytes(b.drop_last())
            + spec_percent_byte(b.last()) =~= spec_percent_encode_bytes(a) + spec_percent_encode_bytes(b));
    }
}

proof fn lemma_hex_digit_value(n: u8)
    requires
        n < 16,
    ensures
        hex_value(upper_hex_digit(n)) == n,
{
    if n < 10 {
        assert(((48 + n) as u32) as char as int == 48 + n);
    } else {
        assert(((55 + n) as u32) as char as int == 55 + n);
    }
}

/// Percent-decoding the encoding gives back exactly the bytes encoded: every
/// unreserved byte is its own character and every other byte its `%XX`.
pub proof fn law_percent_decoding_undoes_encoding(bytes: Seq<u8>)
    ensures
        spec_percent_decode(spec_percent_encode_bytes(bytes)) == bytes,
    decreases bytes.len(),
{
    if bytes.len() > 0 {
        let b = bytes[0];
        let tail = bytes.drop_first();
        assert(bytes =~= seq![b] + tail);
        lemma_percent_encode_concat(seq![b], tail);
        assert(seq![b].drop_last() =~= Seq::<u8>::empty());
        assert(seq![b].last() == b);
        assert(spec_percent_encode_bytes(Seq::<u8>::empty()) =~= Seq::<char>::empty());
        assert(Seq::<char>::empty() + spec_percent_byte(b) =~= spec_percent_byte(b));
        assert(spec_percent_encode_bytes(seq![b]) =~= spec_percent_byte(b));
        law_percent_decoding_undoes_encoding(tail);
        let piece = spec_percent_byte(b);
        let rest = spec_percent_encode_bytes(tail);
        let cs = piece + rest;
        if spec_unreserved(b) {
            assert(cs[0] == (b as u32) as char);
            assert(cs[0] != '%');
            assert(cs.skip(1) =~= rest);
            assert(((cs[0] as u32) as u8) == b);
        } else {
            assert(cs[0] == '%');
            assert(cs.skip(3) =~= rest);
            lemma_hex_digit_value(b / 16);
            lemma_hex_digit_value(b % 16);
            assert(cs[1] == upper_hex_digit(b / 16));
            assert(cs[2] == upper_hex_digit(b % 16));
            assert((16 * hex_value(cs[1]) + hex_value(cs[2])) == b);
        }
        assert(spec_percent_decode(cs) =~= seq![b] + tail);
    }
}

/// The state of the xorshift64* jitter source that decorrelates reconnect
/// backoff. The state is odd when seeded and never zero.
#[derive(Debug)]
pub struct TokioScheduler {
    rng_state: u64,
}

/// The seed used when the clock stands before the Unix epoch.
pub const FALLBACK_SEED: u64 = 0x9E37_79B9_7F4A_7C15;

/// One xorshift64 step.
pub open spec fn spec_xorshift(x: u64) -> u64 {
    let a = x ^ (x >> 12u64);
    let b = a ^ (a << 25u64);
    b ^ (b >> 27u64)
}

impl TokioScheduler {
    pub closed spec fn state(&self) -> u64 {
        self.rng_state
    }

    /// A jitter source seeded from the clock: the low 64 bits of the
    /// nanoseconds since the epoch (`FALLBACK_SEED` before it), made odd.
    pub fn new() -> (r: Self)
        ensures
            r.state() % 2 == 1,
    {
        let base: u64 = match since_unix_epoch() {
            Some((secs, nanos)) => {
                let total: u128 = (secs as u128) * 1_000_000_000 + (nanos as u128);
                #[verifier::truncate]
                (total as u64)
            },
            None => FALLBACK_SEED,
        };
        let seed = base | 1u64;
        assert(seed % 2 == 1) by (bit_vector)
            requires
                seed == (base | 1u64),
        ;
        TokioScheduler { rng_state: seed }
    }

    /// A jitter source with a given state.
    pub fn with_state(state: u64) -> (r: Self)
        requires
            state != 0,
        ensures
            r.state() == state,
    {
        TokioScheduler { rng_state: state }
    }

    /// Advance the source and return 53 random bits: `jitter` is this
    /// over 2^53, a value in the unit interval `[0, 1)`.
    pub fn next_jitter_bits(&mut self) -> (r: u64)
        requires
            old(self).state() != 0,
        ensures
            final(self).state() == spec_xorshift(old(self).state()),
            final(self).state() != 0,
            r == ((final(self).state() as int * 0x2545_F491_4F6C_DD1D) % 0x1_0000_0000_0000_0000)
                / 0x800,
            r < 0x20_0000_0000_0000,
    {
        let x0 = self.rng_state;
        let mut x = x0;
        x = x ^ (x >> 12u64);
        x = x ^ (x << 25u64);
        x = x ^ (x >> 27u64);
        assert(x == spec_xorshift(x0));
        assert(x0 != 0 ==> spec_xorshift(x0) != 0) by (bit_vector);
        self.rng_state = x;
        let value = x.wrapping_mul(0x2545_F491_4F6C_DD1D);
        let bits = value >> 11u64;
        assert(bits == value / 0x800) by (bit_vector)
            requires
                bits == value >> 11u64,
        ;
        bits
    }
}


/// Index of the first `\n\n` in `s`, or `s.len()` when there is none.
pub open spec fn spec_find_blank_line(s: Seq<char>) -> nat
    decreases s.len(),
{
    if s.len() < 2 {
        s.len()
    } else if s[0] == '\n' && s[1] == '\n' {
        0
    } else {
        1 + spec_find_blank_line(s.drop_first())
    }
}

pub proof fn lemma_find_blank_line_bound(s: Seq<char>)
    ensures
        spec_find_blank_line(s) <= s.len(),
        spec_find_blank_line(s) < s.len() ==> spec_find_blank_line(s) + 1 < s.len(),
    decreases s.len(),
{
    if s.len() >= 2 && !(s[0] == '\n' && s[1] == '\n') {
        lemma_find_blank_line_bound(s.drop_first());
    }
}

proof fn lemma_find_blank_line(s: Seq<char>, k: int)
    requires
        0 <= k <= s.len(),
        forall|j: int| 0 <= j < k && j + 1 < s.len() ==> !(#[trigger] s[j] == '\n' && s[j + 1] == '\n'),
        (k + 1 < s.len() && s[k] == '\n' && s[k + 1] == '\n') || k == s.len(),
    ensures
        spec_find_blank_line(s) == k,
    decreases s.len(),
{
    if s.len() < 2 {
        if k < s.len() {
            assert(false);
        }
    } else if s[0] == '\n' && s[1] == '\n' {
        if k > 0 {
            assert(!(s[0] == '\n' && s[1] == '\n'));
        }
    } else {
        let t = s.drop_first();
        assert(k > 0);
        assert forall|j: int| 0 <= j < k - 1 && j + 1 < t.len() implies !(#[trigger] t[j] == '\n'
            && t[j + 1] == '\n') by {
            assert(t[j] == s[j + 1] && t[j + 1] == s[j + 2]);
        }
        if k < s.len() {
            assert(t[k - 1] == s[k] && t[k] == s[k + 1]);
        }
        lemma_find_blank_line(t, k - 1);
    }
}

/// The complete SSE event blocks at the front of `buffer`, each with its
/// closing `\n\n`, and what remains after them.
pub open spec fn spec_split_sse_blocks(buffer: Seq<char>) -> (Seq<Seq<char>>, Seq<char>)
    decreases buffer.len(),
{
    let k = spec_find_blank_line(buffer) as int;
    if k >= buffer.len() {
        (Seq::empty(), buffer)
    } else {
        proof {
            lemma_find_blank_line_bound(buffer);
        }
        let (blocks, rest) = spec_split_sse_blocks(buffer.skip(k + 2));
        (seq![buffer.take(k + 2)] + blocks, rest)
    }
}

/// Split the complete event blocks off an SSE buffer: the blocks, each with
/// its closing blank line, and the incomplete rest to keep for the next
/// chunk.
pub fn split_sse_blocks(buffer: &str) -> (r: (Vec<String>, String))
    ensures
        r.0@.map_values(|b: String| b@) == spec_split_sse_blocks(buffer@).0,
        r.1@ == spec_split_sse_blocks(buffer@).1,
{
    let v = chars_of(buffer);
    let n = v.len();
    let mut blocks: Vec<String> = Vec::new();
    let mut start: usize = 0;
    let mut i: usize = 0;
    let mut pair: Vec<char> = Vec::new();
    pair.push('\n');
    pair.push('\n');
    assert(pair@ =~= seq!['\n', '\n']);
    assert(v@.skip(0) =~= v@);
    assert(blocks@.map_values(|b: String| b@) =~= Seq::<Seq<char>>::empty());
    while i < n
        invariant
            n == v@.len(),
            v@ == buffer@,
            pair@ == seq!['\n', '\n'],
            start <= i <= n,
            forall|j: int| start <= j < i && j + 1 < n ==> !(#[trigger] v@[j] == '\n' && v@[j + 1] == '\n'),
            ({
                let (bs, rest) = spec_split_sse_blocks(v@.skip(start as int));
                blocks@.map_values(|b: String| b@) + bs == spec_split_sse_blocks(v@).0 && rest
                    == spec_split_sse_blocks(v@).1
            }),
        decreases n - i,
    {
        if matches_at(v.as_slice(), i, pair.as_slice()) {
            let ghost tail = v@.skip(start as int);
            proof {
                assert(v@.subrange(i as int, i + 2)[0] == v@[i as int]);
                assert(v@.subrange(i as int, i + 2)[1] == v@[i + 1]);
                assert(v@[i as int] == '\n' && v@[i + 1] == '\n');
                assert forall|j: int| 0 <= j < i - start && j + 1 < tail.len() implies !(
                #[trigger] tail[j] == '\n' && tail[j + 1] == '\n') by {
                    assert(tail[j] == v@[start + j] && tail[j + 1] == v@[start + j + 1]);
                }
                assert(tail[i - start] == v@[i as int] && tail[i - start + 1] == v@[i + 1]);
                lemma_find_blank_line(tail, i - start);
                assert(tail.skip(i - start + 2) =~= v@.skip(i + 2));
                assert(tail.take(i - start + 2) =~= v@.subrange(start as int, i + 2));
            }
            let block = slice_chars(v.as_slice(), start, i + 2);
            let ghost before = blocks@;
            blocks.push(string_of(block.as_slice()));
            proof {
                let (bs, rest) = spec_split_sse_blocks(v@.skip(i + 2));
                assert(blocks@.map_values(|b: String| b@) =~= before.map_values(|b: String| b@).push(
                    v@.subrange(start as int, i + 2),
                ));
                assert(blocks@.map_values(|b: String| b@) + bs =~= before.map_values(
                    |b: String| b@,
                ) + (seq![v@.subrange(start as int, i + 2)] + bs));
            }
            start = i + 2;
            i = i + 2;
        } else {
            proof {
                if i + 1 < n && v@[i as int] == '\n' && v@[i + 1] == '\n' {
                    assert(v@.subrange(i as int, i + 2) =~= pair@);
                }
            }
            i = i + 1;
        }
    }
    proof {
        let tail = v@.skip(start as int);
        assert forall|j: int| 0 <= j < tail.len() && j + 1 < tail.len() implies !(#[trigger] tail[j]
            == '\n' && tail[j + 1] == '\n') by {
            assert(tail[j] == v@[start + j] && tail[j + 1] == v@[start + j + 1]);
        }
        lemma_find_blank_line(tail, tail.len() as int);
        assert(blocks@.map_values(|b: String| b@) + Seq::<Seq<char>>::empty() =~= blocks@.map_values(
            |b: String| b@,
        ));
    }
    let rest = slice_chars(v.as_slice(), start, n);
    assert(rest@ =~= v@.skip(start as int));
    (blocks, string_of(rest.as_slice()))
}


/// The blocks laid end to end.
pub open spec fn spec_concat_blocks(blocks: Seq<Seq<char>>) -> Seq<char>
    decreases blocks.len(),
{
    if blocks.len() == 0 {
        Seq::empty()
    } else {
        blocks[0] + spec_concat_blocks(blocks.drop_first())
    }
}

/// Splitting an SSE buffer loses nothing: the blocks laid end to end,
/// followed by the rest, give the buffer back; each block ends with the
/// blank line that closes it, and the rest holds no blank line.
pub proof fn law_split_sse_blocks_is_lossless(buffer: Seq<char>)
    ensures
        spec_concat_blocks(spec_split_sse_blocks(buffer).0) + spec_split_sse_blocks(buffer).1
            == buffer,
        forall|i: int|
            0 <= i < spec_split_sse_blocks(buffer).0.len() ==> {
                let b = #[trigger] spec_split_sse_blocks(buffer).0[i];
                b.len() >= 2 && b[b.len() - 2] == '\n' && b[b.len() - 1] == '\n'
            },
        spec_find_blank_line(spec_split_sse_blocks(buffer).1) == spec_split_sse_blocks(buffer).1.len(),
    decreases buffer.len(),
{
    let k = spec_find_blank_line(buffer) as int;
    lemma_find_blank_line_bound(buffer);
    if k < buffer.len() {
        let tail = buffer.skip(k + 2);
        law_split_sse_blocks_is_lossless(tail);
        let (bs, rest) = spec_split_sse_blocks(tail);
        let head = buffer.take(k + 2);
        let blocks = seq![head] + bs;
        assert(blocks.drop_first() =~= bs);
        assert(blocks[0] == head);
        assert(spec_concat_blocks(blocks) == head + spec_concat_blocks(bs));
        assert(head + spec_concat_blocks(bs) + rest =~= head + (spec_concat_blocks(bs) + rest));
        assert(head + tail =~= buffer);
        lemma_blank_line_at(buffer);
        assert forall|i: int| 0 <= i < blocks.len() implies {
            let b = #[trigger] blocks[i];
            b.len() >= 2 && b[b.len() - 2] == '\n' && b[b.len() - 1] == '\n'
        } by {
            if i > 0 {
                assert(blocks[i] == bs[i - 1]);
            }
        }
    } else {
        assert(spec_concat_blocks(Seq::<Seq<char>>::empty()) + buffer =~= buffer);
    }
}

proof fn lemma_blank_line_at(s: Seq<char>)
    requires
        spec_find_blank_line(s) < s.len(),
    ensures
        s[spec_find_blank_line(s) as int] == '\n',
        s[spec_find_blank_line(s) as int + 1] == '\n',
    decreases s.len(),
{
    if s.len() >= 2 && !(s[0] == '\n' && s[1] == '\n') {
        let t = s.drop_first();
        lemma_find_blank_line_bound(t);
        lemma_blank_line_at(t);
        assert(s[spec_find_blank_line(s) as int] == t[spec_find_blank_line(t) as int]);
        assert(s[spec_find_blank_line(s) as int + 1] == t[spec_find_blank_line(t) as int + 1]);
    }
}

pub const COVERAGE_PARAM: &'static str = "coverage=";

pub const AFTER_SEQ_PARAM: &'static str = "afterSeq=";

/// The query of a down-channel subscribe: the link's coverage (JSON text,
/// none when it is the wire's default `Complete`) percent-encoded, then the
/// resume cursor.
pub open spec fn spec_stream_query(coverage: Option<Seq<char>>, cursor: Option<u64>) -> Seq<char> {
    let cov = match coverage {
        Some(c) => Some(COVERAGE_PARAM@ + spec_percent_encode_bytes(vstd::utf8::encode_utf8(c))),
        None => None,
    };
    let after = match cursor {
        Some(a) => Some(AFTER_SEQ_PARAM@ + spec_decimal(a as nat)),
        None => None,
    };
    match (cov, after) {
        (None, None) => Seq::empty(),
        (Some(x), None) => seq!['?'] + x,
        (None, Some(y)) => seq!['?'] + y,
        (Some(x), Some(y)) => seq!['?'] + x + seq!['&'] + y,
    }
}

/// The URL of a down-channel subscribe at `subscribe_path` for a link with
/// `coverage` (JSON text; `None` for the default `Complete`), resuming after
/// `cursor`.
pub fn stream_request_url(subscribe_path: &str, coverage: Option<&str>, cursor: Option<u64>) -> (r:
    String)
    ensures
        r@ == subscribe_path@ + spec_stream_query(
            match coverage {
                Some(c) => Some(c@),
                None => None,
            },
            cursor,
        ),
{
    let mut out = chars_of(subscribe_path);
    let ghost start = out@;
    let mut first = true;
    match coverage {
        Some(c) => {
            out.push('?');
            write_raw(&mut out, COVERAGE_PARAM);
            let encoded = percent_encode(c);
            write_raw(&mut out, encoded.as_str());
            first = false;
        },
        None => {},
    }
    match cursor {
        Some(a) => {
            if first {
                out.push('?');
            } else {
                out.push('&');
            }
            write_raw(&mut out, AFTER_SEQ_PARAM);
            push_decimal(&mut out, a);
        },
        None => {},
    }
    proof {
        assert(out@ =~= subscribe_path@ + spec_stream_query(
            match coverage {
                Some(c) => Some(c@),
                None => None,
            },
            cursor,
        ));
    }
    string_of(out.as_slice())
}

pub const LINK_REJECTED_PREFIX: &'static str = "remote authority server rejected link request: ";

pub const LINK_TRANSPORT_PREFIX: &'static str = "runtime↔authority-server link transport error: ";

pub const NEAR_END_GONE_MESSAGE: &'static str = "runtime↔authority-server link near-end is gone";

/// A link engine's verdict in the link's error vocabulary: a permanent one
/// (a 4xx, a broken contract) is `GatewayRejected`; a transient one
/// (network, deadline, retries exhausted) a retryable
/// `TransportDisconnected`.
pub fn engine_error_to_runtime(permanent: bool, message: &str) -> (r: RuntimeError)
    ensures
        permanent ==> r.0.code == RuntimeErrorCode::GatewayRejected && r.0.terminality
            == Terminality::Permanent && r.0.message@ == LINK_REJECTED_PREFIX@ + message@,
        !permanent ==> r.0.code == RuntimeErrorCode::TransportDisconnected && r.0.terminality
            == Terminality::Transient && r.0.message@ == LINK_TRANSPORT_PREFIX@ + message@,
        r.0.details@ == "{}"@,
{
    if permanent {
        RuntimeError::new(RuntimeErrorCode::GatewayRejected, concat(LINK_REJECTED_PREFIX, message))
    } else {
        RuntimeError::retryable(
            RuntimeErrorCode::TransportDisconnected,
            concat(LINK_TRANSPORT_PREFIX, message),
        )
    }
}

/// The error of a call on a link whose near end is gone: retryable.
pub fn engine_gone() -> (r: RuntimeError)
    ensures
        r.0.code == RuntimeErrorCode::TransportDisconnected,
        r.0.terminality == Terminality::Transient,
        r.0.message@ == NEAR_END_GONE_MESSAGE@,
{
    RuntimeError::retryable(
        RuntimeErrorCode::TransportDisconnected,
        crate::errors::owned(NEAR_END_GONE_MESSAGE),
    )
}

pub const REMOTE_REJECTED_OPEN: &'static str = "remote authority server rejected link request (";

/// The error of a link request the remote authority server answered with a
/// failure `status` (its text, such as `403 Forbidden`) and `body`.
pub fn remote_rejection(status: &str, body: &str) -> (r: RuntimeError)
    ensures
        r.0.code == RuntimeErrorCode::GatewayRejected,
        r.0.terminality == Terminality::Permanent,
        r.0.message@ == REMOTE_REJECTED_OPEN@ + status@ + seq![')', ':', ' '] + body@,
{
    let mut text = chars_of(REMOTE_REJECTED_OPEN);
    write_raw(&mut text, status);
    text.push(')');
    text.push(':');
    text.push(' ');
    write_raw(&mut text, body);
    RuntimeError::new(RuntimeErrorCode::GatewayRejected, string_of(text.as_slice()))
}

} // verus!
