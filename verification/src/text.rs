use vstd::prelude::*;

verus! {

/// Whether `c` carries the Unicode `White_Space` property, the class that
/// `char::is_whitespace` tests.
pub open spec fn spec_is_whitespace(c: char) -> bool {
    ||| ('\u{9}' <= c && c <= '\u{d}')
    ||| c == ' '
    ||| c == '\u{85}'
    ||| c == '\u{a0}'
    ||| c == '\u{1680}'
    ||| ('\u{2000}' <= c && c <= '\u{200a}')
    ||| c == '\u{2028}'
    ||| c == '\u{2029}'
    ||| c == '\u{202f}'
    ||| c == '\u{205f}'
    ||| c == '\u{3000}'
}

/// `c` is an ASCII character.
pub open spec fn spec_is_ascii_char(c: char) -> bool {
    (c as u32) < 128
}

/// Every character of `s` is ASCII.
pub open spec fn spec_is_ascii_text(s: Seq<char>) -> bool {
    forall|i: int| 0 <= i < s.len() ==> #[trigger] spec_is_ascii_char(s[i])
}

/// A piece of ASCII text is ASCII.
pub proof fn lemma_ascii_subrange(s: Seq<char>, a: int, b: int)
    requires
        spec_is_ascii_text(s),
        0 <= a <= b <= s.len(),
    ensures
        spec_is_ascii_text(s.subrange(a, b)),
{
    assert forall|j: int| 0 <= j < b - a implies #[trigger] spec_is_ascii_char(s.subrange(a, b)[j]) by {
        assert(s.subrange(a, b)[j] == s[a + j]);
    }
}

/// `char::to_ascii_uppercase`: `a`..`z` to `A`..`Z`, every other character
/// unchanged.
pub open spec fn ascii_upper(c: char) -> char {
    if 'a' <= c && c <= 'z' {
        ((c as u32) - 32) as char
    } else {
        c
    }
}

/// `char::to_ascii_lowercase`: `A`..`Z` to `a`..`z`, every other character
/// unchanged.
pub open spec fn ascii_lower(c: char) -> char {
    if 'A' <= c && c <= 'Z' {
        ((c as u32) + 32) as char
    } else {
        c
    }
}

pub fn is_whitespace(c: char) -> (r: bool)
    ensures
        r == spec_is_whitespace(c),
{
    ('\u{9}' <= c && c <= '\u{d}') || c == ' ' || c == '\u{85}' || c == '\u{a0}' || c == '\u{1680}'
        || ('\u{2000}' <= c && c <= '\u{200a}') || c == '\u{2028}' || c == '\u{2029}' || c
        == '\u{202f}' || c == '\u{205f}' || c == '\u{3000}'
}

/// The characters of `s`, in order (one pass of `str::chars`).
pub fn chars_of(s: &str) -> (v: Vec<char>)
    ensures
        v@ == s@,
{
    let mut it = s.chars();
    proof {
        vstd::string::axiom_spec_iter(s);
    }
    let mut v: Vec<char> = Vec::new();
    loop
        invariant
            v@ + vstd::std_specs::iter::IteratorSpec::remaining(&it) == s@,
            vstd::std_specs::iter::IteratorSpec::obeys_prophetic_iter_laws(&it),
            vstd::std_specs::iter::IteratorSpec::decrease(&it) is Some,
        ensures
            v@ == s@,
        decreases vstd::std_specs::iter::IteratorSpec::decrease(&it)->0,
    {
        let ghost before = it;
        let next = it.next();
        proof {
            vstd::string::next_postcondition(&before, &it, next);
        }
        match next {
            Some(c) => {
                proof {
                    let rest = vstd::std_specs::iter::IteratorSpec::remaining(&before);
                    assert(v@.push(c) + rest.drop_first() =~= v@ + rest);
                }
                v.push(c);
            },
            None => {
                proof {
                    let rest = vstd::std_specs::iter::IteratorSpec::remaining(&before);
                    assert(rest.len() == 0);
                    assert(v@ + rest =~= v@);
                }
                break ;
            },
        }
    }
    v
}

/// Append one character to `s`.
#[verifier::external_body]
fn push_char(s: &mut String, c: char)
    ensures
        final(s)@ == old(s)@.push(c),
{
    s.push(c);
}

/// The string whose characters are `v`.
pub fn string_of(v: &[char]) -> (s: String)
    ensures
        s@ == v@,
{
    let mut s = String::new();
    let mut i: usize = 0;
    while i < v.len()
        invariant
            i <= v@.len(),
            s@ == v@.subrange(0, i as int),
        decreases v@.len() - i,
    {
        push_char(&mut s, v[i]);
        i = i + 1;
    }
    s
}


/// Every character of `s` is whitespace (so `s.trim()` is empty).
pub open spec fn spec_is_blank(s: Seq<char>) -> bool {
    forall|i: int| 0 <= i < s.len() ==> spec_is_whitespace(#[trigger] s[i])
}

/// Number of leading whitespace characters of `s`.
pub open spec fn ws_prefix_len(s: Seq<char>) -> nat
    decreases s.len(),
{
    if s.len() > 0 && spec_is_whitespace(s[0]) {
        1 + ws_prefix_len(s.drop_first())
    } else {
        0
    }
}

pub proof fn lemma_ws_prefix_len_bound(s: Seq<char>)
    ensures
        ws_prefix_len(s) <= s.len(),
    decreases s.len(),
{
    if s.len() > 0 {
        lemma_ws_prefix_len_bound(s.drop_first());
    }
}

pub proof fn lemma_ws_suffix_len_bound(s: Seq<char>)
    ensures
        ws_suffix_len(s) <= s.len(),
    decreases s.len(),
{
    if s.len() > 0 {
        lemma_ws_suffix_len_bound(s.drop_last());
    }
}

/// Number of trailing whitespace characters of `s`.
pub open spec fn ws_suffix_len(s: Seq<char>) -> nat
    decreases s.len(),
{
    if s.len() > 0 && spec_is_whitespace(s.last()) {
        1 + ws_suffix_len(s.drop_last())
    } else {
        0
    }
}

/// `s` without leading whitespace (`str::trim_start`).
pub open spec fn spec_trim_start(s: Seq<char>) -> Seq<char> {
    s.skip(ws_prefix_len(s) as int)
}

/// `s` without trailing whitespace (`str::trim_end`).
pub open spec fn spec_trim_end(s: Seq<char>) -> Seq<char> {
    s.take(s.len() - ws_suffix_len(s))
}

/// `s` without leading and trailing whitespace (`str::trim`).
pub open spec fn spec_trim(s: Seq<char>) -> Seq<char> {
    spec_trim_end(spec_trim_start(s))
}

pub proof fn lemma_ws_prefix_len(s: Seq<char>, i: int)
    requires
        0 <= i <= s.len(),
        forall|j: int| 0 <= j < i ==> spec_is_whitespace(#[trigger] s[j]),
        i == s.len() || !spec_is_whitespace(s[i]),
    ensures
        ws_prefix_len(s) == i,
    decreases i,
{
    if i > 0 {
        let t = s.drop_first();
        assert forall|j: int| 0 <= j < i - 1 implies spec_is_whitespace(#[trigger] t[j]) by {
            assert(t[j] == s[j + 1]);
        }
        if i < s.len() {
            assert(t[i - 1] == s[i]);
        }
        lemma_ws_prefix_len(t, i - 1);
    }
}

pub proof fn lemma_ws_suffix_len(s: Seq<char>, k: int)
    requires
        0 <= k <= s.len(),
        forall|j: int| s.len() - k <= j < s.len() ==> spec_is_whitespace(#[trigger] s[j]),
        k == s.len() || !spec_is_whitespace(s[s.len() - k - 1]),
    ensures
        ws_suffix_len(s) == k,
    decreases k,
{
    if k > 0 {
        let t = s.drop_last();
        assert forall|j: int| t.len() - (k - 1) <= j < t.len() implies spec_is_whitespace(
            #[trigger] t[j],
        ) by {
            assert(t[j] == s[j]);
        }
        if k < s.len() {
            assert(t[t.len() - (k - 1) - 1] == s[s.len() - k - 1]);
        }
        lemma_ws_suffix_len(t, k - 1);
    }
}

/// Index of the first non-whitespace character of `v` (or its length).
pub fn first_non_ws(v: &[char]) -> (i: usize)
    ensures
        i == ws_prefix_len(v@),
        i <= v@.len(),
{
    let mut i: usize = 0;
    while i < v.len() && is_whitespace(v[i])
        invariant
            i <= v@.len(),
            forall|j: int| 0 <= j < i ==> spec_is_whitespace(#[trigger] v@[j]),
        decreases v@.len() - i,
    {
        i = i + 1;
    }
    proof {
        lemma_ws_prefix_len(v@, i as int);
    }
    i
}

/// Number of trailing whitespace characters of `v`.
pub fn trailing_ws(v: &[char]) -> (k: usize)
    ensures
        k == ws_suffix_len(v@),
        k <= v@.len(),
{
    let mut k: usize = 0;
    while k < v.len() && is_whitespace(v[v.len() - 1 - k])
        invariant
            k <= v@.len(),
            forall|j: int| v@.len() - k <= j < v@.len() ==> spec_is_whitespace(#[trigger] v@[j]),
        decreases v@.len() - k,
    {
        k = k + 1;
    }
    proof {
        lemma_ws_suffix_len(v@, k as int);
    }
    k
}

/// The characters `v[from..to]`.
pub fn slice_chars(v: &[char], from: usize, to: usize) -> (r: Vec<char>)
    requires
        from <= to <= v@.len(),
    ensures
        r@ == v@.subrange(from as int, to as int),
{
    let mut r: Vec<char> = Vec::new();
    let mut i = from;
    while i < to
        invariant
            from <= i <= to,
            to <= v@.len(),
            r@ == v@.subrange(from as int, i as int),
        decreases to - i,
    {
        r.push(v[i]);
        i = i + 1;
    }
    r
}

/// `v` without leading and trailing whitespace.
pub fn trim_chars(v: &[char]) -> (r: Vec<char>)
    ensures
        r@ == spec_trim(v@),
{
    let p = first_non_ws(v);
    let t = slice_chars(v, p, v.len());
    let k = trailing_ws(t.as_slice());
    slice_chars(t.as_slice(), 0, t.len() - k)
}

/// `str::trim`, as an owned string.
pub fn trim(s: &str) -> (r: String)
    ensures
        r@ == spec_trim(s@),
{
    let v = chars_of(s);
    let t = trim_chars(v.as_slice());
    string_of(t.as_slice())
}

pub proof fn lemma_trim_empty_iff_blank(s: Seq<char>)
    ensures
        (spec_trim(s).len() == 0) == spec_is_blank(s),
{
    let p = ws_prefix_len(s);
    lemma_ws_prefix_bounds(s);
    let t = s.skip(p as int);
    lemma_ws_suffix_bounds(t);
    if spec_is_blank(s) {
        lemma_ws_prefix_len(s, s.len() as int);
    } else {
        let i = choose|i: int| 0 <= i < s.len() && !spec_is_whitespace(s[i]);
        lemma_ws_prefix_all(s);
        if p == s.len() {
            assert(spec_is_whitespace(s[i]));
        }
        assert(!spec_is_whitespace(t[0]));
        lemma_ws_suffix_all(t);
        if ws_suffix_len(t) == t.len() {
            assert(spec_is_whitespace(t[0]));
        }
    }
}

pub proof fn lemma_ws_prefix_bounds(s: Seq<char>)
    ensures
        ws_prefix_len(s) <= s.len(),
    decreases s.len(),
{
    if s.len() > 0 && spec_is_whitespace(s[0]) {
        lemma_ws_prefix_bounds(s.drop_first());
    }
}

pub proof fn lemma_ws_suffix_bounds(s: Seq<char>)
    ensures
        ws_suffix_len(s) <= s.len(),
    decreases s.len(),
{
    if s.len() > 0 && spec_is_whitespace(s.last()) {
        lemma_ws_suffix_bounds(s.drop_last());
    }
}

/// The counted prefix is whitespace, and the character after it is not.
pub proof fn lemma_ws_prefix_all(s: Seq<char>)
    ensures
        ws_prefix_len(s) <= s.len(),
        forall|j: int| 0 <= j < ws_prefix_len(s) ==> spec_is_whitespace(#[trigger] s[j]),
        ws_prefix_len(s) < s.len() ==> !spec_is_whitespace(s[ws_prefix_len(s) as int]),
    decreases s.len(),
{
    if s.len() > 0 && spec_is_whitespace(s[0]) {
        let t = s.drop_first();
        lemma_ws_prefix_all(t);
        assert forall|j: int| 0 <= j < ws_prefix_len(s) implies spec_is_whitespace(
            #[trigger] s[j],
        ) by {
            if j > 0 {
                assert(s[j] == t[j - 1]);
            }
        }
        if ws_prefix_len(s) < s.len() {
            assert(s[ws_prefix_len(s) as int] == t[ws_prefix_len(t) as int]);
        }
    }
}

/// The counted suffix is whitespace, and the character before it is not.
pub proof fn lemma_ws_suffix_all(s: Seq<char>)
    ensures
        ws_suffix_len(s) <= s.len(),
        forall|j: int| s.len() - ws_suffix_len(s) <= j < s.len() ==> spec_is_whitespace(
            #[trigger] s[j],
        ),
        ws_suffix_len(s) < s.len() ==> !spec_is_whitespace(s[s.len() - ws_suffix_len(s) - 1]),
    decreases s.len(),
{
    if s.len() > 0 && spec_is_whitespace(s.last()) {
        let t = s.drop_last();
        lemma_ws_suffix_all(t);
        assert forall|j: int| s.len() - ws_suffix_len(s) <= j < s.len() implies spec_is_whitespace(
            #[trigger] s[j],
        ) by {
            if j < s.len() - 1 {
                assert(s[j] == t[j]);
            }
        }
        if ws_suffix_len(s) < s.len() {
            assert(s[s.len() - ws_suffix_len(s) - 1] == t[t.len() - ws_suffix_len(t) - 1]);
        }
    }
}

/// Whether `s.trim()` is empty.
pub fn is_blank(s: &str) -> (r: bool)
    ensures
        r == spec_is_blank(s@),
        r == (spec_trim(s@).len() == 0),
{
    let v = chars_of(s);
    let mut i: usize = 0;
    while i < v.len()
        invariant
            i <= v@.len(),
            v@ == s@,
            forall|j: int| 0 <= j < i ==> spec_is_whitespace(#[trigger] v@[j]),
        decreases v@.len() - i,
    {
        if !is_whitespace(v[i]) {
            proof {
                lemma_trim_empty_iff_blank(s@);
            }
            return false;
        }
        i = i + 1;
    }
    proof {
        lemma_trim_empty_iff_blank(s@);
    }
    true
}

/// Character-wise equality of two strings.
pub fn str_eq(a: &str, b: &str) -> (r: bool)
    ensures
        r == (a@ == b@),
{
    let x = chars_of(a);
    let y = chars_of(b);
    chars_eq(x.as_slice(), y.as_slice())
}

pub fn chars_eq(x: &[char], y: &[char]) -> (r: bool)
    ensures
        r == (x@ == y@),
{
    if x.len() != y.len() {
        return false;
    }
    let mut i: usize = 0;
    while i < x.len()
        invariant
            i <= x@.len(),
            x@.len() == y@.len(),
            forall|j: int| 0 <= j < i ==> x@[j] == y@[j],
        decreases x@.len() - i,
    {
        if x[i] != y[i] {
            return false;
        }
        i = i + 1;
    }
    assert(x@ =~= y@);
    true
}


/// Number of leading `c` characters of `s`.
pub open spec fn lead_len(s: Seq<char>, c: char) -> nat
    decreases s.len(),
{
    if s.len() > 0 && s[0] == c {
        1 + lead_len(s.drop_first(), c)
    } else {
        0
    }
}

pub proof fn lemma_lead_len_bound(s: Seq<char>, c: char)
    ensures
        lead_len(s, c) <= s.len(),
    decreases s.len(),
{
    if s.len() > 0 {
        lemma_lead_len_bound(s.drop_first(), c);
    }
}

/// Number of trailing `c` characters of `s`.
pub open spec fn trail_len(s: Seq<char>, c: char) -> nat
    decreases s.len(),
{
    if s.len() > 0 && s.last() == c {
        1 + trail_len(s.drop_last(), c)
    } else {
        0
    }
}

pub proof fn lemma_trail_len_bound(s: Seq<char>, c: char)
    ensures
        trail_len(s, c) <= s.len(),
    decreases s.len(),
{
    if s.len() > 0 {
        lemma_trail_len_bound(s.drop_last(), c);
    }
}

/// `str::trim_start_matches(c)`.
pub open spec fn spec_trim_start_char(s: Seq<char>, c: char) -> Seq<char> {
    s.skip(lead_len(s, c) as int)
}

/// `str::trim_end_matches(c)`.
pub open spec fn spec_trim_end_char(s: Seq<char>, c: char) -> Seq<char> {
    s.take(s.len() - trail_len(s, c))
}

/// `str::trim_matches(c)`.
pub open spec fn spec_trim_char(s: Seq<char>, c: char) -> Seq<char> {
    spec_trim_end_char(spec_trim_start_char(s, c), c)
}

pub proof fn lemma_lead_len(s: Seq<char>, c: char, i: int)
    requires
        0 <= i <= s.len(),
        forall|j: int| 0 <= j < i ==> #[trigger] s[j] == c,
        i == s.len() || s[i] != c,
    ensures
        lead_len(s, c) == i,
    decreases i,
{
    if i > 0 {
        let t = s.drop_first();
        assert forall|j: int| 0 <= j < i - 1 implies #[trigger] t[j] == c by {
            assert(t[j] == s[j + 1]);
        }
        if i < s.len() {
            assert(t[i - 1] == s[i]);
        }
        lemma_lead_len(t, c, i - 1);
    }
}

pub proof fn lemma_trail_len(s: Seq<char>, c: char, k: int)
    requires
        0 <= k <= s.len(),
        forall|j: int| s.len() - k <= j < s.len() ==> #[trigger] s[j] == c,
        k == s.len() || s[s.len() - k - 1] != c,
    ensures
        trail_len(s, c) == k,
    decreases k,
{
    if k > 0 {
        let t = s.drop_last();
        assert forall|j: int| t.len() - (k - 1) <= j < t.len() implies #[trigger] t[j] == c by {
            assert(t[j] == s[j]);
        }
        if k < s.len() {
            assert(t[t.len() - (k - 1) - 1] == s[s.len() - k - 1]);
        }
        lemma_trail_len(t, c, k - 1);
    }
}

/// `v` without leading `c` characters.
pub fn trim_start_char(v: &[char], c: char) -> (r: Vec<char>)
    ensures
        r@ == spec_trim_start_char(v@, c),
        r@.len() > 0 ==> r@[0] != c,
{
    let mut i: usize = 0;
    while i < v.len() && v[i] == c
        invariant
            i <= v@.len(),
            forall|j: int| 0 <= j < i ==> #[trigger] v@[j] == c,
        decreases v@.len() - i,
    {
        i = i + 1;
    }
    proof {
        lemma_lead_len(v@, c, i as int);
    }
    slice_chars(v, i, v.len())
}

/// `v` without trailing `c` characters.
pub fn trim_end_char(v: &[char], c: char) -> (r: Vec<char>)
    ensures
        r@ == spec_trim_end_char(v@, c),
        r@.len() > 0 ==> r@.last() != c,
        r@.len() > 0 && v@.len() > 0 ==> r@[0] == v@[0],
{
    let mut k: usize = 0;
    while k < v.len() && v[v.len() - 1 - k] == c
        invariant
            k <= v@.len(),
            forall|j: int| v@.len() - k <= j < v@.len() ==> #[trigger] v@[j] == c,
        decreases v@.len() - k,
    {
        k = k + 1;
    }
    proof {
        lemma_trail_len(v@, c, k as int);
    }
    slice_chars(v, 0, v.len() - k)
}

/// `v` without leading and trailing `c` characters.
pub fn trim_char(v: &[char], c: char) -> (r: Vec<char>)
    ensures
        r@ == spec_trim_char(v@, c),
        r@.len() > 0 ==> r@[0] != c && r@.last() != c,
{
    let t = trim_start_char(v, c);
    trim_end_char(t.as_slice(), c)
}


/// `str::trim`, as a slice of `s`.
pub fn trim_str<'a>(s: &'a str) -> (r: &'a str)
    ensures
        r@ == spec_trim(s@),
{
    let v = chars_of(s);
    let p = first_non_ws(v.as_slice());
    let t = slice_chars(v.as_slice(), p, v.len());
    let k = trailing_ws(t.as_slice());
    let end = v.len() - k;
    let r = s.substring_char(p, end);
    assert(r@ =~= spec_trim(s@));
    r
}


/// Append the characters `w` to `v`.
pub fn append_chars(v: &mut Vec<char>, w: &[char])
    ensures
        final(v)@ == old(v)@ + w@,
{
    let mut i: usize = 0;
    while i < w.len()
        invariant
            i <= w@.len(),
            v@ == old(v)@ + w@.subrange(0, i as int),
        decreases w@.len() - i,
    {
        v.push(w[i]);
        i = i + 1;
    }
    assert(w@.subrange(0, w@.len() as int) =~= w@);
}

/// `str::replace`: `s` with each occurrence of `from`, found left to right
/// without overlap, replaced by `to`.
pub open spec fn spec_replace(s: Seq<char>, from: Seq<char>, to: Seq<char>) -> Seq<char>
    decreases s.len(),
{
    if s.len() == 0 || from.len() == 0 {
        s
    } else if from.len() <= s.len() && s.subrange(0, from.len() as int) == from {
        to + spec_replace(s.subrange(from.len() as int, s.len() as int), from, to)
    } else {
        seq![s[0]] + spec_replace(s.drop_first(), from, to)
    }
}

/// Whether `pat` occurs in `v` at position `i`.
pub fn matches_at(v: &[char], i: usize, pat: &[char]) -> (r: bool)
    requires
        i <= v@.len(),
    ensures
        r == (i + pat@.len() <= v@.len() && v@.subrange(i as int, i + pat@.len()) == pat@),
{
    if pat.len() > v.len() - i {
        return false;
    }
    let n = v.len();
    let mut k: usize = 0;
    while k < pat.len()
        invariant
            n == v@.len(),
            k <= pat@.len(),
            i + pat@.len() <= v@.len(),
            forall|j: int| 0 <= j < k ==> v@[i + j] == pat@[j],
        decreases pat@.len() - k,
    {
        assert(i + k < v@.len());
        if v[i + k] != pat[k] {
            assert(v@.subrange(i as int, i + pat@.len())[k as int] != pat@[k as int]);
            return false;
        }
        k = k + 1;
    }
    assert(v@.subrange(i as int, i + pat@.len()) =~= pat@);
    true
}

/// `s` with each occurrence of the non-empty `from` replaced by `to`.
pub fn replace_chars(s: &[char], from: &[char], to: &[char]) -> (r: Vec<char>)
    requires
        from@.len() > 0,
    ensures
        r@ == spec_replace(s@, from@, to@),
{
    let mut out: Vec<char> = Vec::new();
    let mut i: usize = 0;
    assert(s@.subrange(0, s@.len() as int) =~= s@);
    assert(out@ + spec_replace(s@, from@, to@) =~= spec_replace(s@, from@, to@));
    while i < s.len()
        invariant
            i <= s@.len(),
            from@.len() > 0,
            out@ + spec_replace(s@.subrange(i as int, s@.len() as int), from@, to@) == spec_replace(
                s@,
                from@,
                to@,
            ),
        decreases s@.len() - i,
    {
        let ghost rest = s@.subrange(i as int, s@.len() as int);
        if matches_at(s, i, from) {
            proof {
                assert(rest.subrange(0, from@.len() as int) =~= from@);
                assert(rest.subrange(from@.len() as int, rest.len() as int) =~= s@.subrange(
                    i + from@.len(),
                    s@.len() as int,
                ));
                let tail = spec_replace(rest.subrange(from@.len() as int, rest.len() as int), from@, to@);
                assert(out@ + (to@ + tail) =~= (out@ + to@) + tail);
            }
            append_chars(&mut out, to);
            i = i + from.len();
        } else {
            proof {
                if from@.len() <= rest.len() {
                    assert(rest.subrange(0, from@.len() as int) =~= s@.subrange(
                        i as int,
                        i + from@.len(),
                    ));
                }
                assert(rest.drop_first() =~= s@.subrange(i + 1, s@.len() as int));
                let tail = spec_replace(rest.drop_first(), from@, to@);
                assert(out@ + (seq![s@[i as int]] + tail) =~= out@.push(s@[i as int]) + tail);
            }
            out.push(s[i]);
            i = i + 1;
        }
    }
    proof {
        assert(s@.subrange(i as int, s@.len() as int) =~= Seq::<char>::empty());
        assert(out@ + Seq::<char>::empty() =~= out@);
    }
    out
}

/// Index of the first `c` in `s`, or `s.len()` when there is none.
pub open spec fn spec_find_char(s: Seq<char>, c: char) -> nat
    decreases s.len(),
{
    if s.len() == 0 || s[0] == c {
        0
    } else {
        1 + spec_find_char(s.drop_first(), c)
    }
}

pub proof fn lemma_find_char(s: Seq<char>, c: char, k: int)
    requires
        0 <= k <= s.len(),
        forall|j: int| 0 <= j < k ==> #[trigger] s[j] != c,
        k == s.len() || s[k] == c,
    ensures
        spec_find_char(s, c) == k,
    decreases k,
{
    if k > 0 {
        let t = s.drop_first();
        assert forall|j: int| 0 <= j < k - 1 implies #[trigger] t[j] != c by {
            assert(t[j] == s[j + 1]);
        }
        if k < s.len() {
            assert(t[k - 1] == s[k]);
        }
        lemma_find_char(t, c, k - 1);
    }
}

pub proof fn lemma_find_char_bound(s: Seq<char>, c: char)
    ensures
        spec_find_char(s, c) <= s.len(),
        spec_find_char(s, c) < s.len() ==> s[spec_find_char(s, c) as int] == c,
        forall|j: int| 0 <= j < spec_find_char(s, c) ==> #[trigger] s[j] != c,
    decreases s.len(),
{
    if s.len() > 0 && s[0] != c {
        let t = s.drop_first();
        lemma_find_char_bound(t, c);
        assert forall|j: int| 0 <= j < spec_find_char(s, c) implies #[trigger] s[j] != c by {
            if j > 0 {
                assert(s[j] == t[j - 1]);
            }
        }
    }
}

/// The index of the first `c` in `v` at or after `from`, or `v.len()`.
pub fn find_char_from(v: &[char], from: usize, c: char) -> (k: usize)
    requires
        from <= v@.len(),
    ensures
        from <= k <= v@.len(),
        k - from == spec_find_char(v@.subrange(from as int, v@.len() as int), c),
        forall|j: int| from <= j < k ==> #[trigger] v@[j] != c,
        k < v@.len() ==> v@[k as int] == c,
{
    let mut k = from;
    while k < v.len() && v[k] != c
        invariant
            from <= k <= v@.len(),
            forall|j: int| from <= j < k ==> #[trigger] v@[j] != c,
        decreases v@.len() - k,
    {
        k = k + 1;
    }
    proof {
        let s = v@.subrange(from as int, v@.len() as int);
        assert forall|j: int| 0 <= j < k - from implies #[trigger] s[j] != c by {
            assert(s[j] == v@[from + j]);
        }
        if k < v@.len() {
            assert(s[k - from] == v@[k as int]);
        }
        lemma_find_char(s, c, k - from);
    }
    k
}


/// The decimal digit character of `d < 10`.
pub open spec fn digit_char(d: nat) -> char {
    ((('0' as u32) + d) as u32) as char
}

/// The decimal rendering of `n`, without leading zeros (`format!("{n}")`).
pub open spec fn spec_decimal(n: nat) -> Seq<char>
    decreases n,
{
    if n < 10 {
        seq![digit_char(n)]
    } else {
        spec_decimal(n / 10).push(digit_char(n % 10))
    }
}

/// A decimal rendering is never empty.
pub proof fn lemma_decimal_nonempty(n: nat)
    ensures
        spec_decimal(n).len() >= 1,
    decreases n,
{
    if n >= 10 {
        lemma_decimal_nonempty(n / 10);
    }
}

/// Distinct numbers have distinct decimal renderings.
pub proof fn lemma_decimal_injective(n: nat, m: nat)
    requires
        spec_decimal(n) == spec_decimal(m),
    ensures
        n == m,
    decreases n,
{
    if n < 10 && m < 10 {
        assert(spec_decimal(n)[0] == digit_char(n));
        assert(spec_decimal(m)[0] == digit_char(m));
    } else if n < 10 {
        lemma_decimal_nonempty(m / 10);
        assert(spec_decimal(m).len() >= 2);
    } else if m < 10 {
        lemma_decimal_nonempty(n / 10);
        assert(spec_decimal(n).len() >= 2);
    } else {
        let a = spec_decimal(n);
        let b = spec_decimal(m);
        assert(a.last() == digit_char(n % 10));
        assert(b.last() == digit_char(m % 10));
        assert(n % 10 == m % 10);
        assert(a.drop_last() =~= spec_decimal(n / 10));
        assert(b.drop_last() =~= spec_decimal(m / 10));
        lemma_decimal_injective(n / 10, m / 10);
    }
}

/// Append the decimal rendering of `n` to `out`.
pub fn push_decimal(out: &mut Vec<char>, n: u64)
    ensures
        final(out)@ == old(out)@ + spec_decimal(n as nat),
    decreases n,
{
    if n >= 10 {
        push_decimal(out, n / 10);
    }
    let d = (n % 10) as u32;
    let c = crate::json::ascii_at(48 + d);
    proof {
        assert(c == digit_char((n % 10) as nat));
        if n >= 10 {
            assert(old(out)@ + spec_decimal((n / 10) as nat) + seq![c] =~= old(out)@ + spec_decimal(n as nat));
        } else {
            assert(old(out)@ + seq![c] =~= old(out)@ + spec_decimal(n as nat));
        }
    }
    out.push(c);
}


/// Whether some string of `v` reads `s`.
pub fn contains_str(v: &Vec<String>, s: &str) -> (r: bool)
    ensures
        r == exists|i: int| 0 <= i < v@.len() && (#[trigger] v@[i])@ == s@,
{
    let mut i: usize = 0;
    while i < v.len()
        invariant
            i <= v@.len(),
            forall|j: int| 0 <= j < i ==> (#[trigger] v@[j])@ != s@,
        decreases v@.len() - i,
    {
        if str_eq(v[i].as_str(), s) {
            assert(v@[i as int]@ == s@);
            return true;
        }
        i = i + 1;
    }
    false
}

} // verus!
