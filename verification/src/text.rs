//! Text helpers shared by the rest of the library: decimal rendering, ASCII
//! case folding, trimming and the conversions between `String` and the
//! character sequences the proofs reason about.
use vstd::prelude::*;

verus! {

/// `str::chars` collected into a vector: the characters of `s`, in order.
#[verifier::external_body]
pub(crate) fn chars_of(s: &str) -> (r: Vec<char>)
    ensures
        r@ == s@,
{
    s.chars().collect()
}

/// `String: FromIterator<char>`: the string made of exactly these characters.
#[verifier::external_body]
pub(crate) fn string_from(chars: &[char]) -> (r: String)
    ensures
        r@ == chars@,
{
    chars.iter().collect()
}

/// The text of an optional string.
pub open spec fn text_option(s: Option<String>) -> Option<Seq<char>> {
    match s {
        Some(t) => Some(t@),
        None => None,
    }
}

/// The text of an optional string slice.
pub open spec fn str_option(s: Option<&str>) -> Option<Seq<char>> {
    match s {
        Some(t) => Some(t@),
        None => None,
    }
}

/// The character of a decimal digit.
pub open spec fn digit_char(d: int) -> char {
    if d == 0 {
        '0'
    } else if d == 1 {
        '1'
    } else if d == 2 {
        '2'
    } else if d == 3 {
        '3'
    } else if d == 4 {
        '4'
    } else if d == 5 {
        '5'
    } else if d == 6 {
        '6'
    } else if d == 7 {
        '7'
    } else if d == 8 {
        '8'
    } else {
        '9'
    }
}

/// The decimal rendering of `n`, without sign or leading zeros (`0` is "0").
pub open spec fn decimal(n: nat) -> Seq<char>
    decreases n,
{
    if n < 10 {
        seq![digit_char(n as int)]
    } else {
        decimal(n / 10) + seq![digit_char((n % 10) as int)]
    }
}

fn digit(d: u64) -> (c: char)
    requires
        d < 10,
    ensures
        c == digit_char(d as int),
{
    if d == 0 {
        '0'
    } else if d == 1 {
        '1'
    } else if d == 2 {
        '2'
    } else if d == 3 {
        '3'
    } else if d == 4 {
        '4'
    } else if d == 5 {
        '5'
    } else if d == 6 {
        '6'
    } else if d == 7 {
        '7'
    } else if d == 8 {
        '8'
    } else {
        '9'
    }
}

/// The decimal digits of `n`.
pub fn decimal_chars(n: u64) -> (r: Vec<char>)
    ensures
        r@ == decimal(n as nat),
    decreases n,
{
    if n < 10 {
        let mut v = Vec::new();
        v.push(digit(n));
        v
    } else {
        let mut v = decimal_chars(n / 10);
        v.push(digit(n % 10));
        v
    }
}

/// Appends the characters of `s` to `out`.
pub fn push_str(out: &mut Vec<char>, s: &str)
    ensures
        final(out)@ == old(out)@ + s@,
{
    let mut tail = chars_of(s);
    out.append(&mut tail);
}

/// Appends the characters of `s` to `out`.
pub fn push_chars(out: &mut Vec<char>, s: &Vec<char>)
    ensures
        final(out)@ == old(out)@ + s@,
{
    let mut tail = s.clone();
    assert(tail@ =~= s@);
    out.append(&mut tail);
}

/// ASCII upper-case letters folded to lower case; every other character kept.
pub open spec fn ascii_lower_char(c: char) -> char {
    if 'A' <= c && c <= 'Z' {
        ((c as u32) + 32) as char
    } else {
        c
    }
}

pub open spec fn ascii_lower(s: Seq<char>) -> Seq<char> {
    s.map_values(|c: char| ascii_lower_char(c))
}

fn lower_char(c: char) -> (r: char)
    ensures
        r == ascii_lower_char(c),
{
    if 'A' <= c && c <= 'Z' {
        let code: u32 = c as u32;
        let lowered: u32 = code + 32;
        assert(lowered < 0xD800);
        lowered as u8 as char
    } else {
        c
    }
}

/// `str::to_ascii_lowercase` on a character sequence.
pub fn to_ascii_lower(s: &Vec<char>) -> (r: Vec<char>)
    ensures
        r@ == ascii_lower(s@),
{
    let mut r: Vec<char> = Vec::new();
    let mut i: usize = 0;
    while i < s.len()
        invariant
            i <= s.len(),
            r@ == ascii_lower(s@.subrange(0, i as int)),
        decreases s.len() - i,
    {
        proof {
            assert(s@.subrange(0, i + 1) =~= s@.subrange(0, i as int).push(s@[i as int]));
        }
        r.push(lower_char(s[i]));
        i = i + 1;
        proof {
            assert(ascii_lower(s@.subrange(0, i as int)) =~= ascii_lower(
                s@.subrange(0, i - 1),
            ).push(ascii_lower_char(s@[i - 1])));
        }
    }
    assert(s@.subrange(0, s.len() as int) =~= s@);
    r
}

/// Whether `s` ends with `suffix`.
pub open spec fn ends_with(s: Seq<char>, suffix: Seq<char>) -> bool {
    suffix.len() <= s.len() && s.subrange(s.len() - suffix.len(), s.len() as int) == suffix
}

/// Whether `s` starts with `prefix`.
pub open spec fn starts_with(s: Seq<char>, prefix: Seq<char>) -> bool {
    prefix.len() <= s.len() && s.subrange(0, prefix.len() as int) == prefix
}

/// Character-wise equality of two sequences.
pub fn chars_equal(a: &Vec<char>, b: &Vec<char>) -> (r: bool)
    ensures
        r == (a@ == b@),
{
    if a.len() != b.len() {
        return false;
    }
    let mut i: usize = 0;
    while i < a.len()
        invariant
            i <= a.len(),
            a.len() == b.len(),
            forall|j: int| 0 <= j < i ==> a@[j] == b@[j],
        decreases a.len() - i,
    {
        if a[i] != b[i] {
            return false;
        }
        i = i + 1;
    }
    assert(a@ =~= b@);
    true
}

/// Whether `s` ends with `suffix`.
pub fn has_suffix(s: &Vec<char>, suffix: &Vec<char>) -> (r: bool)
    ensures
        r == ends_with(s@, suffix@),
{
    if suffix.len() > s.len() {
        return false;
    }
    let offset: usize = s.len() - suffix.len();
    let mut i: usize = 0;
    while i < suffix.len()
        invariant
            i <= suffix.len(),
            offset + suffix.len() == s.len(),
            forall|j: int| 0 <= j < i ==> s@[offset + j] == suffix@[j],
        decreases suffix.len() - i,
    {
        if s[offset + i] != suffix[i] {
            assert(s@.subrange(offset as int, s.len() as int)[i as int] != suffix@[i as int]);
            return false;
        }
        i = i + 1;
    }
    assert(s@.subrange(offset as int, s.len() as int) =~= suffix@);
    true
}

/// Whether `s` starts with `prefix`.
pub fn has_prefix(s: &Vec<char>, prefix: &Vec<char>) -> (r: bool)
    ensures
        r == starts_with(s@, prefix@),
{
    if prefix.len() > s.len() {
        return false;
    }
    let mut i: usize = 0;
    while i < prefix.len()
        invariant
            i <= prefix.len(),
            prefix.len() <= s.len(),
            forall|j: int| 0 <= j < i ==> s@[j] == prefix@[j],
        decreases prefix.len() - i,
    {
        if s[i] != prefix[i] {
            assert(s@.subrange(0, prefix.len() as int)[i as int] != prefix@[i as int]);
            return false;
        }
        i = i + 1;
    }
    assert(s@.subrange(0, prefix.len() as int) =~= prefix@);
    true
}

/// Whether `c` occurs in `s`.
pub fn contains_char(s: &Vec<char>, c: char) -> (r: bool)
    ensures
        r == s@.contains(c),
{
    let mut i: usize = 0;
    while i < s.len()
        invariant
            i <= s.len(),
            forall|j: int| 0 <= j < i ==> s@[j] != c,
        decreases s.len() - i,
    {
        if s[i] == c {
            assert(s@[i as int] == c);
            return true;
        }
        i = i + 1;
    }
    false
}

/// The characters of `s` from `start` on.
pub fn chars_from(s: &Vec<char>, start: usize) -> (r: Vec<char>)
    requires
        start <= s.len(),
    ensures
        r@ == s@.subrange(start as int, s.len() as int),
{
    chars_between(s, start, s.len())
}

/// The characters of `s` in `[start, end)`.
pub fn chars_between(s: &Vec<char>, start: usize, end: usize) -> (r: Vec<char>)
    requires
        start <= end <= s.len(),
    ensures
        r@ == s@.subrange(start as int, end as int),
{
    let mut r: Vec<char> = Vec::new();
    let mut i: usize = start;
    while i < end
        invariant
            start <= i <= end,
            end <= s.len(),
            r@ == s@.subrange(start as int, i as int),
        decreases end - i,
    {
        r.push(s[i]);
        i = i + 1;
        assert(r@ =~= s@.subrange(start as int, i as int));
    }
    r
}

/// The Unicode `White_Space` property, which `char::is_whitespace` and
/// `str::split_whitespace` go by.
pub open spec fn white_space(c: char) -> bool {
    ('\u{9}' <= c && c <= '\u{d}') || c == ' ' || c == '\u{85}' || c == '\u{a0}' || c
        == '\u{1680}' || ('\u{2000}' <= c && c <= '\u{200a}') || c == '\u{2028}' || c
        == '\u{2029}' || c == '\u{202f}' || c == '\u{205f}' || c == '\u{3000}'
}

/// `char::is_whitespace`.
pub fn is_white_space(c: char) -> (r: bool)
    ensures
        r == white_space(c),
{
    ('\u{9}' <= c && c <= '\u{d}') || c == ' ' || c == '\u{85}' || c == '\u{a0}' || c
        == '\u{1680}' || ('\u{2000}' <= c && c <= '\u{200a}') || c == '\u{2028}' || c
        == '\u{2029}' || c == '\u{202f}' || c == '\u{205f}' || c == '\u{3000}'
}

/// The first index at or after `k` holding a character that is not white space
/// (or the length when there is none).
pub open spec fn skip_white(s: Seq<char>, k: int) -> int
    decreases s.len() - k,
{
    if k < 0 || k >= s.len() {
        s.len() as int
    } else if white_space(s[k]) {
        skip_white(s, k + 1)
    } else {
        k
    }
}

/// The first index at or after `k` holding white space (or the length).
pub open spec fn word_end(s: Seq<char>, k: int) -> int
    decreases s.len() - k,
{
    if k < 0 || k >= s.len() {
        s.len() as int
    } else if white_space(s[k]) {
        k
    } else {
        word_end(s, k + 1)
    }
}

/// `str::split_whitespace().next()`: the first run of characters that are
/// not white space.
pub open spec fn first_word(s: Seq<char>) -> Option<Seq<char>> {
    let start = skip_white(s, 0);
    if start >= s.len() {
        None
    } else {
        Some(s.subrange(start, word_end(s, start)))
    }
}

/// The first run of characters of `s` that are not white space.
pub fn first_word_of(s: &Vec<char>) -> (r: Option<Vec<char>>)
    ensures
        match r {
            Some(w) => first_word(s@) == Some(w@),
            None => first_word(s@) is None,
        },
{
    let mut start: usize = 0;
    while start < s.len() && is_white_space(s[start])
        invariant
            start <= s.len(),
            skip_white(s@, start as int) == skip_white(s@, 0),
        decreases s.len() - start,
    {
        start = start + 1;
    }
    if start >= s.len() {
        return None;
    }
    let mut end: usize = start;
    while end < s.len() && !is_white_space(s[end])
        invariant
            start <= end <= s.len(),
            word_end(s@, end as int) == word_end(s@, start as int),
        decreases s.len() - end,
    {
        end = end + 1;
    }
    Some(chars_between(s, start, end))
}

/// `s` without white space at either end (`str::trim`).
pub open spec fn trimmed(s: Seq<char>) -> Seq<char> {
    let start = skip_white(s, 0);
    s.subrange(start, trim_end(s, start))
}

/// One past the last character of `s` that is not white space, looking
/// no further back than `floor` (which it never goes below).
pub open spec fn trim_end(s: Seq<char>, floor: int) -> int
    decreases s.len(),
{
    if s.len() as int <= floor || s.len() == 0 {
        floor
    } else if white_space(s.last()) {
        trim_end(s.drop_last(), floor)
    } else {
        s.len() as int
    }
}

/// `str::trim`.
pub fn trim(s: &str) -> (r: String)
    ensures
        r@ == trimmed(s@),
{
    let text = chars_of(s);
    let mut start: usize = 0;
    while start < text.len() && is_white_space(text[start])
        invariant
            start <= text@.len(),
            text@ == s@,
            skip_white(s@, start as int) == skip_white(s@, 0),
        decreases text@.len() - start,
    {
        start = start + 1;
    }
    let mut end: usize = text.len();
    assert(text@.subrange(0, end as int) =~= text@);
    while end > start && is_white_space(text[end - 1])
        invariant
            start <= end <= text@.len(),
            text@ == s@,
            trim_end(s@.subrange(0, end as int), start as int) == trim_end(s@, start as int),
        decreases end,
    {
        assert(s@.subrange(0, end as int).drop_last() =~= s@.subrange(0, end - 1));
        end = end - 1;
    }
    string_from(chars_between(&text, start, end).as_slice())
}

/// `str::to_lowercase` (Unicode lower-case mapping) of `s`.
pub uninterp spec fn unicode_lowercase(s: Seq<char>) -> Seq<char>;

/// `str::to_lowercase`: the Unicode lower-case form of `s`.
#[verifier::external_body]
pub(crate) fn lowercase(s: &str) -> (r: String)
    ensures
        r@ == unicode_lowercase(s@),
{
    s.to_lowercase()
}

/// `char::is_alphanumeric`: the Unicode `Alphabetic` or `Numeric` property.
pub uninterp spec fn unicode_alphanumeric(c: char) -> bool;

/// `char::is_alphanumeric`. Among ASCII characters exactly the letters and
/// digits are alphanumeric.
#[verifier::external_body]
pub(crate) fn is_alphanumeric(c: char) -> (r: bool)
    ensures
        r == unicode_alphanumeric(c),
        (c as u32) < 128 ==> (r <==> (('a' <= c && c <= 'z') || ('A' <= c && c <= 'Z') || ('0' <= c
            && c <= '9'))),
{
    c.is_alphanumeric()
}

/// `a` sorts strictly before `b` as Rust compares strings (by code point,
/// a proper prefix first).
pub open spec fn text_lt(a: Seq<char>, b: Seq<char>) -> bool
    decreases a.len(),
{
    if a.len() == 0 {
        b.len() > 0
    } else if b.len() == 0 {
        false
    } else if a[0] != b[0] {
        (a[0] as u32) < (b[0] as u32)
    } else {
        text_lt(a.drop_first(), b.drop_first())
    }
}

/// Whether `a` sorts strictly before `b`.
pub fn text_less(a: &Vec<char>, b: &Vec<char>) -> (r: bool)
    ensures
        r == text_lt(a@, b@),
{
    let mut k: usize = 0;
    assert(a@.subrange(0, a@.len() as int) =~= a@);
    assert(b@.subrange(0, b@.len() as int) =~= b@);
    while k < a.len() && k < b.len() && a[k] == b[k]
        invariant
            k <= a@.len(),
            k <= b@.len(),
            text_lt(a@, b@) == text_lt(a@.subrange(k as int, a@.len() as int), b@.subrange(k as int, b@.len() as int)),
        decreases a@.len() - k,
    {
        proof {
            let ra = a@.subrange(k as int, a@.len() as int);
            let rb = b@.subrange(k as int, b@.len() as int);
            assert(ra.drop_first() =~= a@.subrange(k + 1, a@.len() as int));
            assert(rb.drop_first() =~= b@.subrange(k + 1, b@.len() as int));
        }
        k = k + 1;
    }
    proof {
        let ra = a@.subrange(k as int, a@.len() as int);
        let rb = b@.subrange(k as int, b@.len() as int);
        if k < a@.len() {
            assert(ra[0] == a@[k as int]);
        }
        if k < b@.len() {
            assert(rb[0] == b@[k as int]);
        }
    }
    if k == a.len() {
        k < b.len()
    } else if k == b.len() {
        false
    } else {
        (a[k] as u32) < (b[k] as u32)
    }
}

} // verus!
