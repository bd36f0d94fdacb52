//! Normalisation and matching of Windows Shell parsing names, so that the names
//! Explorer reports in different spellings map to one stable identity.

use vstd::prelude::*;
use crate::text::{chars_of, chars_equal, chars_end_with, ends_with};

verus! {

/// The Unicode `White_Space` characters, which `char::is_whitespace` and `str::trim`
/// recognise.
pub open spec fn is_unicode_whitespace(c: char) -> bool {
    let v = c as int;
    ||| 0x09 <= v <= 0x0D
    ||| v == 0x20
    ||| v == 0x85
    ||| v == 0xA0
    ||| v == 0x1680
    ||| 0x2000 <= v <= 0x200A
    ||| v == 0x2028
    ||| v == 0x2029
    ||| v == 0x202F
    ||| v == 0x205F
    ||| v == 0x3000
}

/// Whether a character is Unicode white space.
pub fn is_whitespace(c: char) -> (r: bool)
    ensures
        r == is_unicode_whitespace(c),
{
    let v = c as u32;
    (0x09 <= v && v <= 0x0D) || v == 0x20 || v == 0x85 || v == 0xA0 || v == 0x1680 || (0x2000
        <= v && v <= 0x200A) || v == 0x2028 || v == 0x2029 || v == 0x202F || v == 0x205F || v
        == 0x3000
}

/// `s` without its leading white space.
pub open spec fn trim_start(s: Seq<char>) -> Seq<char>
    decreases s.len(),
{
    if s.len() > 0 && is_unicode_whitespace(s[0]) {
        trim_start(s.subrange(1, s.len() as int))
    } else {
        s
    }
}

/// `s` without its trailing white space.
pub open spec fn trim_end(s: Seq<char>) -> Seq<char>
    decreases s.len(),
{
    if s.len() > 0 && is_unicode_whitespace(s.last()) {
        trim_end(s.drop_last())
    } else {
        s
    }
}

/// `s` without its trailing backslashes.
pub open spec fn trim_end_backslashes(s: Seq<char>) -> Seq<char>
    decreases s.len(),
{
    if s.len() > 0 && s.last() == '\\' {
        trim_end_backslashes(s.drop_last())
    } else {
        s
    }
}

/// An ASCII capital letter becomes lower case and `/` becomes `\`; every other
/// character stays.
pub open spec fn identity_char(c: char) -> char {
    if 'A' <= c <= 'Z' {
        ((c as int) + 32) as char
    } else if c == '/' {
        '\\'
    } else {
        c
    }
}

/// The normal form of a Shell identity: trimmed of white space, trailing backslashes
/// removed, ASCII letters lower-cased and forward slashes turned into backslashes.
pub open spec fn normalized_identity(s: Seq<char>) -> Seq<char> {
    trim_end_backslashes(trim_end(trim_start(s))).map_values(|c: char| identity_char(c))
}

/// A normalised actual identity matches an expected one when it equals the expected
/// one's normal form, or ends with a backslash followed by it (an absolute parsing
/// name such as `::{desktop}\::{item}`).
pub open spec fn identities_match(normalized_actual: Seq<char>, expected: Seq<char>) -> bool {
    let e = normalized_identity(expected);
    normalized_actual == e || ends_with(normalized_actual, seq!['\\'] + e)
}

/// The normal form of a Shell identity, as characters.
fn normalize_chars(value: &str) -> (r: Vec<char>)
    ensures
        r@ == normalized_identity(value@),
{
    let chars = chars_of(value);
    let n = chars.len();
    let mut start: usize = 0;
    assert(chars@.subrange(0, n as int) =~= chars@);
    while start < n && is_whitespace(chars[start])
        invariant
            n == chars@.len(),
            chars@ == value@,
            start <= n,
            trim_start(chars@) == trim_start(chars@.subrange(start as int, n as int)),
        decreases n - start,
    {
        let ghost t = chars@.subrange(start as int, n as int);
        assert(t.subrange(1, t.len() as int) =~= chars@.subrange(start + 1, n as int));
        start = start + 1;
    }
    let ghost trimmed_start = chars@.subrange(start as int, n as int);
    assert(trim_start(chars@) == trimmed_start);
    let mut end: usize = n;
    assert(chars@.subrange(start as int, end as int) =~= trimmed_start);
    while end > start && is_whitespace(chars[end - 1])
        invariant
            n == chars@.len(),
            start <= end <= n,
            trimmed_start == chars@.subrange(start as int, n as int),
            trim_end(trimmed_start) == trim_end(chars@.subrange(start as int, end as int)),
        decreases end,
    {
        assert(chars@.subrange(start as int, end as int).drop_last() =~= chars@.subrange(
            start as int,
            end - 1,
        ));
        end = end - 1;
    }
    let ghost trimmed = chars@.subrange(start as int, end as int);
    assert(trim_end(trimmed_start) == trimmed);
    while end > start && chars[end - 1] == '\\'
        invariant
            n == chars@.len(),
            start <= end <= n,
            trim_end_backslashes(trimmed) == trim_end_backslashes(
                chars@.subrange(start as int, end as int),
            ),
        decreases end,
    {
        assert(chars@.subrange(start as int, end as int).drop_last() =~= chars@.subrange(
            start as int,
            end - 1,
        ));
        end = end - 1;
    }
    let ghost core = chars@.subrange(start as int, end as int);
    assert(trim_end_backslashes(trimmed) == core);
    let mut out: Vec<char> = Vec::new();
    let mut i: usize = start;
    while i < end
        invariant
            n == chars@.len(),
            start <= i <= end <= n,
            core == chars@.subrange(start as int, end as int),
            out@ == core.take(i - start).map_values(|c: char| identity_char(c)),
        decreases end - i,
    {
        let c = chars[i];
        let mapped = if 'A' <= c && c <= 'Z' {
            lower_ascii_letter(c)
        } else if c == '/' {
            '\\'
        } else {
            c
        };
        out.push(mapped);
        assert(core.take(i + 1 - start) =~= core.take(i - start).push(c));
        assert(out@ =~= core.take(i + 1 - start).map_values(|c: char| identity_char(c)));
        i = i + 1;
    }
    assert(core.take(end - start) =~= core);
    out
}

/// The lower-case form of an ASCII capital letter.
fn lower_ascii_letter(c: char) -> (r: char)
    requires
        'A' <= c <= 'Z',
    ensures
        r == ((c as int) + 32) as char,
{
    let v = (c as u32) as u8 + 32;
    v as char
}

/// The normal form of a Shell identity: trimmed, trailing backslashes removed, ASCII
/// lower case, backslash separators.
pub fn normalize_shell_identity(value: &str) -> (r: Vec<char>)
    ensures
        r@ == normalized_identity(value@),
{
    normalize_chars(value)
}

/// Whether a normalised actual identity denotes the expected parsing name, directly or
/// as the last component of an absolute parsing name.
pub fn shell_identities_match(normalized_actual: &[char], expected: &str) -> (r: bool)
    ensures
        r == identities_match(normalized_actual@, expected@),
{
    let normalized_expected = normalize_chars(expected);
    if chars_equal(normalized_actual, normalized_expected.as_slice()) {
        return true;
    }
    let mut suffix: Vec<char> = Vec::new();
    suffix.push('\\');
    let m = normalized_expected.len();
    let mut i: usize = 0;
    while i < m
        invariant
            m == normalized_expected@.len(),
            i <= m,
            suffix@ == seq!['\\'] + normalized_expected@.take(i as int),
        decreases m - i,
    {
        suffix.push(normalized_expected[i]);
        assert(normalized_expected@.take(i + 1) =~= normalized_expected@.take(i as int).push(
            normalized_expected@[i as int],
        ));
        assert(suffix@ =~= seq!['\\'] + normalized_expected@.take(i + 1));
        i = i + 1;
    }
    assert(normalized_expected@.take(m as int) =~= normalized_expected@);
    chars_end_with(normalized_actual, suffix.as_slice())
}

} // verus!
