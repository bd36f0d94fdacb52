//! UTF-16 buffers for the Windows API: encoding with NUL terminators and
//! double-NUL path lists, and lossy decoding of NUL-terminated buffers.

use vstd::prelude::*;
use crate::text::{chars_of, string_from_chars};

verus! {

/// `u` is a UTF-16 high (leading) surrogate.
pub open spec fn is_high_surrogate(u: u16) -> bool {
    0xD800 <= u < 0xDC00
}

/// `u` is a UTF-16 low (trailing) surrogate.
pub open spec fn is_low_surrogate(u: u16) -> bool {
    0xDC00 <= u < 0xE000
}

/// The UTF-16 code units of one character: one unit below U+10000, else a surrogate pair.
pub open spec fn utf16_units(c: char) -> Seq<u16> {
    let v = c as int;
    if v < 0x10000 {
        seq![v as u16]
    } else {
        seq![(0xD800 + (v - 0x10000) / 0x400) as u16, (0xDC00 + (v - 0x10000) % 0x400) as u16]
    }
}

/// The UTF-16 encoding of a character sequence.
pub open spec fn utf16_encode(s: Seq<char>) -> Seq<u16>
    decreases s.len(),
{
    if s.len() == 0 {
        Seq::empty()
    } else {
        utf16_units(s[0]) + utf16_encode(s.subrange(1, s.len() as int))
    }
}

/// The U+FFFD replacement character.
pub open spec fn replacement_char() -> char {
    '\u{FFFD}'
}

/// Lossy UTF-16 decoding: a surrogate pair becomes one character, an unpaired
/// surrogate becomes U+FFFD, every other unit is the character of that value.
pub open spec fn utf16_decode_lossy(u: Seq<u16>) -> Seq<char>
    decreases u.len(),
{
    if u.len() == 0 {
        Seq::empty()
    } else if u.len() > 1 && is_high_surrogate(u[0]) && is_low_surrogate(u[1]) {
        seq![(0x10000 + (u[0] - 0xD800) * 0x400 + (u[1] - 0xDC00)) as char]
            + utf16_decode_lossy(u.subrange(2, u.len() as int))
    } else if is_high_surrogate(u[0]) || is_low_surrogate(u[0]) {
        seq![replacement_char()] + utf16_decode_lossy(u.subrange(1, u.len() as int))
    } else {
        seq![u[0] as char] + utf16_decode_lossy(u.subrange(1, u.len() as int))
    }
}

/// The position of the first NUL unit, or the length when there is none.
pub open spec fn nul_position(u: Seq<u16>) -> int
    decreases u.len(),
{
    if u.len() == 0 || u[0] == 0 {
        0
    } else {
        1 + nul_position(u.subrange(1, u.len() as int))
    }
}

/// The string that a NUL-terminated UTF-16 buffer holds: its units up to the first NUL
/// (or all of them), decoded lossily.
pub open spec fn from_wide_buffer(u: Seq<u16>) -> Seq<char> {
    utf16_decode_lossy(u.take(nul_position(u)))
}

/// A `char` is a Unicode scalar value: below U+D800, or from U+E000 to U+10FFFF.
pub open spec fn is_scalar_value(v: int) -> bool {
    (0 <= v < 0xD800) || (0xE000 <= v <= 0x10FFFF)
}

/// The character of a Unicode scalar value (std's `char::from_u32`).
#[verifier::external_body]
fn char_from_u32(v: u32) -> (c: Option<char>)
    ensures
        is_scalar_value(v as int) ==> c == Some(v as char),
        !is_scalar_value(v as int) ==> c is None,
{
    char::from_u32(v)
}

proof fn lemma_char_is_scalar(c: char)
    ensures
        is_scalar_value(c as int),
{
}

/// Appends the UTF-16 units of `c` to `out`.
fn push_utf16_units(out: &mut Vec<u16>, c: char)
    ensures
        final(out)@ == old(out)@ + utf16_units(c),
{
    let v = c as u32;
    proof {
        lemma_char_is_scalar(c);
    }
    if v < 0x10000 {
        out.push(v as u16);
    } else {
        let offset = v - 0x10000;
        out.push((0xD800 + offset / 0x400) as u16);
        out.push((0xDC00 + offset % 0x400) as u16);
    }
    assert(out@ =~= old(out)@ + utf16_units(c));
}

/// The UTF-16 encoding of a string (std's `str::encode_utf16`).
pub fn encode_utf16(value: &str) -> (units: Vec<u16>)
    ensures
        units@ == utf16_encode(value@),
{
    let chars = chars_of(value);
    let len = chars.len();
    let mut units: Vec<u16> = Vec::new();
    let mut i: usize = 0;
    assert(chars@.subrange(0, len as int) =~= chars@);
    assert(units@ + utf16_encode(chars@) =~= utf16_encode(chars@));
    while i < len
        invariant
            len == chars@.len(),
            chars@ == value@,
            i <= len,
            units@ + utf16_encode(chars@.subrange(i as int, len as int)) == utf16_encode(chars@),
        decreases len - i,
    {
        let ghost rest = chars@.subrange(i as int, len as int);
        let ghost before = units@;
        assert(rest.subrange(1, rest.len() as int) =~= chars@.subrange(i + 1, len as int));
        push_utf16_units(&mut units, chars[i]);
        assert(before + utf16_encode(rest) =~= units@ + utf16_encode(
            chars@.subrange(i + 1, len as int),
        ));
        i = i + 1;
    }
    assert(chars@.subrange(len as int, len as int) =~= Seq::<char>::empty());
    assert(units@ + Seq::<u16>::empty() =~= units@);
    units
}

/// A string as the NUL-terminated UTF-16 buffer that the Windows API expects.
pub fn null_terminated(value: &str) -> (units: Vec<u16>)
    ensures
        units@ == utf16_encode(value@).push(0),
{
    let mut units = encode_utf16(value);
    units.push(0);
    units
}

/// A path as the NUL-terminated UTF-16 buffer that the Windows API expects.
pub fn path_null_terminated(path: &str) -> (units: Vec<u16>)
    ensures
        units@ == utf16_encode(path@).push(0),
{
    null_terminated(path)
}

/// A path list for `SHFileOperationW`: every path NUL-terminated, in order.
pub open spec fn wide_path_list(paths: Seq<String>) -> Seq<u16>
    decreases paths.len(),
{
    if paths.len() == 0 {
        Seq::empty()
    } else {
        wide_path_list(paths.drop_last()) + utf16_encode(paths.last()@).push(0)
    }
}

/// A single path as the double-NUL-terminated list that `SHFileOperationW` accepts.
pub fn double_null_single_path(path: &str) -> (units: Vec<u16>)
    ensures
        units@ == utf16_encode(path@) + seq![0u16, 0u16],
{
    let mut units = encode_utf16(path);
    units.push(0);
    units.push(0);
    assert(units@ =~= utf16_encode(path@) + seq![0u16, 0u16]);
    units
}

/// Paths as the double-NUL-terminated list that `SHFileOperationW` accepts: each path
/// NUL-terminated, then one more NUL.
pub fn double_null_paths(paths: &[String]) -> (units: Vec<u16>)
    ensures
        units@ == wide_path_list(paths@).push(0),
{
    let n = paths.len();
    let mut units: Vec<u16> = Vec::new();
    let mut i: usize = 0;
    assert(paths@.take(0) =~= Seq::<String>::empty());
    while i < n
        invariant
            n == paths@.len(),
            i <= n,
            units@ == wide_path_list(paths@.take(i as int)),
        decreases n - i,
    {
        let encoded = encode_utf16(paths[i].as_str());
        let mut j: usize = 0;
        let ghost before = units@;
        while j < encoded.len()
            invariant
                j <= encoded@.len(),
                units@ == before + encoded@.take(j as int),
            decreases encoded@.len() - j,
        {
            units.push(encoded[j]);
            assert(encoded@.take(j + 1) =~= encoded@.take(j as int).push(encoded@[j as int]));
            j = j + 1;
        }
        units.push(0);
        assert(encoded@.take(j as int) =~= encoded@);
        assert(paths@.take(i + 1).drop_last() =~= paths@.take(i as int));
        i = i + 1;
        assert(units@ =~= wide_path_list(paths@.take(i as int)));
    }
    assert(paths@.take(n as int) =~= paths@);
    units.push(0);
    units
}

/// Paths as the double-NUL-terminated list that `SHFileOperationW` accepts.
pub fn double_null_path_list(paths: &[String]) -> (units: Vec<u16>)
    ensures
        units@ == wide_path_list(paths@).push(0),
{
    double_null_paths(paths)
}

/// Lossy UTF-16 decoding (std's `String::from_utf16_lossy`), as characters.
pub fn decode_utf16_lossy(units: &[u16]) -> (chars: Vec<char>)
    ensures
        chars@ == utf16_decode_lossy(units@),
{
    let n = units.len();
    let mut out: Vec<char> = Vec::new();
    let mut i: usize = 0;
    assert(units@.subrange(0, n as int) =~= units@);
    assert(out@ + utf16_decode_lossy(units@) =~= utf16_decode_lossy(units@));
    while i < n
        invariant
            n == units@.len(),
            i <= n,
            out@ + utf16_decode_lossy(units@.subrange(i as int, n as int)) == utf16_decode_lossy(
                units@,
            ),
        decreases n - i,
    {
        let ghost rest = units@.subrange(i as int, n as int);
        let ghost before = out@;
        let u = units[i];
        if i + 1 < n && 0xD800 <= u && u < 0xDC00 && 0xDC00 <= units[i + 1] && units[i + 1]
            < 0xE000 {
            let low = units[i + 1];
            let v: u32 = 0x10000 + ((u - 0xD800) as u32) * 0x400 + ((low - 0xDC00) as u32);
            let c = match char_from_u32(v) {
                Some(c) => c,
                None => '\u{FFFD}',
            };
            out.push(c);
            assert(rest.subrange(2, rest.len() as int) =~= units@.subrange(i + 2, n as int));
            i = i + 2;
        } else if 0xD800 <= u && u < 0xE000 {
            out.push('\u{FFFD}');
            assert(rest.subrange(1, rest.len() as int) =~= units@.subrange(i + 1, n as int));
            i = i + 1;
        } else {
            let c = match char_from_u32(u as u32) {
                Some(c) => c,
                None => '\u{FFFD}',
            };
            out.push(c);
            assert(rest.subrange(1, rest.len() as int) =~= units@.subrange(i + 1, n as int));
            i = i + 1;
        }
        assert(before + utf16_decode_lossy(rest) =~= out@ + utf16_decode_lossy(
            units@.subrange(i as int, n as int),
        ));
    }
    assert(units@.subrange(n as int, n as int) =~= Seq::<u16>::empty());
    assert(out@ + Seq::<char>::empty() =~= out@);
    out
}

/// The position of the first NUL unit of a buffer, or its length.
fn find_nul(units: &[u16]) -> (pos: usize)
    ensures
        pos == nul_position(units@),
        pos <= units@.len(),
{
    let n = units.len();
    let mut i: usize = 0;
    while i < n
        invariant
            n == units@.len(),
            i <= n,
            forall|j: int| 0 <= j < i ==> units@[j] != 0,
        decreases n - i,
    {
        if units[i] == 0 {
            proof {
                lemma_nul_position(units@, i as int);
            }
            return i;
        }
        i = i + 1;
    }
    proof {
        lemma_nul_position(units@, n as int);
    }
    n
}

/// `nul_position` is the first NUL, or the length.
proof fn lemma_nul_position(u: Seq<u16>, k: int)
    requires
        0 <= k <= u.len(),
        forall|j: int| 0 <= j < k ==> u[j] != 0,
        k == u.len() || u[k] == 0,
    ensures
        nul_position(u) == k,
    decreases k,
{
    if k > 0 {
        let tail = u.subrange(1, u.len() as int);
        assert forall|j: int| 0 <= j < k - 1 implies tail[j] != 0 by {
            assert(tail[j] == u[j + 1]);
        }
        if k < u.len() {
            assert(tail[k - 1] == u[k]);
        }
        lemma_nul_position(tail, k - 1);
    }
}

/// Reads a NUL-terminated UTF-16 buffer filled by the Windows API: the units up to the
/// first NUL, decoded lossily.
pub fn from_null_terminated_u16(slice: &[u16]) -> (s: String)
    ensures
        s@ == from_wide_buffer(slice@),
{
    let len = find_nul(slice);
    let prefix = vstd::slice::slice_subrange(slice, 0, len);
    assert(prefix@ =~= slice@.take(len as int));
    let chars = decode_utf16_lossy(prefix);
    string_from_chars(chars.as_slice())
}

/// Decoding the UTF-16 encoding of a string gives the string back.
pub proof fn lemma_decode_encode(s: Seq<char>)
    ensures
        utf16_decode_lossy(utf16_encode(s)) == s,
    decreases s.len(),
{
    if s.len() > 0 {
        let rest = s.subrange(1, s.len() as int);
        lemma_decode_encode(rest);
        let e = utf16_encode(s);
        lemma_char_is_scalar(s[0]);
        let v = s[0] as int;
        if v < 0x10000 {
            assert(e.subrange(1, e.len() as int) =~= utf16_encode(rest));
            assert(e[0] == v);
        } else {
            assert(e.subrange(2, e.len() as int) =~= utf16_encode(rest));
            assert(e[0] == 0xD800 + (v - 0x10000) / 0x400);
            assert(e[1] == 0xDC00 + (v - 0x10000) % 0x400);
            assert(0x10000 + (e[0] - 0xD800) * 0x400 + (e[1] - 0xDC00) == v);
        }
        assert(utf16_decode_lossy(e) =~= s);
    }
}

/// The UTF-16 encoding of a string without NUL characters has no NUL unit.
proof fn lemma_encode_no_nul(s: Seq<char>)
    requires
        forall|i: int| 0 <= i < s.len() ==> s[i] != '\0',
    ensures
        forall|j: int| 0 <= j < utf16_encode(s).len() ==> utf16_encode(s)[j] != 0,
    decreases s.len(),
{
    if s.len() > 0 {
        let rest = s.subrange(1, s.len() as int);
        assert forall|i: int| 0 <= i < rest.len() implies rest[i] != '\0' by {
            assert(rest[i] == s[i + 1]);
        }
        lemma_encode_no_nul(rest);
        lemma_char_is_scalar(s[0]);
        let u = utf16_units(s[0]);
        assert forall|j: int| 0 <= j < u.len() implies u[j] != 0 by {}
        let e = utf16_encode(s);
        assert forall|j: int| 0 <= j < e.len() implies e[j] != 0 by {
            if j >= u.len() {
                assert(e[j] == utf16_encode(rest)[j - u.len()]);
            } else {
                assert(e[j] == u[j]);
            }
        }
    }
}

/// Reading back the NUL-terminated buffer of a string without NUL characters gives
/// the string.
pub proof fn lemma_null_terminated_round_trip(s: Seq<char>)
    requires
        forall|i: int| 0 <= i < s.len() ==> s[i] != '\0',
    ensures
        from_wide_buffer(utf16_encode(s).push(0)) == s,
{
    let e = utf16_encode(s);
    let b = e.push(0);
    lemma_encode_no_nul(s);
    assert forall|j: int| 0 <= j < e.len() implies b[j] != 0 by {
        assert(b[j] == e[j]);
    }
    lemma_nul_position(b, e.len() as int);
    assert(b.take(e.len() as int) =~= e);
    lemma_decode_encode(s);
}

} // verus!
