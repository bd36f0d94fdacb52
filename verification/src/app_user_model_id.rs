//! AppUserModelID extraction from the raw bytes of a Store shortcut (`.lnk`).
//!
//! A Store shortcut often carries no ordinary target path; its launch name
//! `PackageFamilyName!AppId` only appears as a string inside a property block,
//! stored either as UTF-16LE (at an even or odd offset) or as narrow bytes.

use vstd::prelude::*;
use crate::text::string_from_chars;

verus! {

/// The separator between the package family name and the application id.
pub const APP_USER_MODEL_ID_SEPARATOR: char = '!';
/// The shortest publisher id accepted; shorter ones are too easily ordinary text.
pub const MIN_PUBLISHER_ID_LENGTH: usize = 4;

/// Characters that may occur in an AppUserModelID: ASCII letters and digits, `.`, `_`, `-`, `!`.
pub open spec fn is_id_char(c: char) -> bool {
    ('0' <= c && c <= '9') || ('A' <= c && c <= 'Z') || ('a' <= c && c <= 'z') || c == '.' || c
        == '_' || c == '-' || c == '!'
}

/// A scanned character unit stands for an identifier character (it is then an ASCII code).
pub open spec fn is_id_unit(u: u32) -> bool {
    (0x30 <= u && u <= 0x39) || (0x41 <= u && u <= 0x5A) || (0x61 <= u && u <= 0x7A) || u == 0x2E
        || u == 0x5F || u == 0x2D || u == 0x21
}

/// Every character of `s` is an identifier character.
pub open spec fn all_id_chars(s: Seq<char>) -> bool {
    forall|k: int| 0 <= k < s.len() ==> is_id_char(#[trigger] s[k])
}

/// The first position of `c` in `s`.
pub open spec fn first_index_of(s: Seq<char>, c: char) -> Option<int>
    decreases s.len(),
{
    if s.len() == 0 {
        None
    } else if s[0] == c {
        Some(0)
    } else {
        match first_index_of(s.drop_first(), c) {
            Some(i) => Some(i + 1),
            None => None,
        }
    }
}

/// The last position of `c` in `s`.
pub open spec fn last_index_of(s: Seq<char>, c: char) -> Option<int>
    decreases s.len(),
{
    if s.len() == 0 {
        None
    } else if s.last() == c {
        Some(s.len() - 1)
    } else {
        last_index_of(s.drop_last(), c)
    }
}

/// `value` has the shape `PackageName_PublisherId!AppId`: split at the first `!`, both
/// halves non-empty, no backslash anywhere, the family name split at its last `_` into a
/// non-empty package name and a publisher id of at least four characters, and the three
/// parts made of identifier characters only.
pub open spec fn looks_like_app_user_model_id(value: Seq<char>) -> bool {
    match first_index_of(value, '!') {
        None => false,
        Some(b) => {
            let family = value.take(b);
            let app_id = value.skip(b + 1);
            &&& family.len() > 0
            &&& app_id.len() > 0
            &&& !value.contains('\\')
            &&& match last_index_of(family, '_') {
                None => false,
                Some(u) => {
                    let package = family.take(u);
                    let publisher = family.skip(u + 1);
                    &&& package.len() > 0
                    &&& publisher.len() >= MIN_PUBLISHER_ID_LENGTH
                    &&& all_id_chars(package)
                    &&& all_id_chars(publisher)
                    &&& all_id_chars(app_id)
                }
            }
        }
    }
}

/// The number of identifier units in a row starting at `start`.
pub open spec fn id_run_len(units: Seq<u32>, start: int) -> nat
    decreases units.len() - start,
{
    if start < 0 || start >= units.len() || !is_id_unit(units[start]) {
        0
    } else {
        1 + id_run_len(units, start + 1)
    }
}

/// The characters that the units `units[from..to]` stand for.
pub open spec fn unit_chars(units: Seq<u32>, from: int, to: int) -> Seq<char> {
    Seq::new((to - from) as nat, |k: int| (units[from + k] as u8) as char)
}

/// Splitting the unit stream at every non-identifier unit, the first piece at or after
/// `start` that looks like an AppUserModelID.
pub open spec fn first_id_from(units: Seq<u32>, start: int) -> Option<Seq<char>>
    decreases units.len() - start,
{
    if start < 0 || start > units.len() {
        None
    } else {
        let n = id_run_len(units, start);
        let piece = unit_chars(units, start, start + n);
        if looks_like_app_user_model_id(piece) {
            Some(piece)
        } else if start + n >= units.len() {
            None
        } else {
            first_id_from(units, start + n + 1)
        }
    }
}

/// The first piece of the unit stream that looks like an AppUserModelID.
pub open spec fn scan_result(units: Seq<u32>) -> Option<Seq<char>> {
    first_id_from(units, 0)
}

/// The UTF-16LE code units of `bytes` read from `offset` (a trailing odd byte is dropped).
pub open spec fn utf16le_unit_seq(bytes: Seq<u8>, offset: int) -> Seq<u32> {
    Seq::new(
        ((bytes.len() - offset) / 2) as nat,
        |k: int| ((bytes[offset + 2 * k] as int) + (bytes[offset + 2 * k + 1] as int) * 256) as u32,
    )
}

/// Each byte as a unit of its own.
pub open spec fn ascii_unit_seq(bytes: Seq<u8>) -> Seq<u32> {
    Seq::new(bytes.len(), |k: int| bytes[k] as u32)
}

/// The UTF-16LE reading at offset 0 and then 1 (offsets past the end are skipped).
pub open spec fn utf16le_result(bytes: Seq<u8>) -> Option<Seq<char>> {
    if 0 < bytes.len() && scan_result(utf16le_unit_seq(bytes, 0)) is Some {
        scan_result(utf16le_unit_seq(bytes, 0))
    } else if 1 < bytes.len() {
        scan_result(utf16le_unit_seq(bytes, 1))
    } else {
        None
    }
}

/// The id found in shortcut bytes: the UTF-16LE reading first, the narrow reading after.
pub open spec fn extracted_id(bytes: Seq<u8>) -> Option<Seq<char>> {
    match utf16le_result(bytes) {
        Some(id) => Some(id),
        None => scan_result(ascii_unit_seq(bytes)),
    }
}

proof fn lemma_first_index_of(s: Seq<char>, c: char)
    ensures
        match first_index_of(s, c) {
            Some(i) => 0 <= i < s.len() && s[i] == c && forall|k: int| 0 <= k < i ==> s[k] != c,
            None => forall|k: int| 0 <= k < s.len() ==> s[k] != c,
        },
    decreases s.len(),
{
    if s.len() > 0 && s[0] != c {
        lemma_first_index_of(s.drop_first(), c);
        assert forall|k: int| 0 < k < s.len() implies s[k] == s.drop_first()[k - 1] by {}
    }
}

proof fn lemma_last_index_of(s: Seq<char>, c: char)
    ensures
        match last_index_of(s, c) {
            Some(i) => 0 <= i < s.len() && s[i] == c && forall|k: int| i < k < s.len() ==> s[k]
                != c,
            None => forall|k: int| 0 <= k < s.len() ==> s[k] != c,
        },
    decreases s.len(),
{
    if s.len() > 0 && s.last() != c {
        lemma_last_index_of(s.drop_last(), c);
        assert forall|k: int| 0 <= k < s.len() - 1 implies s[k] == s.drop_last()[k] by {}
    }
}

/// Identifier characters in exactly the set of `is_id_char`.
pub fn is_app_user_model_id_character(character: char) -> (r: bool)
    ensures
        r == is_id_char(character),
{
    ('0' <= character && character <= '9') || ('A' <= character && character <= 'Z') || ('a'
        <= character && character <= 'z') || character == '.' || character == '_' || character
        == '-' || character == APP_USER_MODEL_ID_SEPARATOR
}

fn all_id_chars_in(s: &[char], from: usize, to: usize) -> (r: bool)
    requires
        from <= to <= s@.len(),
    ensures
        r == all_id_chars(s@.subrange(from as int, to as int)),
{
    let mut i = from;
    while i < to
        invariant
            from <= i <= to <= s@.len(),
            forall|k: int| from <= k < i ==> is_id_char(s@[k]),
        decreases to - i,
    {
        if !is_app_user_model_id_character(s[i]) {
            assert(!is_id_char(s@.subrange(from as int, to as int)[i - from]));
            return false;
        }
        i = i + 1;
    }
    assert forall|k: int| 0 <= k < to - from implies is_id_char(
        #[trigger] s@.subrange(from as int, to as int)[k],
    ) by {
        assert(s@.subrange(from as int, to as int)[k] == s@[from + k]);
    }
    true
}

/// Whether `value` has the `PackageName_PublisherId!AppId` shape of an AppUserModelID.
pub fn looks_like_app_user_model_id_chars(value: &[char]) -> (r: bool)
    ensures
        r == looks_like_app_user_model_id(value@),
{
    let ghost v = value@;
    proof {
        lemma_first_index_of(v, '!');
    }
    let n = value.len();
    let mut b: usize = 0;
    while b < n && value[b] != '!'
        invariant
            b <= n == v.len(),
            v == value@,
            forall|k: int| 0 <= k < b ==> v[k] != '!',
        decreases n - b,
    {
        b = b + 1;
    }
    if b == n {
        return false;
    }
    assert(first_index_of(v, '!') == Some(b as int));
    let mut has_backslash = false;
    let mut j: usize = 0;
    while j < n
        invariant
            j <= n == v.len(),
            v == value@,
            has_backslash == exists|k: int| 0 <= k < j && v[k] == '\\',
        decreases n - j,
    {
        if value[j] == '\\' {
            has_backslash = true;
        }
        j = j + 1;
    }
    assert(has_backslash == v.contains('\\'));
    if b == 0 || b + 1 == n || has_backslash {
        return false;
    }
    let ghost family = v.take(b as int);
    proof {
        lemma_last_index_of(family, '_');
    }
    let mut u: usize = b;
    while u > 0 && value[u - 1] != '_'
        invariant
            u <= b < n == v.len(),
            v == value@,
            family == v.take(b as int),
            forall|k: int| u <= k < b ==> family[k] != '_',
        decreases u,
    {
        u = u - 1;
    }
    if u == 0 {
        assert(last_index_of(family, '_') is None);
        return false;
    }
    let u = u - 1;
    assert(family[u as int] == '_');
    assert(last_index_of(family, '_') == Some(u as int));
    assert(family.take(u as int) == v.subrange(0, u as int));
    assert(family.skip(u + 1) == v.subrange(u + 1, b as int));
    assert(v.skip(b + 1) == v.subrange(b + 1, n as int));
    u > 0 && b - (u + 1) >= MIN_PUBLISHER_ID_LENGTH && all_id_chars_in(value, 0, u)
        && all_id_chars_in(value, u + 1, b) && all_id_chars_in(value, b + 1, n)
}


proof fn lemma_id_run_len(units: Seq<u32>, start: int, end: int)
    requires
        0 <= start <= end <= units.len(),
        forall|k: int| start <= k < end ==> is_id_unit(units[k]),
        end == units.len() || !is_id_unit(units[end]),
    ensures
        id_run_len(units, start) == end - start,
    decreases end - start,
{
    if start < end {
        lemma_id_run_len(units, start + 1, end);
    }
}

/// Whether the scanned unit stands for an identifier character.
fn is_id_unit_exec(unit: u32) -> (r: bool)
    ensures
        r == is_id_unit(unit),
{
    (0x30 <= unit && unit <= 0x39) || (0x41 <= unit && unit <= 0x5A) || (0x61 <= unit && unit
        <= 0x7A) || unit == 0x2E || unit == 0x5F || unit == 0x2D || unit == 0x21
}

/// Checks the accumulated piece and clears it; the piece is returned when it has the
/// shape of an AppUserModelID. (The piece only ever holds identifier characters, so
/// there are no NUL characters at its ends to trim.)
pub fn take_app_user_model_id_candidate(candidate: &mut Vec<char>) -> (r: Option<String>)
    ensures
        final(candidate)@.len() == 0,
        match r {
            Some(s) => s@ == old(candidate)@ && looks_like_app_user_model_id(old(candidate)@),
            None => !looks_like_app_user_model_id(old(candidate)@),
        },
{
    let found = looks_like_app_user_model_id_chars(candidate.as_slice());
    let result = if found {
        Some(string_from_chars(candidate.as_slice()))
    } else {
        None
    };
    candidate.clear();
    result
}

/// Feeds one unit to the scanner: identifier units extend the piece; any other unit
/// ends it, and the piece is returned if it has the shape of an AppUserModelID.
pub fn scan_app_user_model_id_unit(unit: u32, candidate: &mut Vec<char>) -> (r: Option<String>)
    ensures
        is_id_unit(unit) ==> final(candidate)@ == old(candidate)@.push((unit as u8) as char)
            && r is None,
        !is_id_unit(unit) ==> final(candidate)@.len() == 0 && match r {
            Some(s) => s@ == old(candidate)@ && looks_like_app_user_model_id(old(candidate)@),
            None => !looks_like_app_user_model_id(old(candidate)@),
        },
{
    if is_id_unit_exec(unit) {
        candidate.push((unit as u8) as char);
        return None;
    }
    take_app_user_model_id_candidate(candidate)
}

/// Scans a stream of character units for the first piece that looks like an
/// AppUserModelID.
pub fn scan_app_user_model_id_units(units: &[u32]) -> (r: Option<String>)
    ensures
        match r {
            Some(s) => scan_result(units@) == Some(s@),
            None => scan_result(units@) is None,
        },
{
    let n = units.len();
    let mut candidate: Vec<char> = Vec::new();
    let mut start: usize = 0;
    let mut i: usize = 0;
    while i < n
        invariant
            start <= i <= n == units@.len(),
            forall|k: int| start <= k < i ==> is_id_unit(units@[k]),
            candidate@ == unit_chars(units@, start as int, i as int),
            scan_result(units@) == first_id_from(units@, start as int),
        decreases n - i,
    {
        let unit = units[i];
        let ghost before = candidate@;
        let found = scan_app_user_model_id_unit(unit, &mut candidate);
        if is_id_unit_exec(unit) {
            assert(candidate@ =~= unit_chars(units@, start as int, i + 1));
            i = i + 1;
        } else {
            proof {
                lemma_id_run_len(units@, start as int, i as int);
            }
            if let Some(id) = found {
                return Some(id);
            }
            i = i + 1;
            start = i;
            assert(candidate@ =~= unit_chars(units@, start as int, i as int));
        }
    }
    proof {
        lemma_id_run_len(units@, start as int, n as int);
    }
    take_app_user_model_id_candidate(&mut candidate)
}

/// The UTF-16LE code units of `bytes` read from `offset`.
fn utf16le_units(bytes: &[u8], offset: usize) -> (units: Vec<u32>)
    requires
        offset <= bytes@.len(),
    ensures
        units@ == utf16le_unit_seq(bytes@, offset as int),
{
    let len = bytes.len();
    let count = (len - offset) / 2;
    let mut units: Vec<u32> = Vec::new();
    let mut k: usize = 0;
    while k < count
        invariant
            len == bytes@.len(),
            k <= count == (bytes@.len() - offset) / 2,
            offset <= bytes@.len(),
            units@ == utf16le_unit_seq(bytes@, offset as int).take(k as int),
        decreases count - k,
    {
        assert(2 * k + 2 <= bytes@.len() - offset) by (nonlinear_arith)
            requires
                k < count,
                count == (bytes@.len() - offset) / 2,
        ;
        let low = bytes[offset + 2 * k] as u32;
        let high = bytes[offset + 2 * k + 1] as u32;
        units.push(low + high * 256);
        assert(units@ =~= utf16le_unit_seq(bytes@, offset as int).take(k + 1));
        k = k + 1;
    }
    assert(units@ =~= utf16le_unit_seq(bytes@, offset as int));
    units
}

/// Scans the bytes as UTF-16LE from offset 0 and then from offset 1.
pub fn extract_app_user_model_id_from_utf16le(bytes: &[u8]) -> (r: Option<String>)
    ensures
        match r {
            Some(s) => utf16le_result(bytes@) == Some(s@),
            None => utf16le_result(bytes@) is None,
        },
{
    if 0 < bytes.len() {
        let units = utf16le_units(bytes, 0);
        let found = scan_app_user_model_id_units(units.as_slice());
        if found.is_some() {
            return found;
        }
    }
    if 1 < bytes.len() {
        let units = utf16le_units(bytes, 1);
        return scan_app_user_model_id_units(units.as_slice());
    }
    None
}

/// Scans the bytes as narrow characters, one unit per byte.
pub fn extract_app_user_model_id_from_ascii(bytes: &[u8]) -> (r: Option<String>)
    ensures
        match r {
            Some(s) => scan_result(ascii_unit_seq(bytes@)) == Some(s@),
            None => scan_result(ascii_unit_seq(bytes@)) is None,
        },
{
    let mut units: Vec<u32> = Vec::new();
    let mut k: usize = 0;
    while k < bytes.len()
        invariant
            k <= bytes@.len(),
            units@ == ascii_unit_seq(bytes@).take(k as int),
        decreases bytes@.len() - k,
    {
        units.push(bytes[k] as u32);
        assert(units@ =~= ascii_unit_seq(bytes@).take(k + 1));
        k = k + 1;
    }
    assert(units@ =~= ascii_unit_seq(bytes@));
    scan_app_user_model_id_units(units.as_slice())
}

/// The AppUserModelID stored in shortcut bytes, UTF-16LE readings first.
pub fn extract_app_user_model_id_from_bytes(bytes: &[u8]) -> (r: Option<String>)
    ensures
        match r {
            Some(s) => extracted_id(bytes@) == Some(s@),
            None => extracted_id(bytes@) is None,
        },
{
    let wide = extract_app_user_model_id_from_utf16le(bytes);
    if wide.is_some() {
        return wide;
    }
    extract_app_user_model_id_from_ascii(bytes)
}

} // verus!
