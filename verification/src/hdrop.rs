//! The `CF_HDROP` file list that Explorer exchanges through the clipboard and drag and
//! drop: a `DROPFILES` header followed by NUL-terminated UTF-16 paths and a final NUL.

use vstd::prelude::*;
use crate::wide::{encode_utf16, utf16_encode, wide_path_list, decode_utf16_lossy, utf16_decode_lossy};
use crate::text::string_from_chars;

verus! {

/// Size in bytes of the `DROPFILES` header, which is also the offset of the file list.
pub const DROPFILES_SIZE: u8 = 20;

/// The little-endian bytes of UTF-16 units.
pub open spec fn le_bytes(u: Seq<u16>) -> Seq<u8>
    decreases u.len(),
{
    if u.len() == 0 {
        Seq::empty()
    } else {
        le_bytes(u.drop_last()) + seq![(u.last() % 256) as u8, (u.last() / 256) as u8]
    }
}

/// The `DROPFILES` header: the list starts right after its 20 bytes, the drop point is
/// (0, 0) in client coordinates, and the paths are wide characters.
pub open spec fn dropfiles_header() -> Seq<u8> {
    seq![20u8, 0, 0, 0, 0, 0, 0, 0, 0, 0, 0, 0, 0, 0, 0, 0, 1, 0, 0, 0]
}

/// The bytes of a `DROPFILES` header for a wide-character file list.
pub fn create_dropfiles_header_bytes() -> (bytes: Vec<u8>)
    ensures
        bytes@ == dropfiles_header(),
{
    let bytes = vec![DROPFILES_SIZE, 0, 0, 0, 0, 0, 0, 0, 0, 0, 0, 0, 0, 0, 0, 0, 1, 0, 0, 0];
    assert(bytes@ =~= dropfiles_header());
    bytes
}

/// Appends one UTF-16 unit as two little-endian bytes.
fn append_unit(bytes: &mut Vec<u8>, unit: u16)
    ensures
        final(bytes)@ == old(bytes)@ + seq![(unit % 256) as u8, (unit / 256) as u8],
{
    bytes.push((unit % 256) as u8);
    bytes.push((unit / 256) as u8);
    assert(bytes@ =~= old(bytes)@ + seq![(unit % 256) as u8, (unit / 256) as u8]);
}

/// Appends the NUL unit that ends a path or the whole list.
pub fn append_wide_nul(bytes: &mut Vec<u8>)
    ensures
        final(bytes)@ == old(bytes)@ + le_bytes(seq![0u16]),
{
    append_unit(bytes, 0);
    assert(seq![0u16].drop_last() =~= Seq::<u16>::empty());
    assert(le_bytes(Seq::<u16>::empty()) + seq![0u8, 0u8] =~= seq![0u8, 0u8]);
}

/// Appends a path as little-endian UTF-16 followed by its NUL unit.
pub fn append_wide_path(bytes: &mut Vec<u8>, path: &str)
    ensures
        final(bytes)@ == old(bytes)@ + le_bytes(utf16_encode(path@).push(0)),
{
    let units = encode_utf16(path);
    let n = units.len();
    let ghost start = bytes@;
    let mut i: usize = 0;
    assert(units@.take(0) =~= Seq::<u16>::empty());
    assert(start + le_bytes(Seq::<u16>::empty()) =~= start);
    while i < n
        invariant
            n == units@.len(),
            i <= n,
            bytes@ == start + le_bytes(units@.take(i as int)),
        decreases n - i,
    {
        append_unit(bytes, units[i]);
        assert(units@.take(i + 1).drop_last() =~= units@.take(i as int));
        i = i + 1;
        assert(bytes@ =~= start + le_bytes(units@.take(i as int)));
    }
    append_unit(bytes, 0);
    assert(units@.take(n as int) =~= units@);
    assert(units@.push(0).drop_last() =~= units@);
    assert(bytes@ =~= start + le_bytes(units@.push(0)));
}

/// The little-endian bytes of two unit sequences one after the other.
pub proof fn lemma_le_bytes_concat(a: Seq<u16>, b: Seq<u16>)
    ensures
        le_bytes(a + b) == le_bytes(a) + le_bytes(b),
    decreases b.len(),
{
    if b.len() == 0 {
        assert(a + b =~= a);
        assert(le_bytes(a) + le_bytes(b) =~= le_bytes(a));
    } else {
        lemma_le_bytes_concat(a, b.drop_last());
        assert((a + b).drop_last() =~= a + b.drop_last());
        assert((a + b).last() == b.last());
        assert(le_bytes(a + b) =~= le_bytes(a) + le_bytes(b));
    }
}

/// The bytes of a `CF_HDROP` file list: the header, then every path as little-endian
/// UTF-16 with its NUL, then the final NUL.
pub fn file_list_bytes(paths: &[String]) -> (bytes: Vec<u8>)
    ensures
        bytes@ == dropfiles_header() + le_bytes(wide_path_list(paths@).push(0)),
{
    let mut bytes = create_dropfiles_header_bytes();
    let n = paths.len();
    let mut i: usize = 0;
    assert(paths@.take(0) =~= Seq::<String>::empty());
    assert(bytes@ =~= dropfiles_header() + le_bytes(wide_path_list(paths@.take(0))));
    while i < n
        invariant
            n == paths@.len(),
            i <= n,
            bytes@ == dropfiles_header() + le_bytes(wide_path_list(paths@.take(i as int))),
        decreases n - i,
    {
        append_wide_path(&mut bytes, paths[i].as_str());
        proof {
            assert(paths@.take(i + 1).drop_last() =~= paths@.take(i as int));
            lemma_le_bytes_concat(
                wide_path_list(paths@.take(i as int)),
                utf16_encode(paths@[i as int]@).push(0),
            );
        }
        i = i + 1;
        assert(bytes@ =~= dropfiles_header() + le_bytes(wide_path_list(paths@.take(i as int))));
    }
    append_wide_nul(&mut bytes);
    proof {
        assert(paths@.take(n as int) =~= paths@);
        lemma_le_bytes_concat(wide_path_list(paths@), seq![0u16]);
        assert(wide_path_list(paths@) + seq![0u16] =~= wide_path_list(paths@).push(0));
    }
    assert(bytes@ =~= dropfiles_header() + le_bytes(wide_path_list(paths@).push(0)));
    bytes
}

/// One path of a `CF_HDROP` list, read with `DragQueryFileW`: the query reports
/// `character_count` characters and the copy call `copied` of them into `buffer`. An
/// empty entry or a failed copy yields nothing; otherwise the copied characters, decoded
/// lossily.
pub fn read_hdrop_path(character_count: u32, copied: u32, buffer: &[u16]) -> (path: Option<String>)
    requires
        copied <= buffer@.len(),
    ensures
        character_count == 0 || copied == 0 <==> path is None,
        path matches Some(p) ==> p@ == utf16_decode_lossy(buffer@.take(copied as int)),
{
    if character_count == 0 || copied == 0 {
        return None;
    }
    let copied_units = vstd::slice::slice_subrange(buffer, 0, copied as usize);
    assert(copied_units@ =~= buffer@.take(copied as int));
    let chars = decode_utf16_lossy(copied_units);
    Some(string_from_chars(chars.as_slice()))
}

} // verus!
