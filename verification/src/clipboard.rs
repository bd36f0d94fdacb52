//! The Windows file clipboard as Explorer uses it: a `CF_HDROP` path list plus the
//! `Preferred DropEffect` that tells a paste whether to copy or move.

use vstd::prelude::*;
use crate::hdrop::{file_list_bytes, dropfiles_header, le_bytes, read_hdrop_path};
use crate::wide::{wide_path_list, utf16_decode_lossy};
use crate::native_drop::{views_of, le_u32_at, read_u32_le};

verus! {

/// What a paste of the clipboard's files should do.
#[derive(Clone, Copy, PartialEq, Eq, Structural, Debug)]
pub enum FileClipboardOperation {
    Copy,
    Cut,
}

/// The `Preferred DropEffect` value of an operation: `DROPEFFECT_COPY` for a copy,
/// `DROPEFFECT_MOVE` for a cut.
pub open spec fn drop_effect_of(operation: FileClipboardOperation) -> u32 {
    match operation {
        FileClipboardOperation::Copy => 1,
        FileClipboardOperation::Cut => 2,
    }
}

/// The four little-endian bytes of a `u32`.
pub open spec fn u32_le_bytes(v: u32) -> Seq<u8> {
    seq![
        (v % 256) as u8,
        ((v / 256) % 256) as u8,
        ((v / 65536) % 256) as u8,
        (v / 16777216) as u8,
    ]
}

/// The bytes stored as `Preferred DropEffect` for an operation.
pub fn create_drop_effect_bytes(operation: FileClipboardOperation) -> (bytes: Vec<u8>)
    ensures
        bytes@ == u32_le_bytes(drop_effect_of(operation)),
{
    let effect: u8 = match operation {
        FileClipboardOperation::Copy => 1,
        FileClipboardOperation::Cut => 2,
    };
    let bytes = vec![effect, 0, 0, 0];
    assert(bytes@ =~= u32_le_bytes(drop_effect_of(operation)));
    bytes
}

/// The operation that a `Preferred DropEffect` block asks for: a cut when the move bit
/// is set, else a copy; nothing when the block is shorter than a `u32`.
pub open spec fn operation_of_effect(data: Seq<u8>) -> Option<FileClipboardOperation> {
    if data.len() < 4 {
        None
    } else if (le_u32_at(data, 0) as u32) & 2 == 2 {
        Some(FileClipboardOperation::Cut)
    } else {
        Some(FileClipboardOperation::Copy)
    }
}

/// Reads the operation from the content of a `Preferred DropEffect` block.
pub fn read_preferred_operation(data: &[u8]) -> (r: Option<FileClipboardOperation>)
    ensures
        r == operation_of_effect(data@),
{
    if data.len() < 4 {
        return None;
    }
    let effect = read_u32_le(data, 0);
    if effect & 2 == 2 {
        Some(FileClipboardOperation::Cut)
    } else {
        Some(FileClipboardOperation::Copy)
    }
}

/// Reading back the effect written for an operation gives the operation.
pub proof fn lemma_drop_effect_round_trip(operation: FileClipboardOperation)
    ensures
        operation_of_effect(u32_le_bytes(drop_effect_of(operation))) == Some(operation),
{
    assert(1u32 & 2 == 0) by (bit_vector);
    assert(2u32 & 2 == 2) by (bit_vector);
    let b = u32_le_bytes(drop_effect_of(operation));
    assert(le_u32_at(b, 0) == drop_effect_of(operation));
}

/// The two blocks that put files on the clipboard.
pub struct FileClipboardWrite {
    pub hdrop: Vec<u8>,
    pub drop_effect: Vec<u8>,
}

/// What to put on the clipboard for a copy or cut of real paths: the `CF_HDROP` list
/// and the `Preferred DropEffect`; nothing (and the clipboard stays as it is) for no
/// paths.
pub fn write_file_list(paths: &[String], operation: FileClipboardOperation) -> (r: Option<
    FileClipboardWrite,
>)
    ensures
        paths@.len() == 0 ==> r is None,
        paths@.len() > 0 ==> r is Some && r->0.hdrop@ == dropfiles_header() + le_bytes(
            wide_path_list(paths@).push(0),
        ) && r->0.drop_effect@ == u32_le_bytes(drop_effect_of(operation)),
{
    if paths.len() == 0 {
        return None;
    }
    Some(
        FileClipboardWrite {
            hdrop: file_list_bytes(paths),
            drop_effect: create_drop_effect_bytes(operation),
        },
    )
}

/// Files read from the clipboard and what the paste should do with them.
pub struct FileClipboardPayload {
    pub operation: FileClipboardOperation,
    pub paths: Vec<String>,
}

/// The paths of a clipboard `CF_HDROP` list as read entry by entry with
/// `DragQueryFileW`: `(length, copied, buffer)`, skipping empty entries and failed
/// copies, each decoded lossily from its copied units.
pub open spec fn clipboard_entry_paths(entries: Seq<(u32, u32, Vec<u16>)>) -> Seq<Seq<char>>
    decreases entries.len(),
{
    if entries.len() == 0 {
        Seq::empty()
    } else {
        let rest = clipboard_entry_paths(entries.drop_last());
        let (length, copied, buffer) = entries.last();
        if length == 0 || copied == 0 {
            rest
        } else {
            rest.push(utf16_decode_lossy(buffer@.take(copied as int)))
        }
    }
}

/// The paths of a clipboard file list from what `DragQueryFileW` reported per entry.
pub fn read_hdrop_paths(entries: &[(u32, u32, Vec<u16>)]) -> (paths: Vec<String>)
    requires
        forall|i: int| 0 <= i < entries@.len() ==> (#[trigger] entries@[i]).1 <= entries@[i].2@.len(),
    ensures
        views_of(paths@) == clipboard_entry_paths(entries@),
{
    let mut paths: Vec<String> = Vec::new();
    let n = entries.len();
    let mut i: usize = 0;
    assert(entries@.take(0) =~= Seq::<(u32, u32, Vec<u16>)>::empty());
    assert(views_of(paths@) =~= Seq::<Seq<char>>::empty());
    while i < n
        invariant
            n == entries@.len(),
            forall|k: int| 0 <= k < n ==> (#[trigger] entries@[k]).1 <= entries@[k].2@.len(),
            i <= n,
            views_of(paths@) == clipboard_entry_paths(entries@.take(i as int)),
        decreases n - i,
    {
        assert(entries@.take(i + 1).drop_last() =~= entries@.take(i as int));
        match read_hdrop_path(entries[i].0, entries[i].1, entries[i].2.as_slice()) {
            Some(path) => {
                paths.push(path);
                assert(views_of(paths@) =~= clipboard_entry_paths(entries@.take(i + 1)));
            },
            None => {},
        }
        i = i + 1;
    }
    assert(entries@.take(n as int) =~= entries@);
    paths
}

/// The clipboard's files for a paste: nothing when the list is empty; the operation is
/// the one the clipboard asks for, a copy when it asks for none.
pub fn read_file_list(paths: Vec<String>, preferred: Option<FileClipboardOperation>) -> (r: Option<
    FileClipboardPayload,
>)
    ensures
        paths@.len() == 0 ==> r is None,
        paths@.len() > 0 ==> r is Some && r->0.paths@ == paths@ && r->0.operation == match preferred {
            Some(op) => op,
            None => FileClipboardOperation::Copy,
        },
{
    if paths.len() == 0 {
        return None;
    }
    let operation = match preferred {
        Some(op) => op,
        None => FileClipboardOperation::Copy,
    };
    Some(FileClipboardPayload { operation, paths })
}

/// Message when the `Preferred DropEffect` format cannot be registered.
pub const DROP_EFFECT_FORMAT_ERROR: &'static str = "无法注册文件剪贴板操作格式";

/// The clipboard format number of `Preferred DropEffect`, or the error when
/// `RegisterClipboardFormatW` failed (returned 0).
pub fn preferred_drop_effect_format(registered: u32) -> (r: Result<u32, String>)
    ensures
        registered == 0 ==> r is Err && r->Err_0@ == DROP_EFFECT_FORMAT_ERROR@,
        registered != 0 ==> r == Ok::<u32, String>(registered),
{
    if registered == 0 {
        return Err(DROP_EFFECT_FORMAT_ERROR.to_owned());
    }
    Ok(registered)
}

} // verus!
