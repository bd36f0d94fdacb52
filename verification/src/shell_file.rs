//! Shell file actions: opening with the default program (`ShellExecuteW`), moving to
//! the recycle bin and moving with `SHFileOperationW`, and `.lnk` shortcut creation.
//! The library decides what to ask of the Shell and what its answers mean; the calls
//! themselves are made by the application.

use vstd::prelude::*;
use crate::wide::{
    utf16_encode, wide_path_list, null_terminated, path_null_terminated, double_null_single_path,
    double_null_paths, double_null_path_list,
};
use crate::text::{concat_str, decimal, decimal_string, append_str};
use crate::text::opt_view;
use crate::std_path::{std_path_parent, std_path_file_name, std_paths_equal, path_parent, path_file_name, paths_equal};

verus! {

/// The verb with which `ShellExecuteW` opens a target like a double click in Explorer.
pub const SHELL_OPEN_VERB: &'static str = "open";

/// `ShellExecuteW` succeeded when it returns more than this value; lower values are
/// error codes.
pub const SHELL_EXECUTE_SUCCESS_THRESHOLD: i64 = 32;

/// `SHFileOperationW` function that moves files.
pub const FO_MOVE: u32 = 1;
/// `SHFileOperationW` function that deletes files.
pub const FO_DELETE: u32 = 3;
/// `SHFileOperationW` flag that keeps deleted files restorable from the recycle bin.
pub const FOF_ALLOWUNDO: u16 = 0x40;
/// `SHFileOperationW` flag that creates missing folders without asking.
pub const FOF_NOCONFIRMMKDIR: u16 = 0x200;

/// Separator between an error message and the Windows error code.
pub const ERROR_CODE_SEPARATOR: &'static str = "，错误码 ";

/// A `ShellExecuteW` call that opens a target with the `open` verb, and the message of
/// the error it reports on failure.
pub struct ShellExecuteRequest {
    pub verb: Vec<u16>,
    pub target: Vec<u16>,
    pub error_message: &'static str,
}

/// `req` opens the NUL-terminated target `target` and reports failures with `message`.
pub open spec fn opens(req: ShellExecuteRequest, target: Seq<char>, message: Seq<char>) -> bool {
    &&& req.verb@ == utf16_encode(SHELL_OPEN_VERB@).push(0)
    &&& req.target@ == utf16_encode(target).push(0)
    &&& req.error_message@ == message
}

fn shell_execute_open(target: Vec<u16>, error_message: &'static str) -> (req: ShellExecuteRequest)
    ensures
        req.verb@ == utf16_encode(SHELL_OPEN_VERB@).push(0),
        req.target == target,
        req.error_message == error_message,
{
    ShellExecuteRequest { verb: null_terminated(SHELL_OPEN_VERB), target, error_message }
}

/// Message when a box folder to open is missing.
pub const MISSING_FOLDER_MESSAGE: &'static str = "Box 文件夹不存在，可能已经被移动或删除";
/// Message when an item to open is missing.
pub const MISSING_ITEM_MESSAGE: &'static str = "文件项不存在，可能已经被移动或删除";
/// Message when the Shell cannot open a path.
pub const OPEN_PATH_FAILED_MESSAGE: &'static str = "系统无法打开 Box 文件夹";
/// Message when the Shell cannot open a virtual item.
pub const OPEN_PARSING_NAME_FAILED_MESSAGE: &'static str = "系统无法打开该系统桌面项目";

/// Opens a box folder with Explorer: refused when the folder no longer exists.
pub fn open_folder_in_explorer(folder_path: &str, folder_exists: bool) -> (r: Result<
    ShellExecuteRequest,
    String,
>)
    ensures
        !folder_exists ==> r is Err && r->Err_0@ == MISSING_FOLDER_MESSAGE@,
        folder_exists ==> r is Ok && opens(r->Ok_0, folder_path@, OPEN_PATH_FAILED_MESSAGE@),
{
    if !folder_exists {
        return Err(MISSING_FOLDER_MESSAGE.to_owned());
    }
    Ok(shell_execute_open(path_null_terminated(folder_path), OPEN_PATH_FAILED_MESSAGE))
}

/// Opens a box item with its default program: refused when the item no longer exists.
pub fn open_item_with_system_default(path: &str, item_exists: bool) -> (r: Result<
    ShellExecuteRequest,
    String,
>)
    ensures
        !item_exists ==> r is Err && r->Err_0@ == MISSING_ITEM_MESSAGE@,
        item_exists ==> r is Ok && opens(r->Ok_0, path@, OPEN_PATH_FAILED_MESSAGE@),
{
    if !item_exists {
        return Err(MISSING_ITEM_MESSAGE.to_owned());
    }
    Ok(shell_execute_open(path_null_terminated(path), OPEN_PATH_FAILED_MESSAGE))
}

/// Opens a Shell parsing name (`::{GUID}` or a known folder) like Explorer does.
pub fn open_parsing_name_with_system_default(parsing_name: &str) -> (req: ShellExecuteRequest)
    ensures
        opens(req, parsing_name@, OPEN_PARSING_NAME_FAILED_MESSAGE@),
{
    shell_execute_open(null_terminated(parsing_name), OPEN_PARSING_NAME_FAILED_MESSAGE)
}

/// A message followed by the Windows error code.
pub open spec fn with_error_code(message: Seq<char>, code: int) -> Seq<char> {
    message + ERROR_CODE_SEPARATOR@ + decimal_string(code)
}

/// `message` followed by the error code.
fn message_with_code(message: &str, code: i64) -> (s: String)
    ensures
        s@ == with_error_code(message@, code as int),
{
    let mut s = concat_str(message, ERROR_CODE_SEPARATOR);
    let digits = decimal(code);
    append_str(&mut s, digits.as_str());
    s
}

/// What a `ShellExecuteW` return value means: success above 32, otherwise the request's
/// error message with the code.
pub fn shell_execute_outcome(result: i64, error_message: &str) -> (r: Result<(), String>)
    ensures
        result > SHELL_EXECUTE_SUCCESS_THRESHOLD ==> r is Ok,
        result <= SHELL_EXECUTE_SUCCESS_THRESHOLD ==> r is Err && r->Err_0@ == with_error_code(
            error_message@,
            result as int,
        ),
{
    if result <= SHELL_EXECUTE_SUCCESS_THRESHOLD {
        return Err(message_with_code(error_message, result));
    }
    Ok(())
}

/// A `SHFileOperationW` call: its function, the double-NUL source list, the optional
/// double-NUL destination list, its flags, and the messages for failure and abort.
pub struct ShellFileOperation {
    pub function: u32,
    pub from: Vec<u16>,
    pub to: Option<Vec<u16>>,
    pub flags: u16,
    pub failed_message: &'static str,
    pub aborted_message: &'static str,
}

/// Message when Windows cannot recycle items.
pub const RECYCLE_FAILED_MESSAGE: &'static str = "Windows 无法将 Box 文件项移入回收站";
/// Message when the user aborts recycling.
pub const RECYCLE_ABORTED_MESSAGE: &'static str = "已取消删除 Box 文件项";
/// Message when Windows cannot move items.
pub const MOVE_FAILED_MESSAGE: &'static str = "Windows 无法移动 Box 文件项";
/// Message when the user aborts a move.
pub const MOVE_ABORTED_MESSAGE: &'static str = "已取消移动 Box 文件项";

/// `op` moves the items of the source list `from` into the destination list `to`.
pub open spec fn is_move_operation(op: ShellFileOperation, from: Seq<u16>, to: Seq<u16>) -> bool {
    &&& op.function == FO_MOVE
    &&& op.from@ == from
    &&& op.to matches Some(t) && t@ == to
    &&& op.flags == FOF_NOCONFIRMMKDIR
    &&& op.failed_message@ == MOVE_FAILED_MESSAGE@
    &&& op.aborted_message@ == MOVE_ABORTED_MESSAGE@
}

/// `op` moves the listed items to the recycle bin.
pub open spec fn is_recycle_operation(op: ShellFileOperation, from: Seq<u16>) -> bool {
    &&& op.function == FO_DELETE
    &&& op.from@ == from
    &&& op.to is None
    &&& op.flags == FOF_ALLOWUNDO
    &&& op.failed_message@ == RECYCLE_FAILED_MESSAGE@
    &&& op.aborted_message@ == RECYCLE_ABORTED_MESSAGE@
}

/// Moves several paths to the recycle bin in one restorable Shell operation.
pub fn recycle_paths(paths: &[String]) -> (op: ShellFileOperation)
    ensures
        is_recycle_operation(op, wide_path_list(paths@).push(0)),
{
    ShellFileOperation {
        function: FO_DELETE,
        from: double_null_path_list(paths),
        to: None,
        flags: FOF_ALLOWUNDO,
        failed_message: RECYCLE_FAILED_MESSAGE,
        aborted_message: RECYCLE_ABORTED_MESSAGE,
    }
}

/// Moves one path to the recycle bin.
pub fn recycle_path(path: &str) -> (op: ShellFileOperation)
    ensures
        is_recycle_operation(op, utf16_encode(path@) + seq![0u16, 0u16]),
{
    let mut paths: Vec<String> = Vec::new();
    paths.push(path.to_owned());
    let op = recycle_paths(paths.as_slice());
    proof {
        let ps = paths@;
        assert(ps.drop_last() =~= Seq::<String>::empty());
        assert(wide_path_list(ps.drop_last()) =~= Seq::<u16>::empty());
        assert(ps.last()@ == path@);
        assert(wide_path_list(ps) =~= utf16_encode(path@).push(0));
        assert(wide_path_list(ps).push(0) =~= utf16_encode(path@) + seq![0u16, 0u16]);
    }
    op
}

/// What `SHFileOperationW` reported: a non-zero result is a failure with its code, an
/// aborted operation is reported as such, anything else succeeded.
pub fn shell_operation_outcome(op: &ShellFileOperation, result: i32, any_aborted: bool) -> (r: Result<
    (),
    String,
>)
    ensures
        result != 0 ==> r is Err && r->Err_0@ == with_error_code(op.failed_message@, result as int),
        result == 0 && any_aborted ==> r is Err && r->Err_0@ == op.aborted_message@,
        result == 0 && !any_aborted ==> r is Ok,
{
    if result != 0 {
        return Err(message_with_code(op.failed_message, result as i64));
    }
    if any_aborted {
        return Err(op.aborted_message.to_owned());
    }
    Ok(())
}

/// Whether every move keeps the file name and lands in a folder equal to `folder`.
pub open spec fn plain_moves_into(moves: Seq<(String, String)>, folder: Seq<char>) -> bool {
    forall|i: int|
        0 <= i < moves.len() ==> {
            let source = (#[trigger] moves[i]).0@;
            let destination = moves[i].1@;
            &&& std_path_parent(destination) matches Some(parent) && std_paths_equal(
                parent,
                folder,
            )
            &&& std_path_file_name(source) is Some
            &&& std_path_file_name(destination) == std_path_file_name(source)
        }
}

/// The folder that every move goes into, keeping its file name: the parent of the first
/// destination, when all moves qualify.
pub open spec fn shared_destination(moves: Seq<(String, String)>) -> Option<Seq<char>> {
    if moves.len() == 0 {
        None
    } else {
        match std_path_parent(moves[0].1@) {
            Some(folder) => if plain_moves_into(moves, folder) {
                Some(folder)
            } else {
                None
            },
            None => None,
        }
    }
}

/// The destination folder shared by moves that only change folder, if there is one.
pub fn resolve_shared_plain_move_destination(moves: &[(String, String)]) -> (r: Option<String>)
    ensures
        opt_view(r) == shared_destination(moves@),
{
    if moves.len() == 0 {
        return None;
    }
    let folder = match path_parent(moves[0].1.as_str()) {
        Some(folder) => folder,
        None => return None,
    };
    let n = moves.len();
    let mut i: usize = 0;
    while i < n
        invariant
            n == moves@.len(),
            i <= n,
            std_path_parent(moves@[0].1@) == Some(folder@),
            forall|k: int|
                0 <= k < i ==> {
                    let source = (#[trigger] moves@[k]).0@;
                    let destination = moves@[k].1@;
                    &&& std_path_parent(destination) matches Some(parent) && std_paths_equal(
                        parent,
                        folder@,
                    )
                    &&& std_path_file_name(source) is Some
                    &&& std_path_file_name(destination) == std_path_file_name(source)
                },
        decreases n - i,
    {
        let source = &moves[i].0;
        let destination = &moves[i].1;
        let parent = match path_parent(destination.as_str()) {
            Some(parent) => parent,
            None => return None,
        };
        if !paths_equal(parent.as_str(), folder.as_str()) {
            return None;
        }
        let source_name = match path_file_name(source.as_str()) {
            Some(name) => name,
            None => return None,
        };
        let destination_name = match path_file_name(destination.as_str()) {
            Some(name) => name,
            None => return None,
        };
        if source_name != destination_name {
            return None;
        }
        i = i + 1;
    }
    Some(folder)
}

/// The sources of the moves, in order.
fn move_sources(moves: &[(String, String)]) -> (sources: Vec<String>)
    ensures
        sources@.len() == moves@.len(),
        forall|i: int| 0 <= i < moves@.len() ==> #[trigger] sources@[i]@ == moves@[i].0@,
{
    let mut sources: Vec<String> = Vec::new();
    let n = moves.len();
    let mut i: usize = 0;
    while i < n
        invariant
            n == moves@.len(),
            i <= n,
            sources@.len() == i,
            forall|k: int| 0 <= k < i ==> #[trigger] sources@[k]@ == moves@[k].0@,
        decreases n - i,
    {
        sources.push(moves[i].0.clone());
        i = i + 1;
    }
    sources
}

/// The source paths of the moves, in order.
pub open spec fn move_sources_of(moves: Seq<(String, String)>) -> Seq<String> {
    moves.map_values(|m: (String, String)| m.0)
}

/// The same path list for two sequences of strings with equal texts.
proof fn lemma_wide_path_list_views(a: Seq<String>, b: Seq<String>)
    requires
        a.len() == b.len(),
        forall|i: int| 0 <= i < a.len() ==> #[trigger] a[i]@ == b[i]@,
    ensures
        wide_path_list(a) == wide_path_list(b),
    decreases a.len(),
{
    if a.len() > 0 {
        lemma_wide_path_list_views(a.drop_last(), b.drop_last());
    }
}

/// The Shell moves that carry out `moves` so that Explorer sees ordinary file moves:
/// nothing for no moves; one operation for all sources when every move only changes
/// folder into the same one; else one operation per move.
pub fn move_paths_with_shell(moves: &[(String, String)]) -> (ops: Vec<ShellFileOperation>)
    ensures
        moves@.len() == 0 ==> ops@.len() == 0,
        moves@.len() > 0 && shared_destination(moves@) is Some ==> {
            &&& ops@.len() == 1
            &&& is_move_operation(
                ops@[0],
                wide_path_list(move_sources_of(moves@)).push(0),
                utf16_encode(shared_destination(moves@)->0) + seq![0u16, 0u16],
            )
        },
        moves@.len() > 0 && shared_destination(moves@) is None ==> {
            &&& ops@.len() == moves@.len()
            &&& forall|i: int|
                0 <= i < moves@.len() ==> is_move_operation(
                    #[trigger] ops@[i],
                    utf16_encode(moves@[i].0@) + seq![0u16, 0u16],
                    utf16_encode(moves@[i].1@) + seq![0u16, 0u16],
                )
        },
{
    let mut ops: Vec<ShellFileOperation> = Vec::new();
    if moves.len() == 0 {
        return ops;
    }
    match resolve_shared_plain_move_destination(moves) {
        Some(folder) => {
            let sources = move_sources(moves);
            let op = ShellFileOperation {
                function: FO_MOVE,
                from: double_null_paths(sources.as_slice()),
                to: Some(double_null_single_path(folder.as_str())),
                flags: FOF_NOCONFIRMMKDIR,
                failed_message: MOVE_FAILED_MESSAGE,
                aborted_message: MOVE_ABORTED_MESSAGE,
            };
            ops.push(op);
            proof {
                lemma_wide_path_list_views(move_sources_of(moves@), sources@);
            }
            ops
        },
        None => {
            let n = moves.len();
            let mut i: usize = 0;
            while i < n
                invariant
                    n == moves@.len(),
                    i <= n,
                    ops@.len() == i,
                    forall|k: int|
                        0 <= k < i ==> is_move_operation(
                            #[trigger] ops@[k],
                            utf16_encode(moves@[k].0@) + seq![0u16, 0u16],
                            utf16_encode(moves@[k].1@) + seq![0u16, 0u16],
                        ),
                decreases n - i,
            {
                let op = ShellFileOperation {
                    function: FO_MOVE,
                    from: double_null_single_path(moves[i].0.as_str()),
                    to: Some(double_null_single_path(moves[i].1.as_str())),
                    flags: FOF_NOCONFIRMMKDIR,
                    failed_message: MOVE_FAILED_MESSAGE,
                    aborted_message: MOVE_ABORTED_MESSAGE,
                };
                ops.push(op);
                i = i + 1;
            }
            ops
        },
    }
}

/// Message when the shortcut file already exists.
pub const SHORTCUT_EXISTS_MESSAGE: &'static str = "目标快捷方式已经存在，已停止映射";

/// What to write into a new `.lnk` shortcut: the NUL-terminated target path, the
/// target's folder as working directory when it has one, and the shortcut file path.
pub struct ShortcutRequest {
    pub target: Vec<u16>,
    pub working_directory: Option<Vec<u16>>,
    pub shortcut: Vec<u16>,
}

/// Plans a `.lnk` shortcut to `path` stored at `shortcut_path`; refused when the
/// shortcut file already exists, so that nothing is overwritten.
pub fn create_shortcut_for_path(path: &str, shortcut_path: &str, shortcut_exists: bool) -> (r:
    Result<ShortcutRequest, String>)
    ensures
        shortcut_exists ==> r is Err && r->Err_0@ == SHORTCUT_EXISTS_MESSAGE@,
        !shortcut_exists ==> r is Ok && {
            let req = r->Ok_0;
            &&& req.target@ == utf16_encode(path@).push(0)
            &&& req.shortcut@ == utf16_encode(shortcut_path@).push(0)
            &&& req.working_directory is Some == std_path_parent(path@) is Some
            &&& req.working_directory matches Some(w) ==> w@ == utf16_encode(
                std_path_parent(path@)->0,
            ).push(0)
        },
{
    if shortcut_exists {
        return Err(SHORTCUT_EXISTS_MESSAGE.to_owned());
    }
    let working_directory = match path_parent(path) {
        Some(parent) => Some(path_null_terminated(parent.as_str())),
        None => None,
    };
    Ok(
        ShortcutRequest {
            target: path_null_terminated(path),
            working_directory,
            shortcut: path_null_terminated(shortcut_path),
        },
    )
}

} // verus!
