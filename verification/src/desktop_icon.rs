//! Whether Explorer shows a Windows desktop system icon, kept in the registry under
//! `HideDesktopIcons` as a `DWORD` per CLSID: 0 shows the icon, 1 hides it.

use vstd::prelude::*;
use crate::shell_virtual_item::{ShellVirtualItem, desktop_icon_item, resolve_desktop_icon_item};
use crate::text::{concat_str, decimal, decimal_string, append_str};
use crate::native_drop::{le_u32_at, read_u32_le};
use crate::clipboard::u32_le_bytes;

verus! {

/// The `HideDesktopIcons` key of the current start menu, which Explorer reads.
pub const NEW_START_PANEL_PATH: &'static str = "Software\\Microsoft\\Windows\\CurrentVersion\\Explorer\\HideDesktopIcons\\NewStartPanel";

/// The `HideDesktopIcons` key of the classic start menu, kept in step for compatibility.
pub const CLASSIC_START_MENU_PATH: &'static str = "Software\\Microsoft\\Windows\\CurrentVersion\\Explorer\\HideDesktopIcons\\ClassicStartMenu";

/// `ERROR_SUCCESS`.
pub const ERROR_SUCCESS: u32 = 0;
/// `ERROR_FILE_NOT_FOUND`: a missing key or value.
pub const ERROR_FILE_NOT_FOUND: u32 = 2;
/// `REG_DWORD`.
pub const REG_DWORD: u32 = 4;

/// The value of a registry `DWORD` query: the query's status, the stored value's type
/// and size, and its first four bytes.
pub open spec fn dword_query(status: u32, value_type: u32, data_size: u32, data: Seq<u8>) -> Result<
    u32,
    u32,
> {
    if status != ERROR_SUCCESS {
        Err(status)
    } else if value_type != REG_DWORD || data_size != 4 {
        Err(ERROR_FILE_NOT_FOUND)
    } else {
        Ok(le_u32_at(data, 0) as u32)
    }
}

/// Interprets a `RegQueryValueExW` answer for a `DWORD`: a failed query gives its error,
/// a value of another type or size counts as missing, else the little-endian value.
pub fn query_dword(status: u32, value_type: u32, data_size: u32, data: &[u8]) -> (r: Result<u32, u32>)
    requires
        data@.len() == 4,
    ensures
        r == dword_query(status, value_type, data_size, data@),
{
    if status != ERROR_SUCCESS {
        return Err(status);
    }
    if value_type != REG_DWORD || data_size != 4 {
        return Err(ERROR_FILE_NOT_FOUND);
    }
    Ok(read_u32_le(data, 0))
}

/// What reading the visibility of one icon found in the registry.
pub enum RegistryDwordRead {
    /// `RegOpenKeyExW` failed with this error.
    OpenFailed(u32),
    /// The key opened and the `DWORD` query gave this value or error.
    Queried(Result<u32, u32>),
}

/// The text of a registry error: the action, then the Windows error code.
pub open spec fn registry_error_text(action: Seq<char>, code: u32) -> Seq<char> {
    action + "失败，Windows 错误码："@ + decimal_string(code as int)
}

/// Describes a failed registry action with its Windows error code.
pub fn format_registry_error(action: &str, code: u32) -> (s: String)
    ensures
        s@ == registry_error_text(action@, code),
{
    let mut s = concat_str(action, "失败，Windows 错误码：");
    let digits = decimal(code as i64);
    append_str(&mut s, digits.as_str());
    s
}

/// The refusal for an id that is not a manageable desktop icon.
pub open spec fn unsupported_icon_text(shell_id: Seq<char>) -> Seq<char> {
    "暂不支持管理该系统桌面图标："@ + shell_id
}

/// The manageable desktop icon with the given id, or the refusal.
pub fn resolve_shell_desktop_icon_entry(shell_id: &str) -> (r: Result<ShellVirtualItem, String>)
    ensures
        desktop_icon_item(shell_id@) is None ==> r is Err && r->Err_0@ == unsupported_icon_text(
            shell_id@,
        ),
        desktop_icon_item(shell_id@) matches Some(item) ==> r == Ok::<ShellVirtualItem, String>(
            item,
        ),
{
    match resolve_desktop_icon_item(shell_id) {
        Some(item) => Ok(item),
        None => Err(concat_str("暂不支持管理该系统桌面图标：", shell_id)),
    }
}

/// Action named when the visibility key cannot be read.
pub const READ_CONFIG_ACTION: &'static str = "读取系统桌面图标配置";
/// Action named when the visibility value cannot be read.
pub const READ_STATE_ACTION: &'static str = "读取系统桌面图标显示状态";
/// Action named when a visibility key cannot be opened for writing.
pub const OPEN_CONFIG_ACTION: &'static str = "打开系统桌面图标配置";
/// Action named when a visibility value cannot be written.
pub const WRITE_STATE_ACTION: &'static str = "写入系统桌面图标显示状态";

/// Whether the desktop shows an icon, from what the `NewStartPanel` key held for its
/// CLSID: shown when the value is 0, hidden for any other value; a missing key or value
/// means the Windows default for the icon; other registry errors are reported.
pub fn get_shell_desktop_icon_visible(shell_id: &str, stored: RegistryDwordRead) -> (r: Result<
    bool,
    String,
>)
    ensures
        desktop_icon_item(shell_id@) is None ==> r is Err && r->Err_0@ == unsupported_icon_text(
            shell_id@,
        ),
        desktop_icon_item(shell_id@) matches Some(item) ==> match visibility_from_registry(
            item,
            stored,
        ) {
            Ok(visible) => r == Ok::<bool, String>(visible),
            Err(message) => r is Err && r->Err_0@ == message,
        },
{
    let entry = match resolve_shell_desktop_icon_entry(shell_id) {
        Ok(entry) => entry,
        Err(message) => return Err(message),
    };
    match stored {
        RegistryDwordRead::OpenFailed(code) => {
            if code == ERROR_FILE_NOT_FOUND {
                Ok(entry.default_visible())
            } else {
                Err(format_registry_error(READ_CONFIG_ACTION, code))
            }
        },
        RegistryDwordRead::Queried(Err(code)) => {
            if code == ERROR_FILE_NOT_FOUND {
                Ok(entry.default_visible())
            } else {
                Err(format_registry_error(READ_STATE_ACTION, code))
            }
        },
        RegistryDwordRead::Queried(Ok(value)) => Ok(value == 0),
    }
}

/// The `DWORD` stored for a visibility: 0 to show the icon, 1 to hide it.
pub open spec fn hidden_value(visible: bool) -> u32 {
    if visible {
        0
    } else {
        1
    }
}

/// One registry write: set `value_name` to `value` under `HKEY_CURRENT_USER\path`,
/// creating the key when missing.
pub struct RegistryDwordWrite {
    pub path: &'static str,
    pub value_name: &'static str,
    pub value: u32,
}

/// The registry writes that show or hide an icon: the icon's CLSID in both
/// `HideDesktopIcons` keys, `NewStartPanel` first; Explorer is refreshed afterwards.
pub fn set_shell_desktop_icon_visible(shell_id: &str, visible: bool) -> (r: Result<
    Vec<RegistryDwordWrite>,
    String,
>)
    ensures
        desktop_icon_item(shell_id@) is None ==> r is Err && r->Err_0@ == unsupported_icon_text(
            shell_id@,
        ),
        desktop_icon_item(shell_id@) matches Some(item) ==> r is Ok && {
            let writes = r->Ok_0@;
            &&& writes.len() == 2
            &&& writes[0].path@ == NEW_START_PANEL_PATH@
            &&& writes[1].path@ == CLASSIC_START_MENU_PATH@
            &&& forall|i: int|
                0 <= i < 2 ==> Some((#[trigger] writes[i]).value_name@)
                    == item.spec_desktop_icon_clsid() && writes[i].value == hidden_value(visible)
        },
{
    let entry = match resolve_shell_desktop_icon_entry(shell_id) {
        Ok(entry) => entry,
        Err(message) => return Err(message),
    };
    let clsid = match entry.desktop_icon_clsid() {
        Some(clsid) => clsid,
        None => return Err(concat_str("暂不支持管理该系统桌面图标：", shell_id)),
    };
    let hidden: u32 = if visible {
        0
    } else {
        1
    };
    let mut writes: Vec<RegistryDwordWrite> = Vec::new();
    writes.push(RegistryDwordWrite { path: NEW_START_PANEL_PATH, value_name: clsid, value: hidden });
    writes.push(
        RegistryDwordWrite { path: CLASSIC_START_MENU_PATH, value_name: clsid, value: hidden },
    );
    Ok(writes)
}

/// What `get_shell_desktop_icon_visible` answers for a manageable icon and what the
/// registry held: the visibility, or the registry error that is reported.
pub open spec fn visibility_from_registry(item: ShellVirtualItem, stored: RegistryDwordRead) -> Result<
    bool,
    Seq<char>,
> {
    match stored {
        RegistryDwordRead::OpenFailed(code) => if code == ERROR_FILE_NOT_FOUND {
            Ok(item.spec_default_visible())
        } else {
            Err(registry_error_text(READ_CONFIG_ACTION@, code))
        },
        RegistryDwordRead::Queried(Err(code)) => if code == ERROR_FILE_NOT_FOUND {
            Ok(item.spec_default_visible())
        } else {
            Err(registry_error_text(READ_STATE_ACTION@, code))
        },
        RegistryDwordRead::Queried(Ok(value)) => Ok(value == 0),
    }
}

/// A missing `HideDesktopIcons` key (as on a fresh profile) reads like a missing value:
/// the icon's Windows default, which shows only the Recycle Bin and hides This PC, the
/// network, the Control Panel and the user folder.
pub proof fn lemma_missing_key_means_default(item: ShellVirtualItem)
    ensures
        visibility_from_registry(item, RegistryDwordRead::OpenFailed(ERROR_FILE_NOT_FOUND))
            == visibility_from_registry(
            item,
            RegistryDwordRead::Queried(Err(ERROR_FILE_NOT_FOUND)),
        ),
        visibility_from_registry(item, RegistryDwordRead::OpenFailed(ERROR_FILE_NOT_FOUND))
            == Ok::<bool, Seq<char>>(item == ShellVirtualItem::RecycleBin),
{
}

/// Reading back what was written gives the visibility that was set: the `DWORD`
/// that `set_shell_desktop_icon_visible` writes for `visible`, queried as a
/// little-endian `REG_DWORD`, makes `get_shell_desktop_icon_visible` answer `visible`.
pub proof fn lemma_read_after_write(item: ShellVirtualItem, visible: bool)
    ensures
        visibility_from_registry(
            item,
            RegistryDwordRead::Queried(
                dword_query(ERROR_SUCCESS, REG_DWORD, 4, u32_le_bytes(hidden_value(visible))),
            ),
        ) == Ok::<bool, Seq<char>>(visible),
{
    let b = u32_le_bytes(hidden_value(visible));
    assert(le_u32_at(b, 0) == hidden_value(visible));
}

} // verus!
