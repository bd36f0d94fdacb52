//! Explorer's native context menu for an item, and the native folder picker.

use vstd::prelude::*;

verus! {

/// Position at which the Shell inserts its menu items.
pub const SHELL_CONTEXT_MENU_INSERT_POSITION: u32 = 0;
/// The first command id given to the Shell's menu items; 0 means no selection.
pub const SHELL_CONTEXT_FIRST_COMMAND_ID: u32 = 1;
/// The last command id the Shell may use (the 15-bit command space).
pub const SHELL_CONTEXT_LAST_COMMAND_ID: u32 = 0x7fff;

/// The command offset that `IContextMenu::InvokeCommand` takes for what
/// `TrackPopupMenu` returned: nothing when the menu was dismissed (0), else the command
/// id minus the first command id (saturating), as an offset.
pub fn context_menu_command_offset(selected_command: i32) -> (r: Option<usize>)
    ensures
        selected_command == 0 ==> r is None,
        selected_command != 0 ==> r == Some(
            (if selected_command == i32::MIN {
                i32::MIN as int
            } else {
                selected_command - 1
            }) as usize,
        ),
{
    if selected_command == 0 {
        return None;
    }
    let offset: i32 = if selected_command == i32::MIN {
        i32::MIN
    } else {
        selected_command - 1
    };
    Some(offset as usize)
}

/// `HRESULT_FROM_WIN32(ERROR_CANCELLED)`, returned when the user closes the folder
/// picker without choosing.
pub const HRESULT_ERROR_CANCELLED: i32 = -2147023673;

/// Whether the folder picker failed only because the user cancelled it, which is no
/// error: nothing was chosen.
pub fn is_folder_dialog_cancelled(hresult: i32) -> (r: bool)
    ensures
        r == (hresult == HRESULT_ERROR_CANCELLED),
{
    hresult == HRESULT_ERROR_CANCELLED
}

} // verus!
