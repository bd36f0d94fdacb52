use dasktop::box_window::{
    box_window_subclass_action, is_primary_mouse_button_pressed, resident_style,
    toolwindow_ex_style, without_topmost, BoxWindowAction, WindowPosition,
};
use dasktop::desktop_icon::{
    format_registry_error, get_shell_desktop_icon_visible, query_dword,
    set_shell_desktop_icon_visible, RegistryDwordRead, CLASSIC_START_MENU_PATH,
    NEW_START_PANEL_PATH,
};
use dasktop::desktop_path::resolve_desktop_path;
use dasktop::shell_context::{context_menu_command_offset, is_folder_dialog_cancelled};
use dasktop::shell_file::{
    create_shortcut_for_path, move_paths_with_shell, open_folder_in_explorer,
    open_item_with_system_default, open_parsing_name_with_system_default, recycle_path,
    recycle_paths, resolve_shared_plain_move_destination, shell_execute_outcome,
    shell_operation_outcome, FOF_ALLOWUNDO, FOF_NOCONFIRMMKDIR, FO_DELETE, FO_MOVE,
};
use dasktop::single_instance::{acquire_or_notify_existing, is_reload_invocation, keep_listening, StartupDecision};

fn wide(s: &str) -> Vec<u16> {
    s.encode_utf16().collect()
}

fn terminated(s: &str) -> Vec<u16> {
    let mut v = wide(s);
    v.push(0);
    v
}

#[test]
fn opening_requires_an_existing_target() {
    assert_eq!(
        open_folder_in_explorer("C:\\Box", false).err().as_deref(),
        Some("Box 文件夹不存在，可能已经被移动或删除")
    );
    let request = open_folder_in_explorer("C:\\Box", true).ok().expect("request");
    assert_eq!(request.target, terminated("C:\\Box"));
    assert_eq!(request.verb, terminated("open"));
    assert_eq!(
        open_item_with_system_default("a.txt", false).err().as_deref(),
        Some("文件项不存在，可能已经被移动或删除")
    );
    assert!(open_item_with_system_default("a.txt", true).is_ok());
    let shell = open_parsing_name_with_system_default("::{X}");
    assert_eq!(shell.target, terminated("::{X}"));
    assert_eq!(shell.error_message, "系统无法打开该系统桌面项目");
}

#[test]
fn shell_execute_results() {
    assert!(shell_execute_outcome(33, "failed").is_ok());
    assert_eq!(shell_execute_outcome(32, "failed").err().as_deref(), Some("failed，错误码 32"));
    assert_eq!(shell_execute_outcome(2, "x").err().as_deref(), Some("x，错误码 2"));
    assert_eq!(shell_execute_outcome(-7, "x").err().as_deref(), Some("x，错误码 -7"));
}

#[test]
fn recycle_operations() {
    let op = recycle_paths(&["a".to_string(), "b".to_string()]);
    assert_eq!(op.function, FO_DELETE);
    assert_eq!(op.flags, FOF_ALLOWUNDO);
    assert_eq!(op.from, vec![97, 0, 98, 0, 0]);
    assert!(op.to.is_none());
    let single = recycle_path("a");
    assert_eq!(single.from, vec![97, 0, 0]);
    assert!(shell_operation_outcome(&single, 0, false).is_ok());
    assert_eq!(
        shell_operation_outcome(&single, 0, true).err().as_deref(),
        Some("已取消删除 Box 文件项")
    );
    assert_eq!(
        shell_operation_outcome(&single, 1223, true).err().as_deref(),
        Some("Windows 无法将 Box 文件项移入回收站，错误码 1223")
    );
}

#[test]
fn moves_into_one_folder_become_one_operation() {
    let base = std::path::PathBuf::from("base");
    let src_dir = base.join("src");
    let dst_dir = base.join("dst");
    let s = |name: &str| src_dir.join(name).to_string_lossy().into_owned();
    let d = |name: &str| dst_dir.join(name).to_string_lossy().into_owned();
    let moves = vec![(s("a.txt"), d("a.txt")), (s("b.txt"), d("b.txt"))];
    let folder = dst_dir.to_string_lossy().into_owned();
    assert_eq!(resolve_shared_plain_move_destination(&moves).as_deref(), Some(folder.as_str()));
    let ops = move_paths_with_shell(&moves);
    assert_eq!(ops.len(), 1);
    assert_eq!(ops[0].function, FO_MOVE);
    assert_eq!(ops[0].flags, FOF_NOCONFIRMMKDIR);
    let mut from = terminated(&s("a.txt"));
    from.extend(terminated(&s("b.txt")));
    from.push(0);
    assert_eq!(ops[0].from, from);
    let mut to = terminated(&folder);
    to.push(0);
    assert_eq!(ops[0].to.as_ref(), Some(&to));
    // a rename cannot share the folder move
    let renamed = vec![(s("a.txt"), d("c.txt")), (s("b.txt"), d("b.txt"))];
    assert_eq!(resolve_shared_plain_move_destination(&renamed), None);
    let ops = move_paths_with_shell(&renamed);
    assert_eq!(ops.len(), 2);
    let mut first_to = terminated(&d("c.txt"));
    first_to.push(0);
    assert_eq!(ops[0].to.as_ref(), Some(&first_to));
    assert!(move_paths_with_shell(&[]).is_empty());
}

#[test]
fn shortcut_requests() {
    assert_eq!(
        create_shortcut_for_path("a", "b.lnk", true).err().as_deref(),
        Some("目标快捷方式已经存在，已停止映射")
    );
    let base = std::path::PathBuf::from("base");
    let target = base.join("app.exe").to_string_lossy().into_owned();
    let request = create_shortcut_for_path(&target, "s.lnk", false).ok().expect("request");
    assert_eq!(request.target, terminated(&target));
    assert_eq!(request.shortcut, terminated("s.lnk"));
    assert_eq!(request.working_directory, Some(terminated(&base.to_string_lossy())));
}

#[test]
fn desktop_icon_visibility_round_trip() {
    let writes = set_shell_desktop_icon_visible("this-pc", false).ok().expect("writes");
    assert_eq!(writes.len(), 2);
    assert_eq!(writes[0].path, NEW_START_PANEL_PATH);
    assert_eq!(writes[1].path, CLASSIC_START_MENU_PATH);
    assert_eq!(writes[0].value_name, "{20D04FE0-3AEA-1069-A2D8-08002B30309D}");
    assert_eq!(writes[0].value, 1);
    let stored = query_dword(0, 4, 4, &writes[0].value.to_le_bytes());
    assert_eq!(
        get_shell_desktop_icon_visible("this-pc", RegistryDwordRead::Queried(stored)).ok(),
        Some(false)
    );
    let shown = set_shell_desktop_icon_visible("this-pc", true).ok().expect("writes");
    assert_eq!(shown[1].value, 0);
    assert_eq!(
        get_shell_desktop_icon_visible("this-pc", RegistryDwordRead::Queried(Ok(0))).ok(),
        Some(true)
    );
}

#[test]
fn desktop_icon_defaults_and_errors() {
    assert_eq!(
        get_shell_desktop_icon_visible("recycle-bin", RegistryDwordRead::OpenFailed(2)).ok(),
        Some(true)
    );
    assert_eq!(
        get_shell_desktop_icon_visible("network", RegistryDwordRead::Queried(Err(2))).ok(),
        Some(false)
    );
    assert_eq!(
        get_shell_desktop_icon_visible("network", RegistryDwordRead::OpenFailed(5)).err().as_deref(),
        Some("读取系统桌面图标配置失败，Windows 错误码：5")
    );
    assert_eq!(
        get_shell_desktop_icon_visible("network", RegistryDwordRead::Queried(Err(6))).err().as_deref(),
        Some("读取系统桌面图标显示状态失败，Windows 错误码：6")
    );
    assert_eq!(
        get_shell_desktop_icon_visible("clock", RegistryDwordRead::Queried(Ok(0))).err().as_deref(),
        Some("暂不支持管理该系统桌面图标：clock")
    );
    assert!(set_shell_desktop_icon_visible("clock", true).is_err());
    assert_eq!(query_dword(0, 1, 4, &[0, 0, 0, 0]), Err(2));
    assert_eq!(query_dword(0, 4, 2, &[0, 0, 0, 0]), Err(2));
    assert_eq!(query_dword(5, 4, 4, &[0, 0, 0, 0]), Err(5));
    assert_eq!(query_dword(0, 4, 4, &[1, 2, 0, 0]), Ok(513));
    assert_eq!(format_registry_error("写入", 1234567), "写入失败，Windows 错误码：1234567");
}

#[test]
fn window_styles() {
    assert_eq!(without_topmost(0x8 | 0x100), Some(0x100));
    assert_eq!(without_topmost(0x100), None);
    assert_eq!(toolwindow_ex_style(0x1), 0x81);
    assert_eq!(resident_style(0x30000 | 0x5), 0x5);
}

#[test]
fn subclass_keeps_the_box_on_the_desktop() {
    assert_eq!(box_window_subclass_action(274, 0xF020, None, false, true), BoxWindowAction::Swallow);
    assert_eq!(box_window_subclass_action(274, 0xF023, None, false, true), BoxWindowAction::Swallow);
    assert_eq!(box_window_subclass_action(274, 0xF030, None, false, true), BoxWindowAction::Default);
    assert_eq!(box_window_subclass_action(24, 0, None, false, true), BoxWindowAction::Swallow);
    assert_eq!(box_window_subclass_action(24, 1, None, false, true), BoxWindowAction::Default);
    assert_eq!(box_window_subclass_action(5, 1, None, false, true), BoxWindowAction::RestoreAndSwallow);
    let parked = WindowPosition { x: -32000, y: -32000, flags: 0x80 | 0x4 };
    assert_eq!(
        box_window_subclass_action(70, 0, Some(parked), false, true),
        BoxWindowAction::AdjustPosition(0x4 | 0x2 | 0x1)
    );
    let hiding = WindowPosition { x: 10, y: 10, flags: 0x80 };
    assert_eq!(box_window_subclass_action(70, 0, Some(hiding), false, true), BoxWindowAction::AdjustPosition(0x40));
    let normal = WindowPosition { x: 10, y: 10, flags: 0x4 };
    assert_eq!(box_window_subclass_action(70, 0, Some(normal), false, true), BoxWindowAction::Default);
    assert_eq!(box_window_subclass_action(70, 0, None, false, true), BoxWindowAction::Default);
    assert_eq!(box_window_subclass_action(71, 0, None, true, true), BoxWindowAction::RestoreAndSwallow);
    assert_eq!(box_window_subclass_action(71, 0, None, false, false), BoxWindowAction::RestoreAndSwallow);
    assert_eq!(box_window_subclass_action(71, 0, None, false, true), BoxWindowAction::Default);
    assert_eq!(box_window_subclass_action(1, 0, None, true, false), BoxWindowAction::Default);
}

#[test]
fn mouse_button_state() {
    assert!(is_primary_mouse_button_pressed(i16::MIN));
    assert!(is_primary_mouse_button_pressed(-32767));
    assert!(!is_primary_mouse_button_pressed(1));
    assert!(!is_primary_mouse_button_pressed(0));
}

#[test]
fn desktop_path_fallbacks() {
    assert_eq!(resolve_desktop_path(Some("D:\\Desk".to_string()), Some("C:\\U".to_string()), None), "D:\\Desk");
    let profile = "profile".to_string();
    let joined = std::path::Path::new(&profile).join("Desktop").to_string_lossy().into_owned();
    assert_eq!(resolve_desktop_path(Some(String::new()), Some(profile.clone()), None), joined);
    assert_eq!(resolve_desktop_path(None, None, Some("cwd".to_string())), "cwd");
    assert_eq!(resolve_desktop_path(None, None, None), ".");
}

#[test]
fn single_instance_decisions() {
    let plain = vec!["Dasktop.exe".to_string()];
    let reload = vec!["Dasktop.exe".to_string(), "--reload".to_string()];
    let only_program = vec!["--reload".to_string()];
    assert!(!is_reload_invocation(&plain));
    assert!(is_reload_invocation(&reload));
    assert!(!is_reload_invocation(&only_program));
    assert_eq!(acquire_or_notify_existing(0, &reload), StartupDecision::RunAsPrimary);
    assert_eq!(acquire_or_notify_existing(183, &reload), StartupDecision::NotifyReloadFrontend);
    assert_eq!(acquire_or_notify_existing(183, &plain), StartupDecision::NotifyShowSettings);
    assert!(keep_listening(0, true));
    assert!(!keep_listening(0, false));
    assert!(!keep_listening(258, true));
}

#[test]
fn context_menu_offsets() {
    assert_eq!(context_menu_command_offset(0), None);
    assert_eq!(context_menu_command_offset(1), Some(0));
    assert_eq!(context_menu_command_offset(42), Some(41));
    assert!(is_folder_dialog_cancelled(0x800704C7_u32 as i32));
    assert!(!is_folder_dialog_cancelled(0));
}
