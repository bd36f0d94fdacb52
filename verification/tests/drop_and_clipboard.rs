use dasktop::clipboard::{
    create_drop_effect_bytes, preferred_drop_effect_format, read_file_list, read_hdrop_paths,
    read_preferred_operation, write_file_list, FileClipboardOperation,
};
use dasktop::hdrop::file_list_bytes;
use dasktop::native_drop::{
    drag_payload, hdrop_paths_from_entries, optional_non_empty, parse_cida_offsets,
    push_unique_shell_drop_item, resolve_accepted_drop_effect, resolve_native_drop_items,
    resolve_payload_paths, resolve_shell_drop_items, shell_idlist_clipboard_format,
    shell_items_from_parsing_names, supports_supported_drop_data, DropEvent, DropTargetState,
    EnterData, NativeDropItems, NativeDropPosition, NativeShellDropItem,
};

const THIS_PC: &str = "::{20D04FE0-3AEA-1069-A2D8-08002B30309D}";
const NETWORK: &str = "::{F02C1A0D-BE21-4350-88B0-7367FC96EF3C}";

fn item(id: &str) -> NativeShellDropItem {
    NativeShellDropItem { shell_id: id.to_string() }
}

fn ids(items: &[NativeShellDropItem]) -> Vec<&str> {
    items.iter().map(|i| i.shell_id.as_str()).collect()
}

#[test]
fn payload_lists_shell_items_as_path_keys() {
    let items = NativeDropItems {
        paths: vec!["C:\\a.txt".to_string()],
        shell_items: vec![item("this-pc")],
    };
    assert_eq!(resolve_payload_paths(&items), vec!["C:\\a.txt", "shell::this-pc"]);
    assert!(!items.is_empty());
    assert!(NativeDropItems::new().is_empty());
    assert_eq!(optional_non_empty(Vec::<u8>::new()), None);
    assert_eq!(optional_non_empty(vec![1]), Some(vec![1]));
    let payload = drag_payload(items, NativeDropPosition { x: 3, y: 4 });
    assert_eq!(payload.paths.as_ref().map(|p| p.len()), Some(2));
    assert_eq!(payload.shell_items.as_ref().map(|s| s.len()), Some(1));
    let empty = drag_payload(NativeDropItems::new(), NativeDropPosition { x: 0, y: 0 });
    assert!(empty.paths.is_none() && empty.shell_items.is_none());
}

#[test]
fn shell_items_are_unique() {
    let mut items = vec![item("a")];
    push_unique_shell_drop_item(&mut items, "a");
    push_unique_shell_drop_item(&mut items, "b");
    push_unique_shell_drop_item(&mut items, "b");
    assert_eq!(ids(&items), vec!["a", "b"]);
}

#[test]
fn drop_items_merge_all_sources() {
    let merged = resolve_native_drop_items(
        Some(vec![item("this-pc")]),
        Some(vec![item("network"), item("this-pc")]),
        Some(vec![
            "C:\\file.txt".to_string(),
            THIS_PC.to_string(),
            "C:\\Users\\Me".to_string(),
        ]),
        Some("C:\\Users\\Me".to_string()),
    )
    .expect("items");
    assert_eq!(merged.paths, vec!["C:\\file.txt"]);
    assert_eq!(ids(&merged.shell_items), vec!["this-pc", "network", "user-folder"]);
    assert!(resolve_native_drop_items(None, None, None, None).is_none());
    assert!(resolve_native_drop_items(None, Some(vec![]), Some(vec![]), None).is_none());
}

#[test]
fn shell_item_arrays_and_id_lists() {
    let names = vec![
        (Some("C:\\plain".to_string()), Some(NETWORK.to_string())),
        (None, Some(THIS_PC.to_string())),
        (Some(NETWORK.to_string()), None),
        (None, None),
    ];
    let found = resolve_shell_drop_items(&names, None).expect("items");
    assert_eq!(ids(&found), vec!["network", "this-pc"]);
    assert!(resolve_shell_drop_items(&[(None, None)], None).is_none());
    let children = vec![None, Some("C:\\x".to_string()), Some(THIS_PC.to_string())];
    assert_eq!(ids(&shell_items_from_parsing_names(&children, None).expect("items")), vec!["this-pc"]);
    assert!(shell_items_from_parsing_names(&[None], None).is_none());
}

#[test]
fn cida_header_parsing() {
    // two items: offsets 16 (parent), 18, 20; block of 22 bytes
    let mut bytes = vec![2, 0, 0, 0, 16, 0, 0, 0, 18, 0, 0, 0, 20, 0, 0, 0];
    bytes.extend([0u8; 6]);
    assert_eq!(parse_cida_offsets(&bytes), Some(vec![16, 18, 20]));
    // offset past the end
    let mut bad = bytes.clone();
    bad[12] = 22;
    assert_eq!(parse_cida_offsets(&bad), None);
    // no items, short block, header larger than block
    assert_eq!(parse_cida_offsets(&[0, 0, 0, 0, 4, 0, 0, 0]), None);
    assert_eq!(parse_cida_offsets(&[1, 0, 0, 0]), None);
    assert_eq!(parse_cida_offsets(&[9, 0, 0, 0, 4, 0, 0, 0]), None);
    assert_eq!(parse_cida_offsets(&[255, 255, 255, 255, 4, 0, 0, 0]), None);
}

#[test]
fn hdrop_entries_and_formats() {
    let entries = vec![(0u32, vec![0u16]), (2, vec![104, 105, 0]), (1, vec![0xD800, 0])];
    assert_eq!(hdrop_paths_from_entries(&entries), Some(vec!["hi".to_string(), "\u{FFFD}".to_string()]));
    assert_eq!(hdrop_paths_from_entries(&[(0, vec![0])]), None);
    assert_eq!(shell_idlist_clipboard_format(0), None);
    assert_eq!(shell_idlist_clipboard_format(0x10000), None);
    assert_eq!(shell_idlist_clipboard_format(0xC0FE), Some(0xC0FE));
    assert!(supports_supported_drop_data(false, true, &None));
    assert!(supports_supported_drop_data(false, false, &Some(vec![])));
    assert!(!supports_supported_drop_data(false, false, &None));
}

#[test]
fn accepted_effects() {
    assert_eq!(resolve_accepted_drop_effect(1 | 2 | 4), 1);
    assert_eq!(resolve_accepted_drop_effect(2 | 4), 4);
    assert_eq!(resolve_accepted_drop_effect(2), 2);
    assert_eq!(resolve_accepted_drop_effect(0), 1);
    assert_eq!(resolve_accepted_drop_effect(0x8000_0000), 1);
}

#[test]
fn drop_target_session() {
    let position = NativeDropPosition { x: 5, y: 6 };
    let mut target = DropTargetState::new();
    // an over event before any accepted enter reports nothing
    let (effect, event) = target.drag_over(position);
    assert_eq!(effect, 0);
    assert!(event.is_none());
    // refused: no data object
    let (effect, event) = target.drag_enter(None, 7, position);
    assert_eq!((effect, event.is_none()), (0, true));
    // refused: nothing understood and no supported format
    let (effect, event) = target.drag_enter(Some(EnterData { items: None, supported: false }), 7, position);
    assert_eq!((effect, event.is_none()), (0, true));
    // accepted on a promised format: empty enter payload, link effect for link|move
    let (effect, event) = target.drag_enter(Some(EnterData { items: None, supported: true }), 2 | 4, position);
    assert_eq!(effect, 4);
    assert!(matches!(event, Some(DropEvent::Enter(ref p)) if p.paths.is_none() && p.position == position));
    let (effect, event) = target.drag_over(NativeDropPosition { x: 1, y: 1 });
    assert_eq!(effect, 4);
    assert!(matches!(event, Some(DropEvent::Over(ref p)) if p.position == NativeDropPosition { x: 1, y: 1 }));
    // the drop delivers the items read again
    let items = NativeDropItems { paths: vec!["C:\\a".to_string()], shell_items: vec![] };
    let (effect, event) = target.drop(Some(Some(items)), 2, position);
    assert_eq!(effect, 2);
    assert!(matches!(event, Some(DropEvent::Drop(ref p)) if p.paths.as_deref() == Some(&["C:\\a".to_string()][..])));
    assert_eq!(target, DropTargetState::new());
    // a drop without an accepted enter delivers nothing
    let (_, event) = target.drop(None, 1, position);
    assert!(event.is_none());
    // leave ends an accepted drag
    target.drag_enter(Some(EnterData { items: None, supported: true }), 1, position);
    assert!(matches!(target.drag_leave(), Some(DropEvent::Leave)));
    assert!(target.drag_leave().is_none());
}

#[test]
fn clipboard_effect_round_trip() {
    assert_eq!(create_drop_effect_bytes(FileClipboardOperation::Copy), vec![1, 0, 0, 0]);
    assert_eq!(create_drop_effect_bytes(FileClipboardOperation::Cut), vec![2, 0, 0, 0]);
    for op in [FileClipboardOperation::Copy, FileClipboardOperation::Cut] {
        assert_eq!(read_preferred_operation(&create_drop_effect_bytes(op)), Some(op));
    }
    assert_eq!(read_preferred_operation(&[7, 0, 0, 0]), Some(FileClipboardOperation::Cut));
    assert_eq!(read_preferred_operation(&[5, 0, 0, 0]), Some(FileClipboardOperation::Copy));
    assert_eq!(read_preferred_operation(&[2, 0, 0]), None);
}

#[test]
fn clipboard_file_lists() {
    assert!(write_file_list(&[], FileClipboardOperation::Copy).is_none());
    let paths = vec!["C:\\a".to_string()];
    let write = write_file_list(&paths, FileClipboardOperation::Cut).expect("write");
    assert_eq!(write.hdrop, file_list_bytes(&paths));
    assert_eq!(write.drop_effect, vec![2, 0, 0, 0]);
    let read = read_hdrop_paths(&[(1, 1, vec![97, 0]), (0, 0, vec![0]), (3, 0, vec![0, 0, 0, 0])]);
    assert_eq!(read, vec!["a"]);
    assert!(read_file_list(vec![], Some(FileClipboardOperation::Cut)).is_none());
    let payload = read_file_list(vec!["x".to_string()], None).expect("payload");
    assert_eq!(payload.operation, FileClipboardOperation::Copy);
    assert_eq!(payload.paths, vec!["x"]);
    assert_eq!(preferred_drop_effect_format(0).err().as_deref(), Some("无法注册文件剪贴板操作格式"));
    assert_eq!(preferred_drop_effect_format(49_171).ok(), Some(49_171));
}
