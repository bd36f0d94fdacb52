use dasktop::shell_identity::{normalize_shell_identity, shell_identities_match};
use dasktop::shell_virtual_item::{
    create_shell_desktop_item, known_shell_virtual_items, list_shell_virtual_desktop_items,
    open_shell_virtual_item, resolve_desktop_icon_item, resolve_known_shell_virtual_item,
    resolve_shell_id_from_parsing_name, resolve_shell_parsing_name, strip_shell_item_path,
    ShellVirtualItem, ShellVirtualItemCache,
};

const THIS_PC: &str = "::{20D04FE0-3AEA-1069-A2D8-08002B30309D}";

fn text(chars: Vec<char>) -> String {
    chars.into_iter().collect()
}

#[test]
fn normalizes_identities() {
    assert_eq!(text(normalize_shell_identity("  C:/Users/Me\\\\ \t")), "c:\\users\\me");
    assert_eq!(text(normalize_shell_identity("\u{3000}ABC\u{3000}")), "abc");
    assert_eq!(text(normalize_shell_identity("\\\\")), "");
}

#[test]
fn matches_absolute_parsing_names_by_suffix() {
    let actual: Vec<char> = "::{desktop}\\::{20d04fe0-3aea-1069-a2d8-08002b30309d}".chars().collect();
    assert!(shell_identities_match(&actual, THIS_PC));
    let exact: Vec<char> = "::{20d04fe0-3aea-1069-a2d8-08002b30309d}".chars().collect();
    assert!(shell_identities_match(&exact, THIS_PC));
    let glued: Vec<char> = "x::{20d04fe0-3aea-1069-a2d8-08002b30309d}".chars().collect();
    assert!(!shell_identities_match(&glued, THIS_PC));
}

#[test]
fn resolves_catalog_items() {
    assert_eq!(known_shell_virtual_items().len(), 5);
    assert_eq!(resolve_known_shell_virtual_item("recycle-bin"), Some(ShellVirtualItem::RecycleBin));
    assert_eq!(resolve_known_shell_virtual_item("trash"), None);
    let item = resolve_desktop_icon_item("control-panel").expect("item");
    assert_eq!(item.desktop_icon_clsid(), Some("{5399E694-6CE5-4D6C-8FCE-1D8870FDCBA0}"));
    assert!(!item.default_visible());
    assert!(ShellVirtualItem::RecycleBin.default_visible());
}

#[test]
fn recognises_parsing_names_and_paths() {
    assert_eq!(resolve_shell_id_from_parsing_name(THIS_PC, None), Some("this-pc"));
    assert_eq!(
        resolve_shell_id_from_parsing_name(" ::{26EE0668-A00A-44D7-9371-BEB064C98683}\\", None),
        Some("control-panel")
    );
    assert_eq!(
        resolve_shell_id_from_parsing_name("::{59031A47-3F72-44A7-89C5-5595FE6B30EE}", None),
        Some("user-folder")
    );
    let profile = Some("C:\\Users\\Me".to_string());
    assert_eq!(resolve_shell_id_from_parsing_name("C:/USERS/me\\", profile.clone()), Some("user-folder"));
    // a trailing forward slash is trimmed only after it became a backslash, so it stays
    assert_eq!(resolve_shell_id_from_parsing_name("c:/users/me/", profile.clone()), None);
    assert_eq!(resolve_shell_id_from_parsing_name("C:\\Users\\Me\\file.txt", profile), None);
    assert_eq!(resolve_shell_id_from_parsing_name("C:\\Users\\Me", None), None);
}

#[test]
fn parsing_names_for_opening() {
    assert_eq!(resolve_shell_parsing_name("network", None).as_deref(), Some("::{F02C1A0D-BE21-4350-88B0-7367FC96EF3C}"));
    assert_eq!(resolve_shell_parsing_name("user-folder", None), None);
    assert_eq!(
        resolve_shell_parsing_name("user-folder", Some("C:\\Users\\Me".to_string())).as_deref(),
        Some("C:\\Users\\Me")
    );
    assert!(open_shell_virtual_item("nothing", None).is_err());
    let request = open_shell_virtual_item("this-pc", None).ok().expect("request");
    let mut expected: Vec<u16> = THIS_PC.encode_utf16().collect();
    expected.push(0);
    assert_eq!(request.target, expected);
}

#[test]
fn strips_path_keys() {
    assert_eq!(strip_shell_item_path("shell::this-pc"), Some("this-pc"));
    assert_eq!(strip_shell_item_path("C:\\shell::x"), None);
    assert_eq!(strip_shell_item_path("shell::"), Some(""));
}

#[test]
fn builds_desktop_items() {
    let item = create_shell_desktop_item("recycle-bin", None, Some("icon".to_string())).expect("item");
    assert_eq!(item.id, "shell_recycle-bin");
    assert_eq!(item.path, "shell::recycle-bin");
    assert_eq!(item.name, "回收站");
    assert_eq!(item.shell_id.as_deref(), Some("recycle-bin"));
    assert_eq!(item.icon_data_url.as_deref(), Some("icon"));
    assert!(item.extension.is_none());
    assert!(create_shell_desktop_item("user-folder", None, None).is_none());
    assert!(create_shell_desktop_item("unknown", None, None).is_none());
}

#[test]
fn cache_keeps_the_first_item() {
    let mut cache = ShellVirtualItemCache::new();
    assert!(cache.cached("network").is_none());
    let first = cache
        .resolve_cached_shell_desktop_item("network", None, Some("one".to_string()))
        .expect("item");
    assert_eq!(first.icon_data_url.as_deref(), Some("one"));
    let again = cache
        .resolve_cached_shell_desktop_item("network", None, Some("two".to_string()))
        .expect("item");
    assert_eq!(again.icon_data_url.as_deref(), Some("one"));
    assert_eq!(cache.cached("network").expect("cached").icon_data_url.as_deref(), Some("one"));
    assert!(cache.resolve_cached_shell_desktop_item("unknown", None, None).is_none());
    assert!(cache.cached("unknown").is_none());
}

#[test]
fn lists_known_items_in_order() {
    let mut cache = ShellVirtualItemCache::new();
    let ids = vec![
        "network".to_string(),
        "unknown".to_string(),
        "this-pc".to_string(),
        "network".to_string(),
    ];
    let icons = vec![Some("n".to_string()), None, None, Some("other".to_string())];
    let items = list_shell_virtual_desktop_items(&mut cache, &ids, None, &icons);
    let paths: Vec<&str> = items.iter().map(|item| item.path.as_str()).collect();
    assert_eq!(paths, vec!["shell::network", "shell::this-pc", "shell::network"]);
    assert_eq!(items[2].icon_data_url.as_deref(), Some("n"));
}
