use dasktop::shortcut_icon::{
    ShortcutIconAction, ShortcutIconEvent, ShortcutIconResolver, ShortcutIconStage,
};

fn wide(s: &str, len: usize) -> Vec<u16> {
    let mut buffer: Vec<u16> = s.encode_utf16().collect();
    buffer.resize(len, 0);
    buffer
}

fn tries_existing(action: &ShortcutIconAction) -> Option<String> {
    match action {
        ShortcutIconAction::TryExistingImage(path) => Some(path.clone()),
        _ => None,
    }
}

fn finished(action: &ShortcutIconAction) -> Option<Result<Option<String>, String>> {
    match action {
        ShortcutIconAction::Finish(outcome) => Some(outcome.clone()),
        _ => None,
    }
}

#[test]
fn internet_shortcut_tries_each_icon_file_in_order() {
    let (mut resolver, action) = ShortcutIconResolver::new("C:\\Users\\me\\Desktop\\Game.URL");
    assert!(matches!(action, ShortcutIconAction::ReadFile));
    assert!(matches!(resolver.stage, ShortcutIconStage::ReadingInternetShortcut));

    let content = b"[InternetShortcut]\r\nURL=steam://rungameid/1\r\n  IconFile= \"C:\\a.ico\" \r\nIconFile=\r\nIconFile=C:\\b.ico\r\n".to_vec();
    let action = resolver.advance(ShortcutIconEvent::FileRead(Ok(content)));
    assert_eq!(tries_existing(&action).as_deref(), Some("C:\\a.ico"));

    let action = resolver.advance(ShortcutIconEvent::Image(Err("no image".to_string())));
    assert_eq!(tries_existing(&action).as_deref(), Some("C:\\b.ico"));

    let action = resolver.advance(ShortcutIconEvent::Image(Ok(None)));
    assert_eq!(finished(&action), Some(Ok(None)));
    assert!(matches!(resolver.stage, ShortcutIconStage::Finished));
}

#[test]
fn internet_shortcut_stops_at_first_image() {
    let (mut resolver, _) = ShortcutIconResolver::new("x.url");
    let content = b"IconFile=C:\\a.ico\nIconFile=C:\\b.ico\n".to_vec();
    let action = resolver.advance(ShortcutIconEvent::FileRead(Ok(content)));
    assert_eq!(tries_existing(&action).as_deref(), Some("C:\\a.ico"));
    let action = resolver.advance(ShortcutIconEvent::Image(Ok(Some("data:image/png;base64,AA".to_string()))));
    assert_eq!(
        finished(&action),
        Some(Ok(Some("data:image/png;base64,AA".to_string())))
    );
}

#[test]
fn internet_shortcut_without_icon_file_has_no_image() {
    let (mut resolver, _) = ShortcutIconResolver::new("x.url");
    let action = resolver.advance(ShortcutIconEvent::FileRead(Ok(b"[InternetShortcut]\nURL=https://example.com\n".to_vec())));
    assert_eq!(finished(&action), Some(Ok(None)));
}

#[test]
fn unreadable_shortcut_reports_the_error() {
    let (mut resolver, _) = ShortcutIconResolver::new("x.url");
    let action = resolver.advance(ShortcutIconEvent::FileRead(Err("denied".to_string())));
    assert_eq!(finished(&action), Some(Err("denied".to_string())));

    let (mut resolver, _) = ShortcutIconResolver::new("x.lnk");
    assert!(matches!(resolver.stage, ShortcutIconStage::ReadingLinkFile));
    let action = resolver.advance(ShortcutIconEvent::FileRead(Err("denied".to_string())));
    assert_eq!(finished(&action), Some(Err("denied".to_string())));
}

#[test]
fn store_shortcut_tries_apps_folder_then_falls_back_to_link() {
    let (mut resolver, _) = ShortcutIconResolver::new("C:\\Desktop\\Codex.lnk");
    let app_user_model_id = "OpenAI.Codex_2p2nqsd0c76g0!App";
    let bytes = format!("prefix\0{app_user_model_id}\0suffix").into_bytes();
    let action = resolver.advance(ShortcutIconEvent::FileRead(Ok(bytes)));
    match &action {
        ShortcutIconAction::TryIconOnlyImage(name) => {
            assert_eq!(name, "shell:AppsFolder\\OpenAI.Codex_2p2nqsd0c76g0!App")
        }
        _ => panic!("expected the icon-only AppsFolder image"),
    }
    let action = resolver.advance(ShortcutIconEvent::Image(Ok(None)));
    match &action {
        ShortcutIconAction::TryImage(name) => {
            assert_eq!(name, "shell:AppsFolder\\OpenAI.Codex_2p2nqsd0c76g0!App")
        }
        _ => panic!("expected the AppsFolder image"),
    }
    let action = resolver.advance(ShortcutIconEvent::Image(Err("failed".to_string())));
    assert!(matches!(action, ShortcutIconAction::LoadLink));
}

#[test]
fn store_shortcut_icon_only_image_wins() {
    let (mut resolver, _) = ShortcutIconResolver::new("C:\\Desktop\\Codex.lnk");
    let bytes = b"prefix\0OpenAI.Codex_2p2nqsd0c76g0!App\0suffix".to_vec();
    resolver.advance(ShortcutIconEvent::FileRead(Ok(bytes)));
    let action = resolver.advance(ShortcutIconEvent::Image(Ok(Some("icon".to_string()))));
    assert_eq!(finished(&action), Some(Ok(Some("icon".to_string()))));
}

#[test]
fn plain_shortcut_walks_icon_location_target_and_id_list() {
    let (mut resolver, _) = ShortcutIconResolver::new("C:\\Desktop\\Tool.lnk");
    let action = resolver.advance(ShortcutIconEvent::FileRead(Ok(b"no id here".to_vec())));
    assert!(matches!(action, ShortcutIconAction::LoadLink));

    let action = resolver.advance(ShortcutIconEvent::LinkLoaded(Ok(())));
    assert!(matches!(action, ShortcutIconAction::ReadIconLocation));

    let action = resolver.advance(ShortcutIconEvent::LinkBuffer(Some(wide("  C:\\Tools\\tool.ico  ", 260))));
    assert_eq!(tries_existing(&action).as_deref(), Some("C:\\Tools\\tool.ico"));

    let action = resolver.advance(ShortcutIconEvent::Image(Ok(None)));
    assert!(matches!(action, ShortcutIconAction::ReadTargetPath));

    let action = resolver.advance(ShortcutIconEvent::LinkBuffer(Some(wide("   ", 260))));
    assert!(matches!(action, ShortcutIconAction::ReadIdList));

    let action = resolver.advance(ShortcutIconEvent::IdList(Ok(false)));
    assert!(matches!(action, ShortcutIconAction::TryIdListIcon));

    let action = resolver.advance(ShortcutIconEvent::Image(Err("no icon".to_string())));
    assert_eq!(finished(&action), Some(Err("no icon".to_string())));
}

#[test]
fn plain_shortcut_target_image_wins() {
    let (mut resolver, _) = ShortcutIconResolver::new("Tool.lnk");
    resolver.advance(ShortcutIconEvent::FileRead(Ok(Vec::new())));
    resolver.advance(ShortcutIconEvent::LinkLoaded(Ok(())));
    let action = resolver.advance(ShortcutIconEvent::LinkBuffer(None));
    assert!(matches!(action, ShortcutIconAction::ReadTargetPath));
    let action = resolver.advance(ShortcutIconEvent::LinkBuffer(Some(wide("C:\\Tools\\tool.exe", 260))));
    assert_eq!(tries_existing(&action).as_deref(), Some("C:\\Tools\\tool.exe"));
    let action = resolver.advance(ShortcutIconEvent::Image(Ok(Some("exe icon".to_string()))));
    assert_eq!(finished(&action), Some(Ok(Some("exe icon".to_string()))));
}

#[test]
fn shortcut_link_failures_end_the_search() {
    let (mut resolver, _) = ShortcutIconResolver::new("Tool.lnk");
    resolver.advance(ShortcutIconEvent::FileRead(Ok(Vec::new())));
    let action = resolver.advance(ShortcutIconEvent::LinkLoaded(Err("class not registered".to_string())));
    assert_eq!(finished(&action), Some(Err("class not registered".to_string())));

    let (mut resolver, _) = ShortcutIconResolver::new("Tool.lnk");
    resolver.advance(ShortcutIconEvent::FileRead(Ok(Vec::new())));
    resolver.advance(ShortcutIconEvent::LinkLoaded(Ok(())));
    resolver.advance(ShortcutIconEvent::LinkBuffer(None));
    resolver.advance(ShortcutIconEvent::LinkBuffer(None));
    let action = resolver.advance(ShortcutIconEvent::IdList(Ok(true)));
    assert_eq!(finished(&action), Some(Ok(None)));

    let (mut resolver, _) = ShortcutIconResolver::new("Tool.lnk");
    resolver.advance(ShortcutIconEvent::FileRead(Ok(Vec::new())));
    resolver.advance(ShortcutIconEvent::LinkLoaded(Ok(())));
    resolver.advance(ShortcutIconEvent::LinkBuffer(None));
    resolver.advance(ShortcutIconEvent::LinkBuffer(None));
    let action = resolver.advance(ShortcutIconEvent::IdList(Err("no list".to_string())));
    assert_eq!(finished(&action), Some(Err("no list".to_string())));
}
