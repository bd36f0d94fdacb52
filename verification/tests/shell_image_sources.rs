use dasktop::shell_image::{
    apps_folder_parsing_name, eq_ignore_ascii_case, is_internet_shortcut_path,
    is_media_file_parsing_name, is_shortcut_path, resolve_shell_image_data_url,
    resolve_shell_image_data_url_for_parsing_name, resolve_url_shortcut_icon_candidates,
    settle_shell_image, shortcut_path_candidate, url_shortcut_icon_candidates,
};
use dasktop::shell_image::ShellImageSource::{FileIcon, IconOnly, PidlIcon, Shortcut, Thumbnail};

#[test]
fn shortcut_and_media_extensions() {
    assert!(is_shortcut_path("C:\\a\\App.LNK"));
    assert!(is_shortcut_path("game.url"));
    assert!(!is_shortcut_path("notes.txt"));
    assert!(!is_shortcut_path("lnk"));
    assert!(is_internet_shortcut_path("x.Url"));
    assert!(!is_internet_shortcut_path("x.lnk"));
    assert!(is_media_file_parsing_name("photo.JPG"));
    assert!(is_media_file_parsing_name("clip.mkv"));
    assert!(!is_media_file_parsing_name("doc.pdf"));
    assert!(!is_media_file_parsing_name("::{20D04FE0-3AEA-1069-A2D8-08002B30309D}"));
    assert!(eq_ignore_ascii_case("AbC", "aBc"));
    assert!(!eq_ignore_ascii_case("É", "é"));
}

#[test]
fn image_source_order() {
    assert_eq!(resolve_shell_image_data_url_for_parsing_name("a.exe"), vec![IconOnly, Thumbnail, FileIcon]);
    assert_eq!(resolve_shell_image_data_url_for_parsing_name("a.png"), vec![Thumbnail, FileIcon]);
    assert_eq!(
        resolve_shell_image_data_url_for_parsing_name("::{645FF040-5081-101B-9F08-00AA002F954E}"),
        vec![IconOnly, Thumbnail, PidlIcon]
    );
    assert_eq!(resolve_shell_image_data_url("a.lnk"), vec![Shortcut, IconOnly, Thumbnail, FileIcon]);
    assert_eq!(resolve_shell_image_data_url("a.mp4"), vec![Thumbnail, FileIcon]);
}

#[test]
fn first_image_wins() {
    let found = settle_shell_image(vec![Err("no".to_string()), Ok(None), Ok(Some("img".to_string())), Err("x".to_string())]);
    assert_eq!(found, Ok(Some("img".to_string())));
    let last_error = settle_shell_image(vec![Ok(None), Err("last".to_string())]);
    assert_eq!(last_error, Err("last".to_string()));
    assert_eq!(settle_shell_image(vec![Err("a".to_string()), Ok(None)]), Ok(None));
}

#[test]
fn internet_shortcut_icon_lines() {
    let text = "[InternetShortcut]\r\nURL=steam://run/1\r\nIconFile=\"C:\\Steam\\game.ico\"\r\n  IconFile=  D:\\b.ico \nIconFile=\"\"\nIconIndex=0";
    assert_eq!(url_shortcut_icon_candidates(text), vec!["C:\\Steam\\game.ico", "D:\\b.ico"]);
    assert_eq!(url_shortcut_icon_candidates(""), Vec::<String>::new());
    assert_eq!(url_shortcut_icon_candidates("IconFile=x"), vec!["x"]);
    assert_eq!(url_shortcut_icon_candidates("iconfile=x\nIconFile:y"), Vec::<String>::new());
    let bytes = b"IconFile=C:\\\xffa.ico\n";
    assert_eq!(resolve_url_shortcut_icon_candidates(bytes), vec!["C:\\\u{FFFD}a.ico"]);
}

#[test]
fn shortcut_buffers_and_apps_folder() {
    let buffer: Vec<u16> = "  C:\\App\\app.exe \0junk".encode_utf16().collect();
    assert_eq!(shortcut_path_candidate(&buffer).as_deref(), Some("C:\\App\\app.exe"));
    let blank: Vec<u16> = " \0".encode_utf16().collect();
    assert_eq!(shortcut_path_candidate(&blank), None);
    assert_eq!(shortcut_path_candidate(&[0, 65]), None);
    assert_eq!(apps_folder_parsing_name("Pkg_abcd!App"), "shell:AppsFolder\\Pkg_abcd!App");
}
