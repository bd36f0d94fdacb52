use dasktop::hdrop::{
    append_wide_nul, append_wide_path, create_dropfiles_header_bytes, file_list_bytes,
    read_hdrop_path,
};
use dasktop::wide::{
    decode_utf16_lossy, double_null_path_list, double_null_paths, double_null_single_path,
    encode_utf16, from_null_terminated_u16, null_terminated, path_null_terminated,
};

#[test]
fn encodes_utf16_like_std() {
    for text in ["", "abc", "桌面", "a😀b", "C:\\Users\\x"] {
        let expected: Vec<u16> = text.encode_utf16().collect();
        assert_eq!(encode_utf16(text), expected);
        let mut terminated = expected.clone();
        terminated.push(0);
        assert_eq!(null_terminated(text), terminated);
        assert_eq!(path_null_terminated(text), terminated);
    }
    assert_eq!(encode_utf16("😀"), vec![0xD83D, 0xDE00]);
}

#[test]
fn double_null_lists() {
    assert_eq!(double_null_single_path("ab"), vec![97, 98, 0, 0]);
    let paths = vec!["a".to_string(), "bc".to_string()];
    assert_eq!(double_null_path_list(&paths), vec![97, 0, 98, 99, 0, 0]);
    assert_eq!(double_null_paths(&paths), vec![97, 0, 98, 99, 0, 0]);
    assert_eq!(double_null_path_list(&[]), vec![0]);
}

#[test]
fn decodes_lossily_up_to_the_first_nul() {
    assert_eq!(from_null_terminated_u16(&[104, 105, 0, 120]), "hi");
    assert_eq!(from_null_terminated_u16(&[104, 105]), "hi");
    assert_eq!(from_null_terminated_u16(&[0xD83D, 0xDE00, 0]), "😀");
    // unpaired surrogates become U+FFFD
    assert_eq!(from_null_terminated_u16(&[0xD800, 97, 0xDC00]), "\u{FFFD}a\u{FFFD}");
    assert_eq!(
        decode_utf16_lossy(&[0xDBFF, 0xDFFF, 0xDC00, 0xD800]),
        vec!['\u{10FFFF}', '\u{FFFD}', '\u{FFFD}']
    );
}

#[test]
fn round_trip_of_null_terminated_strings() {
    for text in ["", "plain", "C:\\桌面\\😀.txt"] {
        assert_eq!(from_null_terminated_u16(&null_terminated(text)), text);
    }
}

#[test]
fn dropfiles_header_layout() {
    assert_eq!(
        create_dropfiles_header_bytes(),
        vec![20, 0, 0, 0, 0, 0, 0, 0, 0, 0, 0, 0, 0, 0, 0, 0, 1, 0, 0, 0]
    );
}

#[test]
fn file_list_bytes_are_header_then_wide_paths() {
    let paths = vec!["a".to_string(), "桌".to_string()];
    let mut expected = create_dropfiles_header_bytes();
    expected.extend([97, 0, 0, 0]);
    expected.extend([0x4C, 0x68, 0, 0]);
    expected.extend([0, 0]);
    assert_eq!(file_list_bytes(&paths), expected);
    let mut bytes = vec![9];
    append_wide_path(&mut bytes, "Z");
    append_wide_nul(&mut bytes);
    assert_eq!(bytes, vec![9, 90, 0, 0, 0, 0, 0]);
}

#[test]
fn reads_one_hdrop_entry() {
    let buffer = [97, 98, 99, 0];
    assert_eq!(read_hdrop_path(3, 2, &buffer), Some("ab".to_string()));
    assert_eq!(read_hdrop_path(0, 2, &buffer), None);
    assert_eq!(read_hdrop_path(3, 0, &buffer), None);
}
