use dasktop::app_user_model_id::{
    extract_app_user_model_id_from_ascii, extract_app_user_model_id_from_bytes,
    extract_app_user_model_id_from_utf16le, looks_like_app_user_model_id_chars,
    scan_app_user_model_id_units,
};

fn chars(s: &str) -> Vec<char> {
    s.chars().collect()
}

#[test]
fn extracts_app_user_model_id_from_shortcut_bytes() {
    let app_user_model_id = "OpenAI.Codex_2p2nqsd0c76g0!App";
    let mut utf16_bytes = b"prefix".to_vec();
    for unit in app_user_model_id.encode_utf16() {
        utf16_bytes.extend_from_slice(&unit.to_le_bytes());
    }
    utf16_bytes.extend_from_slice(b"\0suffix");

    assert_eq!(
        extract_app_user_model_id_from_bytes(&utf16_bytes).as_deref(),
        Some(app_user_model_id)
    );

    let ascii_bytes = format!("prefix\0{app_user_model_id}\0suffix").into_bytes();
    assert_eq!(
        extract_app_user_model_id_from_bytes(&ascii_bytes).as_deref(),
        Some(app_user_model_id)
    );
}

#[test]
fn ignores_non_app_user_model_id_text() {
    assert_eq!(extract_app_user_model_id_from_bytes(b"Codex!Shortcut"), None);
}

#[test]
fn shape_checks_on_candidates() {
    assert!(looks_like_app_user_model_id_chars(&chars("Pkg_abcd!App")));
    assert!(!looks_like_app_user_model_id_chars(&chars("Pkg_abc!App")));
    assert!(!looks_like_app_user_model_id_chars(&chars("_abcd!App")));
    assert!(!looks_like_app_user_model_id_chars(&chars("Pkg_abcd!")));
    assert!(!looks_like_app_user_model_id_chars(&chars("!App")));
    assert!(!looks_like_app_user_model_id_chars(&chars("Pkgabcd!App")));
    assert!(!looks_like_app_user_model_id_chars(&chars("Pkg_ab\\cd!App")));
    // the family name is split at its last underscore, before the first '!'
    assert!(looks_like_app_user_model_id_chars(&chars("A_B_wxyz!App!Extra")));
    assert!(!looks_like_app_user_model_id_chars(&chars("A_wxyz_B!App")));
}

#[test]
fn scan_returns_first_matching_piece() {
    let units: Vec<u32> = "xx A_bcde!One zz B_fghi!Two"
        .chars()
        .map(|c| c as u32)
        .collect();
    assert_eq!(
        scan_app_user_model_id_units(&units).as_deref(),
        Some("A_bcde!One")
    );
    let empty: Vec<u32> = Vec::new();
    assert_eq!(scan_app_user_model_id_units(&empty), None);
    // a surrogate unit ends a piece like any other non-identifier unit
    let mut with_surrogate: Vec<u32> = "A_bcde!One".chars().map(|c| c as u32).collect();
    with_surrogate.push(0xD800);
    assert_eq!(
        scan_app_user_model_id_units(&with_surrogate).as_deref(),
        Some("A_bcde!One")
    );
}

#[test]
fn utf16le_reading_at_odd_offset() {
    let mut bytes = vec![0x41u8];
    for unit in "Pkg_abcd!App".encode_utf16() {
        bytes.extend_from_slice(&unit.to_le_bytes());
    }
    assert_eq!(
        extract_app_user_model_id_from_utf16le(&bytes).as_deref(),
        Some("Pkg_abcd!App")
    );
    assert_eq!(extract_app_user_model_id_from_utf16le(&[]), None);
    assert_eq!(
        extract_app_user_model_id_from_ascii(b"  Pkg_abcd!App  ").as_deref(),
        Some("Pkg_abcd!App")
    );
    // '-' belongs to identifiers, so surrounding dashes stay part of the id
    assert_eq!(
        extract_app_user_model_id_from_ascii(b"--Pkg_abcd!App--").as_deref(),
        Some("--Pkg_abcd!App--")
    );
}
