use mitsuzo::page::{
    check_content, data_url, generate_password, parse_u32, password_from_fragment, preview_kind, share_link,
    ttl_setting,
    FormError, PreviewKind,
};
use mitsuzo::types::{DataType, MAX_PASTE_SIZE};

#[test]
fn fragment_passwords() {
    assert_eq!(password_from_fragment(Some("#s3cret")), Some("s3cret".to_string()));
    assert_eq!(password_from_fragment(Some("#")), None);
    assert_eq!(password_from_fragment(Some("s3cret")), None);
    assert_eq!(password_from_fragment(Some("")), None);
    assert_eq!(password_from_fragment(None), None);
    assert_eq!(password_from_fragment(Some("##x")), Some("#x".to_string()));
}

#[test]
fn preview_kinds() {
    assert_eq!(preview_kind(DataType::Text, Some("image/png")), PreviewKind::Text);
    assert_eq!(preview_kind(DataType::File, Some("image/png")), PreviewKind::Image);
    assert_eq!(preview_kind(DataType::File, Some("video/mp4")), PreviewKind::Video);
    assert_eq!(preview_kind(DataType::File, Some("audio/ogg")), PreviewKind::Audio);
    assert_eq!(preview_kind(DataType::File, Some("application/pdf")), PreviewKind::Pdf);
    assert_eq!(preview_kind(DataType::File, Some("text/plain")), PreviewKind::Text);
    assert_eq!(preview_kind(DataType::File, Some("application/json")), PreviewKind::Text);
    assert_eq!(preview_kind(DataType::File, Some("application/zip")), PreviewKind::Download);
    assert_eq!(preview_kind(DataType::File, None), PreviewKind::Download);
}

#[test]
fn preview_data_urls() {
    assert_eq!(data_url("image/png", &[1, 2, 3]), "data:image/png;base64,AQID");
    assert_eq!(data_url("audio/ogg", &[]), "data:audio/ogg;base64,");
    assert_eq!(data_url("text/plain", b"ab"), "data:text/plain;base64,YWI=");
}

#[test]
fn form_numbers() {
    assert_eq!(parse_u32("42"), Some(42));
    assert_eq!(parse_u32("+7"), Some(7));
    assert_eq!(parse_u32("007"), Some(7));
    assert_eq!(parse_u32("4294967295"), Some(u32::MAX));
    assert_eq!(parse_u32("4294967296"), None);
    assert_eq!(parse_u32(""), None);
    assert_eq!(parse_u32("+"), None);
    assert_eq!(parse_u32("-1"), None);
    assert_eq!(parse_u32(" 1"), None);
}

#[test]
fn form_time_to_live() {
    assert_eq!(ttl_setting("60"), Some(60));
    assert_eq!(ttl_setting("43200"), Some(43200));
    assert_eq!(ttl_setting("100000"), Some(43200));
    assert_eq!(ttl_setting("0"), Some(0));
    assert_eq!(ttl_setting("1h"), None);
}

#[test]
fn form_content_checks() {
    assert_eq!(check_content(Some(10), 0), Ok((10, DataType::File)));
    assert_eq!(check_content(Some(0), 3), Ok((0, DataType::File)));
    assert_eq!(check_content(Some(MAX_PASTE_SIZE as u64), 0), Ok((MAX_PASTE_SIZE as u64, DataType::File)));
    assert_eq!(check_content(Some(MAX_PASTE_SIZE as u64 + 1), 0), Err(FormError::TooLarge));
    assert_eq!(check_content(None, 0), Err(FormError::ContentEmpty));
    assert_eq!(check_content(None, 5), Ok((5, DataType::Text)));
}

#[test]
fn generated_passwords_are_url_safe() {
    let a = generate_password();
    let b = generate_password();
    assert_eq!(a.len(), 22);
    assert!(a.chars().all(|c| c.is_ascii_alphanumeric() || c == '-' || c == '_'));
    assert_ne!(a, b);
}

#[test]
fn share_links() {
    assert_eq!(share_link("https://m.example", "123456", Some("abc-_")), "https://m.example/paste/123456#abc-_");
    assert_eq!(share_link("https://m.example", "123456", None), "https://m.example/paste/123456");
}

#[test]
fn changelog_lists_releases_newest_first() {
    let log = mitsuzo::changelog::get_changelog();
    let versions: Vec<&str> = log.iter().map(|c| c.version).collect();
    assert_eq!(
        versions,
        vec!["v0.5.0", "v0.4.0", "v0.3.8", "v0.3.7", "v0.3.6", "v0.3.0", "v0.2.0", "v0.1.2", "v0.1.1"]
    );
    assert_eq!(log[6].date, "2025-06");
    assert!(log[6].items_en.contains(&"Auto-generated random password when password field is left empty"));
    for c in &log {
        assert_eq!(c.items_en.len(), c.items_fa.len());
    }
}

#[test]
fn retry_delays() {
    assert_eq!(mitsuzo::cli::retry_delay(0), Some(1));
    assert_eq!(mitsuzo::cli::retry_delay(1), Some(2));
    assert_eq!(mitsuzo::cli::retry_delay(2), None);
    assert_eq!(mitsuzo::cli::MAX_TRIES, 3);
}
