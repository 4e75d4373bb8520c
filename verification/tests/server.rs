use mitsuzo::api::{
    after_taken_id, check_burn, check_password, check_upload, constant_time_eq, frame_header, paste_header,
    random_paste_id, remaining_ttl, salt_response, validate_id, validate_new_paste, ApiStatus, PasswordCheck,
    MIN_PASTE_ID, PASTE_ID_END,
};
use mitsuzo::http::{client_ip, content_range, etag, not_modified, parse_range, resolve_range};
use mitsuzo::ids::{is_previewable, is_valid_id, sanitize_id};
use mitsuzo::store::PasteMeta;
use mitsuzo::types::{DataType, UPLOAD_CHUNK_SIZE};

fn meta(try_count: u32, expiration_timestamp: u64, total_chunks: u32) -> PasteMeta {
    PasteMeta {
        try_count,
        expiration_timestamp,
        data_type: DataType::File,
        filename: Some("notes.txt".to_string()),
        content_type: Some("text/plain".to_string()),
        total_chunks,
        allow_download: true,
    }
}

#[test]
fn status_codes() {
    assert_eq!(ApiStatus::BadRequest.code(), 400);
    assert_eq!(ApiStatus::Unauthorized.code(), 401);
    assert_eq!(ApiStatus::NotFound.code(), 404);
    assert_eq!(ApiStatus::Gone.code(), 410);
    assert_eq!(ApiStatus::PayloadTooLarge.code(), 413);
    assert_eq!(ApiStatus::TooManyRequests.code(), 429);
    assert_eq!(ApiStatus::InternalServerError.code(), 500);
    assert_eq!(ApiStatus::ServiceUnavailable.code(), 503);
}

#[test]
fn ids_are_ascii_digits() {
    assert!(is_valid_id("123456"));
    assert!(is_valid_id(""));
    assert!(!is_valid_id("12a"));
    assert!(!is_valid_id("١٢٣"));
    assert_eq!(validate_id("042"), Ok(()));
    assert_eq!(validate_id("../etc"), Err(ApiStatus::NotFound));
}

#[test]
fn sanitize_id_strips_direction_marks() {
    assert_eq!(sanitize_id("\u{202E}123\u{2066}456\u{200F}"), "123456");
    assert_eq!(sanitize_id("plain"), "plain");
    assert_eq!(sanitize_id("a\u{2069}\u{202A}b"), "ab");
}

#[test]
fn previewable_content_types() {
    assert!(is_previewable(Some("image/png")));
    assert!(is_previewable(Some("text/plain")));
    assert!(is_previewable(Some("application/json")));
    assert!(is_previewable(Some("video/mp4")));
    assert!(is_previewable(Some("audio/ogg")));
    assert!(is_previewable(Some("application/pdf")));
    assert!(!is_previewable(Some("application/json; charset=utf-8")));
    assert!(!is_previewable(Some("application/zip")));
    assert!(!is_previewable(None));
}

#[test]
fn constant_time_eq_compares_contents() {
    assert!(constant_time_eq(b"abc", b"abc"));
    assert!(!constant_time_eq(b"abc", b"abd"));
    assert!(!constant_time_eq(b"abc", b"ab"));
    assert!(constant_time_eq(b"", b""));
}

#[test]
fn password_check_outcomes() {
    let stored = [1u8, 2, 3, 4];
    assert_eq!(check_password(None, Some("AQIDBA==")), PasswordCheck::Missing);
    assert_eq!(check_password(Some(&stored), Some("AQIDBA==")), PasswordCheck::Accepted);
    assert_eq!(check_password(Some(&stored), Some("AQIDBQ==")), PasswordCheck::Rejected);
    assert_eq!(check_password(Some(&stored), Some("not base64!")), PasswordCheck::Rejected);
    assert_eq!(check_password(Some(&stored), None), PasswordCheck::Rejected);
    assert_eq!(PasswordCheck::Missing.refusal(), Some(ApiStatus::NotFound));
    assert_eq!(PasswordCheck::Rejected.refusal(), Some(ApiStatus::Unauthorized));
    assert_eq!(PasswordCheck::Accepted.refusal(), None);
}

#[test]
fn new_paste_settings() {
    assert_eq!(validate_new_paste(1, Some(60), Some(5)), Ok(()));
    assert_eq!(validate_new_paste(0, Some(60), Some(5)), Err(ApiStatus::BadRequest));
    assert_eq!(validate_new_paste(1, Some(0), Some(5)), Err(ApiStatus::BadRequest));
    assert_eq!(validate_new_paste(1, None, Some(5)), Err(ApiStatus::BadRequest));
    assert_eq!(validate_new_paste(1, Some(60), Some(0)), Err(ApiStatus::BadRequest));
    assert_eq!(validate_new_paste(1, Some(60), Some(101)), Err(ApiStatus::BadRequest));
    assert_eq!(validate_new_paste(1, Some(60), Some(100)), Ok(()));
    assert_eq!(validate_new_paste(1, Some(60), None), Err(ApiStatus::BadRequest));
}

#[test]
fn paste_ids_have_six_digits() {
    for _ in 0..100 {
        let id = random_paste_id();
        assert!((MIN_PASTE_ID..PASTE_ID_END).contains(&id));
        assert_eq!(id.to_string().len(), 6);
    }
}

#[test]
fn id_draws_give_up_after_a_hundred() {
    assert_eq!(after_taken_id(0), Ok(1));
    assert_eq!(after_taken_id(98), Ok(99));
    assert_eq!(after_taken_id(99), Err(ApiStatus::ServiceUnavailable));
    assert_eq!(after_taken_id(u32::MAX), Err(ApiStatus::ServiceUnavailable));
}

#[test]
fn upload_checks() {
    assert_eq!(check_upload("12", 10, true), Ok(()));
    assert_eq!(check_upload("x1", 10, true), Err(ApiStatus::NotFound));
    assert_eq!(check_upload("12", UPLOAD_CHUNK_SIZE + 1, true), Err(ApiStatus::PayloadTooLarge));
    assert_eq!(check_upload("12", UPLOAD_CHUNK_SIZE, false), Err(ApiStatus::NotFound));
}

#[test]
fn remaining_time_to_live() {
    assert_eq!(remaining_ttl(0, 100), 0);
    assert_eq!(remaining_ttl(150, 100), 50);
    assert_eq!(remaining_ttl(100, 100), 0);
    assert_eq!(remaining_ttl(90, 100), 0);
}

#[test]
fn salt_response_from_store() {
    let r = salt_response(vec![9; 16], meta(3, 1_000, 1), 400, 40, Some(vec![5; 12])).unwrap();
    assert_eq!(r.salt, vec![9; 16]);
    assert_eq!(r.try_count, 3);
    assert_eq!(r.ttl, 600);
    assert_eq!(r.total_chunks, 1);
    assert_eq!(r.total_size, 24);
    assert_eq!(r.nonce, [5; 12]);
    assert_eq!(r.data_type, DataType::File);
    assert_eq!(r.filename.as_deref(), Some("notes.txt"));
    assert_eq!(r.content_type.as_deref(), Some("text/plain"));
    assert!(r.allow_download);
}

#[test]
fn salt_response_refusals() {
    assert_eq!(
        salt_response(vec![], meta(0, 0, 1), 0, 40, Some(vec![0; 12])),
        Err(ApiStatus::NotFound)
    );
    assert_eq!(salt_response(vec![], meta(1, 0, 1), 0, 40, None), Err(ApiStatus::NotFound));
    assert_eq!(
        salt_response(vec![], meta(1, 0, 1), 0, 40, Some(vec![0; 11])),
        Err(ApiStatus::InternalServerError)
    );
    let odd = salt_response(vec![], meta(1, 0, 2), 0, 10, Some(vec![0; 12])).unwrap();
    assert_eq!(odd.total_size, 0);
}

#[test]
fn paste_header_from_store() {
    let h = paste_header("123456".to_string(), meta(2, 0, 2), 65552 + 20, vec![1; 12]).unwrap();
    assert_eq!(h.id, "123456");
    assert_eq!(h.nonce, [1; 12]);
    assert_eq!(h.total_size, 65536 + 4);
    assert_eq!(h.total_chunks, 2);
    assert_eq!(
        paste_header("1".to_string(), meta(2, 0, 1), 20, vec![1; 13]),
        Err(ApiStatus::InternalServerError)
    );
}

#[test]
fn header_frame_has_little_endian_length() {
    assert_eq!(frame_header(&[7, 8, 9]), vec![3, 0, 0, 0, 7, 8, 9]);
    let big = vec![0u8; 0x1_0203];
    let f = frame_header(&big);
    assert_eq!(&f[..4], &[0x03, 0x02, 0x01, 0x00]);
    assert_eq!(f.len(), 4 + big.len());
}

#[test]
fn burn_decisions() {
    let receipt = [4u8; 32];
    assert_eq!(check_burn(None, &receipt), Err(ApiStatus::NotFound));
    assert_eq!(check_burn(Some(&receipt), &[5u8; 32]), Err(ApiStatus::Unauthorized));
    assert_eq!(check_burn(Some(&receipt), &receipt[..31]), Err(ApiStatus::Unauthorized));
    assert_eq!(check_burn(Some(&receipt), &receipt), Ok(()));
}

#[test]
fn client_ip_from_forwarded_for() {
    assert_eq!(client_ip(Some("1.2.3.4, 5.6.7.8")), "1.2.3.4");
    assert_eq!(client_ip(Some("  9.9.9.9 ")), "9.9.9.9");
    assert_eq!(client_ip(Some("")), "");
    assert_eq!(client_ip(Some(" ,x")), "");
    assert_eq!(client_ip(None), "unknown");
    assert_eq!(client_ip(Some("\u{3000}10.0.0.1\u{85}\t, x")), "10.0.0.1");
}

#[test]
fn range_header_parsing() {
    assert_eq!(parse_range("bytes=0-99"), Some((0, 99)));
    assert_eq!(parse_range("bytes=5-"), Some((5, u64::MAX)));
    assert_eq!(parse_range("bytes=+1-+2"), Some((1, 2)));
    assert_eq!(parse_range("bytes=-5"), None);
    assert_eq!(parse_range("bytes=5"), None);
    assert_eq!(parse_range("items=0-1"), None);
    assert_eq!(parse_range("bytes=1-2-3"), None);
    assert_eq!(parse_range("bytes=18446744073709551616-1"), None);
    assert_eq!(parse_range("bytes= 1-2"), None);
}

#[test]
fn served_ranges() {
    assert_eq!(resolve_range(0, u64::MAX, 100), (0, 99, 100));
    assert_eq!(resolve_range(10, 19, 100), (10, 19, 10));
    assert_eq!(content_range(10, 19, 100), "bytes 10-19/100");
}

#[test]
fn etag_is_quoted_sha256_hex() {
    assert_eq!(etag("hello"), "\"2cf24dba5fb0a30e26e83b2ac5b9e29e1b161e5c1fa7425e73043362938b9824\"");
    assert_eq!(etag("").len(), 66);
}

#[test]
fn not_modified_needs_matching_tag() {
    let tag = etag("<html></html>");
    assert!(not_modified(Some(tag.as_bytes()), &tag));
    assert!(!not_modified(Some(b"\"other\""), &tag));
    assert!(!not_modified(None, &tag));
}

#[test]
fn client_ip_trims_what_str_trim_trims() {
    for code in 0u32..0x3100 {
        if let Some(c) = char::from_u32(code) {
            let v = format!("{c}{c}1.2.3.4{c}");
            assert_eq!(client_ip(Some(&v)), v.split(',').next().unwrap().trim());
        }
    }
}

#[test]
fn password_tag_must_be_canonical_base64() {
    let stored = [1u8, 2, 3, 4];
    assert_eq!(check_password(Some(&stored), Some("AQIDBA==")), PasswordCheck::Accepted);
    assert_eq!(check_password(Some(&stored), Some("AQIDBB==")), PasswordCheck::Rejected);
    assert_eq!(check_password(Some(&stored), Some("AQIDBA")), PasswordCheck::Rejected);
    assert_eq!(check_password(Some(&stored), Some("AQIDBA=")), PasswordCheck::Rejected);
    assert_eq!(check_password(Some(&stored), Some(" AQIDBA==")), PasswordCheck::Rejected);
}
