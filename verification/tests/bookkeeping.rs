use mitsuzo::rate::{allow_request, prune, retain_recent};
use mitsuzo::store::{
    chunk_key, chunk_key_prefix, content_path, counter_bytes, counter_value, day_key, day_key_at,
    decrement_tries, expiration_fits, expiration_timestamp, exhausted, id_available, incremented_counter,
    incremented_received, is_expired, new_paste_meta, nonce_path, part_file_name, received_bytes,
    received_chunks, record_key, select_expired, upload_offset, PasteMeta,
};
use mitsuzo::text::{concat_str, decimal_string};
use mitsuzo::types::{CreatePasteHeader, DataType};

fn meta(try_count: u32, expiration_timestamp: u64) -> PasteMeta {
    PasteMeta {
        try_count,
        expiration_timestamp,
        data_type: DataType::Text,
        filename: None,
        content_type: None,
        total_chunks: 1,
        allow_download: false,
    }
}

#[test]
fn store_keys() {
    assert_eq!(record_key("meta", "123456"), "meta:123456");
    assert_eq!(record_key("crecv", "7"), "crecv:7");
    assert_eq!(chunk_key("123456", 12), "chunk:123456:12");
    assert_eq!(chunk_key_prefix("123456"), "chunk:123456:");
    assert_eq!(part_file_name("123456", 3), "123456.3");
}

#[test]
fn file_paths_join_like_path_join() {
    assert_eq!(content_path("database/files", "42"), "database/files/42");
    assert_eq!(content_path("database/files/", "42"), "database/files/42");
    assert_eq!(content_path("", "42"), "42");
    assert_eq!(content_path("dir", "/abs"), "/abs");
    assert_eq!(nonce_path("database/files", "42"), "database/files/42.nonce");
}

#[test]
fn daily_counter_keys() {
    assert_eq!(day_key_at("pastes_day", 0), "pastes_day:0");
    assert_eq!(day_key_at("fail_day", 86_399), "fail_day:0");
    assert_eq!(day_key_at("fail_day", 86_400 * 20_000 + 5), "fail_day:20000");
    let today = std::time::SystemTime::now()
        .duration_since(std::time::UNIX_EPOCH)
        .unwrap()
        .as_secs()
        / 86_400;
    let k = day_key("success_day");
    assert!(k == format!("success_day:{}", today) || k == format!("success_day:{}", today + 1));
}

#[test]
fn decimal_text() {
    assert_eq!(decimal_string(0), "0");
    assert_eq!(decimal_string(907), "907");
    assert_eq!(decimal_string(u64::MAX), "18446744073709551615");
    assert_eq!(concat_str("ab", "cd"), "abcd");
}

#[test]
fn counters_are_big_endian() {
    assert_eq!(counter_bytes(0x0102_0304_0506_0708), vec![1, 2, 3, 4, 5, 6, 7, 8]);
    assert_eq!(counter_value(Some(&[0, 0, 0, 0, 0, 0, 1, 0])), 256);
    assert_eq!(counter_value(Some(&[1, 2, 3])), 0);
    assert_eq!(counter_value(None), 0);
}

#[test]
fn counter_read_back_after_write() {
    for n in [0u64, 1, 255, 256, u64::MAX] {
        assert_eq!(counter_value(Some(&counter_bytes(n))), n);
    }
}

#[test]
fn counter_increment_adds_one() {
    let stored = counter_bytes(41);
    assert_eq!(counter_value(Some(&incremented_counter(Some(&stored)))), 42);
    assert_eq!(incremented_counter(None), counter_bytes(1));
    assert_eq!(incremented_counter(Some(&[9, 9])), counter_bytes(1));
}

#[test]
fn received_counter_is_little_endian() {
    assert_eq!(received_bytes(0x0a0b_0c0d), vec![0x0d, 0x0c, 0x0b, 0x0a]);
    assert_eq!(received_chunks(Some(&[2, 1, 0, 0])), 258);
    assert_eq!(received_chunks(Some(&[2, 1, 0])), 0);
    assert_eq!(received_chunks(None), 0);
    assert_eq!(received_chunks(Some(&incremented_received(Some(&received_bytes(6))))), 7);
    assert_eq!(incremented_received(None), received_bytes(1));
}

#[test]
fn upload_offsets() {
    assert_eq!(upload_offset(0), 0);
    assert_eq!(upload_offset(3), 3 * 16_777_216);
    assert_eq!(upload_offset(u32::MAX), u32::MAX as u64 * 16_777_216);
}

#[test]
fn expiration_times() {
    assert_eq!(expiration_timestamp(Some(60), 1_000), 1_060);
    assert_eq!(expiration_timestamp(Some(0), 1_000), 0);
    assert_eq!(expiration_timestamp(None, 1_000), 0);
    assert_eq!(expiration_timestamp(None, u64::MAX), 0);
    assert!(expiration_fits(Some(5), u64::MAX - 5));
    assert!(!expiration_fits(Some(6), u64::MAX - 5));
    assert!(expiration_fits(Some(0), u64::MAX));
}

#[test]
fn expiry_and_availability() {
    assert!(!is_expired(None, 10));
    assert!(!is_expired(Some(&meta(1, 0)), 10));
    assert!(!is_expired(Some(&meta(1, 10)), 10));
    assert!(is_expired(Some(&meta(1, 9)), 10));
    assert!(id_available(None, 10));
    assert!(!id_available(Some(&meta(1, 0)), 10));
    assert!(!id_available(Some(&meta(1, 11)), 10));
    assert!(id_available(Some(&meta(1, 9)), 10));
}

#[test]
fn new_paste_meta_from_header() {
    let header = CreatePasteHeader {
        nonce: [1; 12],
        salt: [2; 16],
        password_hash: [3; 32],
        try_count: Some(5),
        ttl_seconds: Some(3_600),
        data_type: DataType::File,
        filename: Some("a.bin".to_string()),
        content_type: Some("application/octet-stream".to_string()),
        total_chunks: 4,
        allow_download: true,
    };
    let m = new_paste_meta(&header, 100);
    assert_eq!(m.try_count, 5);
    assert_eq!(m.expiration_timestamp, 3_700);
    assert_eq!(m.data_type, DataType::File);
    assert_eq!(m.filename.as_deref(), Some("a.bin"));
    assert_eq!(m.content_type.as_deref(), Some("application/octet-stream"));
    assert_eq!(m.total_chunks, 4);
    assert!(m.allow_download);
    let bare = CreatePasteHeader { try_count: None, ttl_seconds: None, ..header };
    let m2 = new_paste_meta(&bare, 100);
    assert_eq!(m2.try_count, 0);
    assert_eq!(m2.expiration_timestamp, 0);
}

#[test]
fn failed_attempts_use_up_tries() {
    let mut m = Some(meta(3, 0));
    let mut deleted_at = None;
    for attempt in 1..=5 {
        m = decrement_tries(m);
        if exhausted(&m) {
            deleted_at = Some(attempt);
            break;
        }
    }
    assert_eq!(deleted_at, Some(3));
    assert_eq!(decrement_tries(Some(meta(0, 0))), None);
    assert_eq!(decrement_tries(None), None);
    assert!(!exhausted(&None));
    assert_eq!(decrement_tries(Some(meta(2, 7))), Some(meta(1, 7)));
}

#[test]
fn cleanup_selects_expired_pastes() {
    let entries = vec![
        ("1".to_string(), 0u64),
        ("2".to_string(), 50),
        ("3".to_string(), 100),
        ("4".to_string(), 99),
    ];
    assert_eq!(select_expired(&entries, 100), vec!["2".to_string(), "4".to_string()]);
    assert!(select_expired(&Vec::new(), 100).is_empty());
}

#[test]
fn rate_limit_allows_max_requests_per_window() {
    let mut log = Vec::new();
    assert!(allow_request(&mut log, 100, 2, 60));
    assert!(allow_request(&mut log, 110, 2, 60));
    assert!(!allow_request(&mut log, 120, 2, 60));
    assert_eq!(log, vec![100, 110]);
    assert!(allow_request(&mut log, 160, 2, 60));
    assert_eq!(log, vec![110, 160]);
}

#[test]
fn rate_limit_forgets_old_requests() {
    let mut log = vec![1, 50, 51, 100];
    prune(&mut log, 110, 60);
    assert_eq!(log, vec![51, 100]);
    let mut future = vec![500];
    prune(&mut future, 100, 60);
    assert_eq!(future, vec![500]);
    let mut stale = vec![1, 2];
    assert!(!retain_recent(&mut stale, 1_000, 300));
    assert!(stale.is_empty());
    let mut fresh = vec![900];
    assert!(retain_recent(&mut fresh, 1_000, 300));
}

#[test]
fn expiry_after_time_to_live() {
    let created = 1_000u64;
    let expires = expiration_timestamp(Some(60), created);
    assert!(!is_expired(Some(&meta(1, expires)), created));
    assert!(!is_expired(Some(&meta(1, expires)), created + 60));
    assert!(is_expired(Some(&meta(1, expires)), created + 61));
    let forever = expiration_timestamp(None, created);
    assert!(!is_expired(Some(&meta(1, forever)), u64::MAX));
}

#[test]
fn cleanup_changes_no_later_check() {
    let log = vec![10u64, 200, 290, 295];
    let mut cleaned = log.clone();
    retain_recent(&mut cleaned, 300, 300);
    let mut a = cleaned.clone();
    let mut b = log.clone();
    assert_eq!(allow_request(&mut a, 320, 3, 60), allow_request(&mut b, 320, 3, 60));
    assert_eq!(a, b);
}
