use mitsuzo::chunks::{get_chunk_bounds, get_plaintext_size, FULL_CHUNK_CIPHER_LEN};
use mitsuzo::cli::{
    decrypt_chunk_range, download_part, encrypt_chunk_range, encrypted_size, upload_piece_bounds, upload_pieces,
    worker_range,
};
use mitsuzo::content::encrypt_into;
use mitsuzo::http::{parse_range, range_header};
use mitsuzo::types::{CHUNK_SIZE, UPLOAD_CHUNK_SIZE};

fn sample(len: usize) -> Vec<u8> {
    (0..len).map(|i| (i * 13 + 1) as u8).collect()
}

#[test]
fn chunk_bounds_of_full_and_last_chunks() {
    assert_eq!(FULL_CHUNK_CIPHER_LEN, CHUNK_SIZE + 16);
    assert_eq!(get_chunk_bounds(3, 0, 140_000), (0, 65552));
    assert_eq!(get_chunk_bounds(3, 1, 140_000), (65552, 131104));
    assert_eq!(get_chunk_bounds(3, 2, 140_000), (131104, 140_000));
    assert_eq!(get_chunk_bounds(1, 0, 40), (0, 40));
}

#[test]
fn plaintext_size_of_single_chunk() {
    assert_eq!(get_plaintext_size(1, 16), Ok(0));
    assert_eq!(get_plaintext_size(1, 27), Ok(11));
    assert_eq!(get_plaintext_size(1, 15), Err("Invalid single chunk".to_string()));
}

#[test]
fn plaintext_size_of_several_chunks() {
    assert_eq!(get_plaintext_size(2, 65552 + 17), Ok(65536 + 1));
    assert_eq!(get_plaintext_size(3, 2 * 65552 + 65552), Ok(3 * 65536));
}

#[test]
fn plaintext_size_errors() {
    assert_eq!(get_plaintext_size(0, 100), Err("total_chunks cannot be 0".to_string()));
    assert_eq!(get_plaintext_size(2, 100), Err("Invalid ciphertext length".to_string()));
    assert_eq!(get_plaintext_size(2, 65552), Err("Invalid last chunk length".to_string()));
    assert_eq!(get_plaintext_size(2, 2 * 65552 + 1), Err("Invalid last chunk length".to_string()));
}

#[test]
fn plaintext_size_undoes_encryption_growth() {
    for len in [0usize, 1, 65535, 65536, 65537, 200_000] {
        let mut ct = Vec::new();
        let chunks = encrypt_into(&sample(len), &[3u8; 32], &[4u8; 12], &mut ct).unwrap();
        assert_eq!(get_plaintext_size(chunks, ct.len()), Ok(len));
        assert_eq!(encrypted_size(len as u64, chunks), ct.len());
    }
}

#[test]
fn encrypted_size_cases() {
    assert_eq!(encrypted_size(0, 1), 16);
    assert_eq!(encrypted_size(10, 0), 26);
    assert_eq!(encrypted_size(65537, 2), 65537 + 32);
    assert_eq!(encrypted_size(100, 3), 0);
}

#[test]
fn upload_pieces_of_ciphertext() {
    assert_eq!(upload_pieces(0), 0);
    assert_eq!(upload_pieces(1), 1);
    assert_eq!(upload_pieces(UPLOAD_CHUNK_SIZE), 1);
    assert_eq!(upload_pieces(UPLOAD_CHUNK_SIZE + 1), 2);
    assert_eq!(upload_piece_bounds(0, 10), (0, 10));
    assert_eq!(upload_piece_bounds(1, UPLOAD_CHUNK_SIZE + 5), (UPLOAD_CHUNK_SIZE, UPLOAD_CHUNK_SIZE + 5));
    assert_eq!(upload_piece_bounds(0, 2 * UPLOAD_CHUNK_SIZE), (0, UPLOAD_CHUNK_SIZE));
}

#[test]
fn download_parts_cover_the_ciphertext() {
    let total = 1000u64;
    let part = total.div_ceil(8);
    let mut next = 0u64;
    for p in 0..8u64 {
        if let Some((s, e)) = download_part(p, part, total) {
            assert_eq!(s, next);
            next = e + 1;
        }
    }
    assert_eq!(next, total);
    assert_eq!(download_part(7, 200, 1000), None);
    assert_eq!(download_part(4, 200, 1000), Some((800, 999)));
}

#[test]
fn download_range_header_parses_back() {
    let h = range_header(125, 249);
    assert_eq!(h, "bytes=125-249");
    assert_eq!(parse_range(&h), Some((125, 249)));
    assert_eq!(parse_range(&range_header(0, u64::MAX)), Some((0, u64::MAX)));
}

#[test]
fn worker_ranges_share_out_chunks() {
    assert_eq!(worker_range(0, 4, 10), Some((0, 3)));
    assert_eq!(worker_range(3, 4, 10), Some((9, 10)));
    assert_eq!(worker_range(2, 4, 5), Some((4, 5)));
    assert_eq!(worker_range(3, 4, 5), None);
    assert_eq!(worker_range(0, 8, 1), Some((0, 1)));
    assert_eq!(worker_range(1, 8, 1), None);
}

#[test]
fn workers_together_encrypt_the_whole_paste() {
    let p = sample(5 * CHUNK_SIZE + 9);
    let (key, nonce) = ([7u8; 32], [8u8; 12]);
    let mut whole = Vec::new();
    let chunks = encrypt_into(&p, &key, &nonce, &mut whole).unwrap() as usize;
    for workers in [1usize, 2, 4, 8] {
        let mut joined = Vec::new();
        for t in 0..workers {
            if let Some((a, b)) = worker_range(t, workers, chunks) {
                let mut local = Vec::new();
                encrypt_chunk_range(&p, &key, &nonce, a, b, &mut local);
                joined.extend_from_slice(&local);
            }
        }
        assert_eq!(joined, whole);
    }
}

#[test]
fn workers_together_decrypt_the_whole_paste() {
    let p = sample(3 * CHUNK_SIZE + 100);
    let (key, nonce) = ([1u8; 32], [2u8; 12]);
    let mut ct = Vec::new();
    let chunks = encrypt_into(&p, &key, &nonce, &mut ct).unwrap();
    let mut joined = Vec::new();
    for t in 0..3usize {
        if let Some((a, b)) = worker_range(t, 3, chunks as usize) {
            let mut local = Vec::new();
            assert!(decrypt_chunk_range(&ct, chunks, &key, &nonce, a as u32, b as u32, &mut local));
            joined.extend_from_slice(&local);
        }
    }
    assert_eq!(joined, p);
}

#[test]
fn decrypt_range_goes_on_past_a_bad_chunk() {
    let p = sample(2 * CHUNK_SIZE + 5);
    let (key, nonce) = ([1u8; 32], [2u8; 12]);
    let mut ct = Vec::new();
    let chunks = encrypt_into(&p, &key, &nonce, &mut ct).unwrap();
    ct[10] ^= 0x80;
    let mut out = Vec::new();
    assert!(!decrypt_chunk_range(&ct, chunks, &key, &nonce, 0, chunks, &mut out));
    assert_eq!(out.len(), p.len());
    assert!(out[..CHUNK_SIZE].iter().all(|&b| b == 0));
    assert_eq!(&out[CHUNK_SIZE..], &p[CHUNK_SIZE..]);
}

#[test]
fn upload_pieces_cover_the_ciphertext() {
    let len = 2 * UPLOAD_CHUNK_SIZE + 123;
    let pieces = upload_pieces(len);
    assert_eq!(pieces, 3);
    let mut next = 0;
    for i in 0..pieces {
        let (s, e) = upload_piece_bounds(i, len);
        assert_eq!(s, next);
        assert!(s < e);
        next = e;
    }
    assert_eq!(next, len);
}

#[test]
fn short_last_chunk_is_refused() {
    assert_eq!(get_plaintext_size(2, 65552 + 5), Err("Invalid last chunk length".to_string()));
    assert_eq!(get_plaintext_size(2, 65552 + 15), Err("Invalid last chunk length".to_string()));
    assert_eq!(get_plaintext_size(2, 65552 + 16), Ok(65536));
}
