use mitsuzo::aead::{decrypt_chunk_into, decrypt_with_key_into, encrypt_chunk_into};
use mitsuzo::api::{check_password, password_header, PasswordCheck};
use mitsuzo::content::{decrypt_content, decrypt_into, decrypt_with_key, encrypt_content, encrypt_into};
use mitsuzo::hmac::compute_password_hash;
use mitsuzo::kdf::{derive_keys, encrypt_setup, get_argon2_params};
use mitsuzo::nonce::derive_chunk_nonce;
use mitsuzo::types::CHUNK_SIZE;

fn unhex(s: &str) -> Vec<u8> {
    (0..s.len())
        .step_by(2)
        .map(|i| u8::from_str_radix(&s[i..i + 2], 16).unwrap())
        .collect()
}

fn test_key() -> [u8; 32] {
    let mut k = [0u8; 32];
    for (i, b) in k.iter_mut().enumerate() {
        *b = i as u8;
    }
    k
}

fn test_nonce() -> [u8; 12] {
    let mut n = [0u8; 12];
    for (i, b) in n.iter_mut().enumerate() {
        *b = 0xa0 + i as u8;
    }
    n
}

fn sample(len: usize) -> Vec<u8> {
    (0..len).map(|i| (i * 7 + 3) as u8).collect()
}

#[test]
fn chunk_nonce_of_chunk_zero_is_base() {
    let base = test_nonce();
    assert_eq!(derive_chunk_nonce(&base, 0), base);
}

#[test]
fn chunk_nonce_xors_little_endian_index() {
    let base = [0u8; 12];
    let n = derive_chunk_nonce(&base, 0x0102_0304);
    assert_eq!(n, [0, 0, 0, 0, 0, 0, 0, 0, 4, 3, 2, 1]);
    let n1 = derive_chunk_nonce(&test_nonce(), 1);
    assert_eq!(n1[8], 0xa8 ^ 1);
    assert_eq!(&n1[..8], &test_nonce()[..8]);
}

#[test]
fn chunk_nonces_differ_between_chunks() {
    let base = test_nonce();
    let a = derive_chunk_nonce(&base, 5);
    let b = derive_chunk_nonce(&base, 6);
    assert_ne!(a, b);
    assert_eq!(derive_chunk_nonce(&a, 5), base);
}

#[test]
fn password_hash_is_hmac_sha256_of_salt() {
    let mut key = [0u8; 32];
    for (i, b) in key.iter_mut().enumerate() {
        *b = i as u8 + 1;
    }
    let salt: Vec<u8> = (0..16).collect();
    let tag = compute_password_hash(&key, &salt);
    assert_eq!(
        tag.to_vec(),
        unhex("486c4ef49b3080a48142cc198f13e52d49db4cfecece8065124852e4ecf2d749")
    );
}

#[test]
fn encrypt_chunk_matches_chacha20poly1305() {
    let mut out = Vec::new();
    encrypt_chunk_into(b"hello world", &test_key(), &test_nonce(), 0, &mut out).unwrap();
    assert_eq!(out, unhex("64ce143322c6b5c2d26397442b2e18de65bc3be907448a68aa9340"));
    let mut out1 = vec![9u8];
    encrypt_chunk_into(b"abc", &test_key(), &test_nonce(), 1, &mut out1).unwrap();
    assert_eq!(out1[0], 9);
    assert_eq!(out1[1..].to_vec(), unhex("82656608c3eaee56cb0ead76f2f4a4fa7220da"));
}

#[test]
fn encrypt_empty_chunk_is_a_bare_tag() {
    let mut out = Vec::new();
    encrypt_chunk_into(b"", &test_key(), &test_nonce(), 0, &mut out).unwrap();
    assert_eq!(out, unhex("03b413aef83b384887a4d68052fd59aa"));
}

#[test]
fn decrypt_chunk_opens_sealed_chunk() {
    let ct = unhex("82656608c3eaee56cb0ead76f2f4a4fa7220da");
    let mut out = vec![1u8, 2];
    decrypt_chunk_into(&ct, &test_key(), &test_nonce(), 1, &mut out).unwrap();
    assert_eq!(out, vec![1u8, 2, b'a', b'b', b'c']);
}

#[test]
fn decrypt_chunk_with_wrong_index_fails_and_leaves_zeros() {
    let ct = unhex("82656608c3eaee56cb0ead76f2f4a4fa7220da");
    let mut out = vec![7u8];
    let r = decrypt_chunk_into(&ct, &test_key(), &test_nonce(), 2, &mut out);
    assert_eq!(
        r,
        Err("Failed to decrypt: UnknownCryptoError. Password may be incorrect.".to_string())
    );
    assert_eq!(out, vec![7u8, 0, 0, 0]);
}

#[test]
fn decrypt_too_short_ciphertext_fails() {
    let mut out = Vec::new();
    let r = decrypt_with_key_into(&[1, 2, 3], &test_key(), &test_nonce(), &mut out);
    assert_eq!(r, Err("Ciphertext too short".to_string()));
    assert!(out.is_empty());
}

#[test]
fn encrypt_into_counts_chunks_and_sizes() {
    for (len, chunks) in [(0usize, 1u32), (1, 1), (CHUNK_SIZE, 1), (CHUNK_SIZE + 1, 2), (3 * CHUNK_SIZE, 3)] {
        let p = sample(len);
        let mut out = Vec::new();
        let n = encrypt_into(&p, &test_key(), &test_nonce(), &mut out).unwrap();
        assert_eq!(n, chunks);
        assert_eq!(out.len(), len + 16 * chunks as usize);
    }
}

#[test]
fn encrypt_then_decrypt_with_key_round_trips() {
    for len in [0usize, 5, CHUNK_SIZE - 1, CHUNK_SIZE, CHUNK_SIZE + 1, 2 * CHUNK_SIZE + 77] {
        let p = sample(len);
        let mut ct = Vec::new();
        let n = encrypt_into(&p, &test_key(), &test_nonce(), &mut ct).unwrap();
        let mut back = Vec::new();
        decrypt_with_key(&ct, &test_key(), &test_nonce(), n, &mut back).unwrap();
        assert_eq!(back, p);
    }
}

#[test]
fn first_chunk_of_paste_uses_base_nonce() {
    let p = sample(10);
    let mut whole = Vec::new();
    encrypt_into(&p, &test_key(), &test_nonce(), &mut whole).unwrap();
    let mut single = Vec::new();
    encrypt_chunk_into(&p, &test_key(), &test_nonce(), 0, &mut single).unwrap();
    assert_eq!(whole, single);
}

#[test]
fn decrypt_with_key_detects_tampering() {
    let p = sample(CHUNK_SIZE + 10);
    let mut ct = Vec::new();
    let n = encrypt_into(&p, &test_key(), &test_nonce(), &mut ct).unwrap();
    ct[CHUNK_SIZE + 16 + 3] ^= 1;
    let mut back = Vec::new();
    assert!(decrypt_with_key(&ct, &test_key(), &test_nonce(), n, &mut back).is_err());
    assert_eq!(back.len(), CHUNK_SIZE + 10);
    assert_eq!(&back[..CHUNK_SIZE], &p[..CHUNK_SIZE]);
    assert!(back[CHUNK_SIZE..].iter().all(|&b| b == 0));
}

#[test]
fn decrypt_with_key_rejects_bad_layout() {
    let mut back = Vec::new();
    let r = decrypt_with_key(&[0u8; 100], &test_key(), &test_nonce(), 3, &mut back);
    assert_eq!(r, Err("Invalid ciphertext length for chunked data".to_string()));
    let long = vec![0u8; 65552 * 3];
    let r2 = decrypt_with_key(&long, &test_key(), &test_nonce(), 2, &mut back);
    assert_eq!(r2, Err("Invalid last chunk ciphertext length".to_string()));
    assert!(back.is_empty());
}

#[test]
fn argon2_params_are_accepted() {
    assert!(get_argon2_params().is_ok());
}

#[test]
fn derive_keys_matches_argon2id() {
    let salt: Vec<u8> = (0..16).collect();
    let (ek, vk) = derive_keys("correct horse", &salt).unwrap();
    let km = unhex(
        "652d07242cfea3af4c56ad7efd31295b4de18fd3e3aeab655bdff01c327fbac3\
         55538e77165cd731c83941251b3994819f727ca112ed2451e76b99566aa1dc9b",
    );
    assert_eq!(ek.to_vec(), km[..32].to_vec());
    assert_eq!(vk.to_vec(), km[32..].to_vec());
    let tag = compute_password_hash(&vk, &salt);
    assert_eq!(
        tag.to_vec(),
        unhex("f8d7f861668c4bb2f77ff1303ce92ab7e172a3a3a9e97ac392b4be2e07d56f0e")
    );
}

#[test]
fn derive_keys_rejects_short_salt() {
    let r = derive_keys("pw", &[1, 2, 3]);
    assert!(r.unwrap_err().starts_with("Failed to derive key: "));
}

#[test]
fn encrypt_setup_tag_matches_derived_keys() {
    let (salt, _nonce, ek, tag) = encrypt_setup("hunter2").unwrap();
    let (ek2, vk2) = derive_keys("hunter2", &salt).unwrap();
    assert_eq!(ek, ek2);
    assert_eq!(tag, compute_password_hash(&vk2, &salt));
}

#[test]
fn encrypt_content_then_decrypt_content_round_trips() {
    let p = sample(CHUNK_SIZE + 123);
    let (ct, nonce, salt, _tag, chunks) = encrypt_content(&p, "s3cret").unwrap();
    assert_eq!(chunks, 2);
    assert_eq!(ct.len(), p.len() + 32);
    let back = decrypt_content(&ct, &nonce, "s3cret", &salt, chunks).unwrap();
    assert_eq!(back, p);
}

#[test]
fn decrypt_content_with_wrong_password_fails() {
    let p = b"top secret".to_vec();
    let (ct, nonce, salt, _tag, chunks) = encrypt_content(&p, "right").unwrap();
    assert!(decrypt_content(&ct, &nonce, "wrong", &salt, chunks).is_err());
}

#[test]
fn decrypt_content_requires_twelve_byte_nonce() {
    let r = decrypt_content(&[0u8; 16], &[0u8; 11], "pw", &[0u8; 16], 1);
    assert_eq!(r, Err("Nonce must be 12 bytes".to_string()));
}

#[test]
fn decrypt_into_appends_after_existing_output() {
    let p = b"appended".to_vec();
    let (ct, nonce, salt, _tag, chunks) = encrypt_content(&p, "pw").unwrap();
    let mut out = b">>".to_vec();
    decrypt_into(&ct, &nonce, "pw", &salt, chunks, &mut out).unwrap();
    assert_eq!(out, b">>appended".to_vec());
}

#[test]
fn password_header_is_base64_tag_and_accepted() {
    let mut key = [0u8; 32];
    for (i, b) in key.iter_mut().enumerate() {
        *b = i as u8 + 1;
    }
    let salt: Vec<u8> = (0..16).collect();
    let header = password_header(&key, &salt);
    assert_eq!(header, "SGxO9JswgKSBQswZjxPlLUnbTP7OzoBlEkhS5Ozy10k=");
    let stored = compute_password_hash(&key, &salt);
    assert_eq!(check_password(Some(&stored), Some(&header)), PasswordCheck::Accepted);
    let other = password_header(&[0u8; 32], &salt);
    assert_eq!(check_password(Some(&stored), Some(&other)), PasswordCheck::Rejected);
}

#[test]
fn decrypt_into_reports_key_derivation_failure() {
    let mut out = vec![1u8];
    let r = decrypt_into(&[0u8; 16], &[0u8; 12], "pw", &[1, 2, 3], 1, &mut out);
    assert!(r.unwrap_err().starts_with("Failed to derive key: "));
    assert_eq!(out, vec![1u8]);
}

#[test]
fn decrypt_with_key_refuses_short_last_chunk_up_front() {
    let mut out = vec![7u8];
    let r = decrypt_with_key(&[0u8; 65557], &test_key(), &test_nonce(), 2, &mut out);
    assert_eq!(r, Err("Invalid last chunk ciphertext length".to_string()));
    assert_eq!(out, vec![7u8]);
}

#[test]
fn decrypt_with_key_refuses_zero_chunks() {
    let mut out = vec![7u8];
    let r = decrypt_with_key(&[0u8; 32], &test_key(), &test_nonce(), 0, &mut out);
    assert_eq!(r, Err("total_chunks cannot be 0".to_string()));
    assert_eq!(out, vec![7u8]);
}

#[test]
fn decrypt_into_errors_keep_output() {
    let mut out = Vec::new();
    let r = decrypt_into(&[0u8; 65557], &[0u8; 12], "pw", &[0u8; 16], 2, &mut out);
    assert_eq!(r, Err("Invalid last chunk ciphertext length".to_string()));
    assert!(out.is_empty());
    let mut out1 = vec![1u8];
    let r1 = decrypt_into(&[0u8; 65552], &[0u8; 12], "pw", &[0u8; 16], 2, &mut out1);
    assert_eq!(r1, Err("Invalid last chunk ciphertext length".to_string()));
    assert_eq!(out1, vec![1u8]);
    let r0 = decrypt_into(&[0u8; 16], &[0u8; 12], "pw", &[0u8; 16], 0, &mut out1);
    assert_eq!(r0, Err("total_chunks cannot be 0".to_string()));
    assert_eq!(out1, vec![1u8]);
}

#[test]
fn decrypted_length_drops_a_tag_per_chunk() {
    let p = sample(2 * CHUNK_SIZE + 9);
    let (ct, nonce, salt, _tag, chunks) = encrypt_content(&p, "len").unwrap();
    let back = decrypt_content(&ct, &nonce, "len", &salt, chunks).unwrap();
    assert_eq!(back.len(), ct.len() - 16 * chunks as usize);
}

#[test]
fn encrypt_chunk_error_text_and_single_chunk_round_trip() {
    let mut sealed = Vec::new();
    encrypt_chunk_into(b"round", &test_key(), &test_nonce(), 9, &mut sealed).unwrap();
    let mut out = Vec::new();
    decrypt_chunk_into(&sealed, &test_key(), &test_nonce(), 9, &mut out).unwrap();
    assert_eq!(out, b"round".to_vec());
}
