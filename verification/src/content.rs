use vstd::prelude::*;
use vstd::string::StringSliceAdditionalSpecFns;

use crate::aead::{
    chacha20poly1305_seal, open_error_text, decrypt_chunk_into, decrypt_with_key_into, encrypt_chunk_into,
    failed_chunk_residue, open_chunk, TAG_LEN,
};
use crate::chunks::{
    chunk_bounds, chunk_count, chunk_end, chunk_start, chunked_layout_ok, encrypted_len, lemma_chunk_count,
    plain_chunk, CHUNK_SIZE, FULL_CHUNK_CIPHER_LEN,
};
use crate::hmac::hmac_sha256_spec;
use crate::ids::has_prefix;
use crate::kdf::{
    derive_keys, encrypt_setup, setup_error, encryption_key_of, kdf_inputs_rejected, validation_key_of, MAX_PWD_LEN,
};
use crate::nonce::{chunk_nonce, lemma_chunk_nonce_zero};

verus! {

/// Chunk `i` of `p` sealed under its own chunk nonce.
pub open spec fn sealed_chunk(p: Seq<u8>, key: Seq<u8>, nonce: Seq<u8>, i: int) -> Seq<u8> {
    chacha20poly1305_seal(key, chunk_nonce(nonce, i as u32), plain_chunk(p, i))
}

/// The ciphertext of the first `m` chunks of `p`, one after the other.
pub open spec fn sealed_prefix(p: Seq<u8>, key: Seq<u8>, nonce: Seq<u8>, m: nat) -> Seq<u8>
    decreases m,
{
    if m == 0 {
        Seq::empty()
    } else {
        sealed_prefix(p, key, nonce, (m - 1) as nat) + sealed_chunk(p, key, nonce, m - 1)
    }
}

/// The ciphertext of a whole plaintext under `key` and base nonce `nonce`.
pub open spec fn encrypt_spec(p: Seq<u8>, key: Seq<u8>, nonce: Seq<u8>) -> Seq<u8> {
    sealed_prefix(p, key, nonce, chunk_count(p.len()))
}

/// Every one of the first `m` sealed chunks is its plaintext plus a tag.
pub open spec fn sealed_sizes_ok(p: Seq<u8>, key: Seq<u8>, nonce: Seq<u8>, m: nat) -> bool {
    forall|i: int| 0 <= i < m ==> (#[trigger] sealed_chunk(p, key, nonce, i)).len() == plain_chunk(p, i).len() + TAG_LEN
}

/// How much of a plaintext of `len` bytes in `total` chunks the first `m`
/// chunks cover.
pub open spec fn plain_prefix_end(len: nat, total: nat, m: nat) -> int {
    if m < total { m * CHUNK_SIZE } else { len as int }
}

/// Sizes of the plaintext chunks: all full but the last, which ends the plaintext.
pub proof fn lemma_plain_chunk_len(p: Seq<u8>, i: int)
    requires
        0 <= i < chunk_count(p.len()),
    ensures
        chunk_start(i) <= chunk_end(p.len(), i) <= p.len(),
        i < chunk_count(p.len()) - 1 ==> chunk_end(p.len(), i) == chunk_start(i) + CHUNK_SIZE,
        i == chunk_count(p.len()) - 1 ==> chunk_end(p.len(), i) == p.len(),
        plain_chunk(p, i).len() <= CHUNK_SIZE,
        plain_chunk(p, i).len() == chunk_end(p.len(), i) - chunk_start(i),
        i < chunk_count(p.len()) - 1 || p.len() > 0 ==> plain_chunk(p, i).len() >= 1,
{
    lemma_chunk_count(p.len());
    let total = chunk_count(p.len());
    if p.len() > 0 {
        assert(i * CHUNK_SIZE <= (total - 1) * CHUNK_SIZE);
        if i < total - 1 {
            assert((i + 1) * CHUNK_SIZE <= (total - 1) * CHUNK_SIZE);
        }
    }
}

/// Layout of the sealed prefix: its length, and where each sealed chunk sits.
pub proof fn lemma_sealed_prefix(p: Seq<u8>, key: Seq<u8>, nonce: Seq<u8>, m: nat)
    requires
        m <= chunk_count(p.len()),
        sealed_sizes_ok(p, key, nonce, chunk_count(p.len())),
    ensures
        sealed_prefix(p, key, nonce, m).len() == plain_prefix_end(p.len(), chunk_count(p.len()), m) + TAG_LEN * m,
        m < chunk_count(p.len()) ==> sealed_prefix(p, key, nonce, m).len() == m * FULL_CHUNK_CIPHER_LEN,
        forall|i: int| 0 <= i < m ==> sealed_prefix(p, key, nonce, m).subrange(
            i * FULL_CHUNK_CIPHER_LEN,
            i * FULL_CHUNK_CIPHER_LEN + sealed_chunk(p, key, nonce, i).len(),
        ) == #[trigger] sealed_chunk(p, key, nonce, i),
    decreases m,
{
    let total = chunk_count(p.len());
    lemma_chunk_count(p.len());
    if m > 0 {
        let prev = sealed_prefix(p, key, nonce, (m - 1) as nat);
        let last = sealed_chunk(p, key, nonce, m - 1);
        lemma_sealed_prefix(p, key, nonce, (m - 1) as nat);
        lemma_plain_chunk_len(p, m - 1);
        assert(last.len() == plain_chunk(p, m - 1).len() + TAG_LEN);
        assert(prev.len() == (m - 1) * FULL_CHUNK_CIPHER_LEN);
        assert forall|i: int| 0 <= i < m implies sealed_prefix(p, key, nonce, m).subrange(
            i * FULL_CHUNK_CIPHER_LEN,
            i * FULL_CHUNK_CIPHER_LEN + sealed_chunk(p, key, nonce, i).len(),
        ) == #[trigger] sealed_chunk(p, key, nonce, i) by {
            if i < m - 1 {
                lemma_plain_chunk_len(p, i);
                assert(sealed_chunk(p, key, nonce, i).len() == FULL_CHUNK_CIPHER_LEN);
                assert((i + 1) * FULL_CHUNK_CIPHER_LEN <= (m - 1) * FULL_CHUNK_CIPHER_LEN);
                assert(sealed_prefix(p, key, nonce, m).subrange(
                    i * FULL_CHUNK_CIPHER_LEN,
                    i * FULL_CHUNK_CIPHER_LEN + sealed_chunk(p, key, nonce, i).len(),
                ) =~= prev.subrange(
                    i * FULL_CHUNK_CIPHER_LEN,
                    i * FULL_CHUNK_CIPHER_LEN + sealed_chunk(p, key, nonce, i).len(),
                ));
            } else {
                assert(sealed_prefix(p, key, nonce, m).subrange(
                    i * FULL_CHUNK_CIPHER_LEN,
                    i * FULL_CHUNK_CIPHER_LEN + sealed_chunk(p, key, nonce, i).len(),
                ) =~= last);
            }
        }
    }
}

/// Shape of a ciphertext produced by `encrypt_spec`: its length, its chunk
/// layout, and its chunks as `chunk_ciphertext` cuts them.
pub proof fn lemma_encrypted_chunks(p: Seq<u8>, key: Seq<u8>, nonce: Seq<u8>)
    requires
        sealed_sizes_ok(p, key, nonce, chunk_count(p.len())),
    ensures
        encrypt_spec(p, key, nonce).len() == encrypted_len(p.len()),
        chunk_count(p.len()) >= 2 ==> chunked_layout_ok(chunk_count(p.len()), encrypt_spec(p, key, nonce).len()),
        forall|i: int| 0 <= i < chunk_count(p.len()) ==>
            chunk_ciphertext(encrypt_spec(p, key, nonce), chunk_count(p.len()), i) == #[trigger] sealed_chunk(p, key, nonce, i),
{
    let total = chunk_count(p.len());
    let ct = encrypt_spec(p, key, nonce);
    lemma_chunk_count(p.len());
    lemma_sealed_prefix(p, key, nonce, total);
    lemma_sealed_prefix(p, key, nonce, (total - 1) as nat);
    lemma_plain_chunk_len(p, total - 1);
    assert(ct.len() == (total - 1) * FULL_CHUNK_CIPHER_LEN + sealed_chunk(p, key, nonce, total - 1).len()) by {
        assert(ct =~= sealed_prefix(p, key, nonce, (total - 1) as nat) + sealed_chunk(p, key, nonce, total - 1));
    }
    assert forall|i: int| 0 <= i < total implies
        chunk_ciphertext(ct, total, i) == #[trigger] sealed_chunk(p, key, nonce, i) by {
        lemma_plain_chunk_len(p, i);
    }
}

/// Encrypts `plaintext` chunk by chunk under `encryption_key`, appending the
/// ciphertext to `output`, and returns the number of chunks.
pub fn encrypt_into(
    plaintext: &[u8],
    encryption_key: &[u8; 32],
    base_nonce: &[u8; 12],
    output: &mut Vec<u8>,
) -> (r: Result<u32, String>)
    requires
        chunk_count(plaintext@.len()) <= u32::MAX,
        old(output)@.len() + encrypted_len(plaintext@.len()) <= usize::MAX,
    ensures
        r == Ok::<u32, String>(chunk_count(plaintext@.len()) as u32),
        final(output)@ == old(output)@ + encrypt_spec(plaintext@, encryption_key@, base_nonce@),
        final(output)@.len() == old(output)@.len() + encrypted_len(plaintext@.len()),
        sealed_sizes_ok(plaintext@, encryption_key@, base_nonce@, chunk_count(plaintext@.len())),
{
    let ghost p = plaintext@;
    let ghost len = plaintext@.len();
    proof {
        lemma_chunk_count(len);
    }
    let total_chunks: u32 = if plaintext.len() == 0 {
        1
    } else {
        let c: usize = plaintext.len() / CHUNK_SIZE + if plaintext.len() % CHUNK_SIZE == 0 { 0 } else { 1 };
        assert(c == chunk_count(len)) by (nonlinear_arith)
            requires
                len > 0,
                c == len / 65536 + if len % 65536 == 0 { 0int } else { 1int },
                chunk_count(len) == (len + 65535) / 65536,
        ;
        c as u32
    };
    let ghost total = total_chunks as nat;
    let mut i: u32 = 0;
    while i < total_chunks
        invariant
            0 <= i <= total_chunks,
            total == total_chunks,
            total == chunk_count(len),
            p == plaintext@,
            len == p.len(),
            len > 0 ==> (total - 1) * CHUNK_SIZE < len <= total * CHUNK_SIZE,
            total >= 1,
            old(output)@.len() + encrypted_len(len) <= usize::MAX,
            output@ == old(output)@ + sealed_prefix(p, encryption_key@, base_nonce@, i as nat),
            output@.len() == old(output)@.len() + (if i < total { i * CHUNK_SIZE } else { len as int }) + TAG_LEN * i,
            sealed_sizes_ok(p, encryption_key@, base_nonce@, i as nat),
        decreases total_chunks - i,
    {
        assert(i * CHUNK_SIZE <= len) by {
            if len > 0 {
                assert(i * CHUNK_SIZE <= (total - 1) * CHUNK_SIZE);
            }
        }
        let start: usize = i as usize * CHUNK_SIZE;
        let end: usize = if plaintext.len() - start > CHUNK_SIZE { start + CHUNK_SIZE } else { plaintext.len() };
        assert(end == chunk_end(len, i as int));
        assert(i + 1 == total ==> end == len) by {
            if i + 1 == total && len > 0 {
                assert(len - i * CHUNK_SIZE <= CHUNK_SIZE);
            }
        }
        assert(i + 1 < total ==> end == (i + 1) * CHUNK_SIZE) by {
            if i + 1 < total {
                assert((i + 1) * CHUNK_SIZE <= (total - 1) * CHUNK_SIZE);
            }
        }
        let chunk = &plaintext[start..end];
        assert(chunk@ == plain_chunk(p, i as int));
        let res = encrypt_chunk_into(chunk, encryption_key, base_nonce, i, output);
        assert(res is Ok);
        proof {
            assert(output@ =~= old(output)@ + sealed_prefix(p, encryption_key@, base_nonce@, (i + 1) as nat));
            assert forall|j: int| 0 <= j < i + 1 implies
                (#[trigger] sealed_chunk(p, encryption_key@, base_nonce@, j)).len() == plain_chunk(p, j).len() + TAG_LEN by {
                if j < i {
                } else {
                    assert(j as u32 == i);
                }
            }
        }
        i = i + 1;
    }
    Ok(total_chunks)
}

/// Ciphertext chunk `i` of `ct`, cut at the bounds `chunk_bounds` gives.
pub open spec fn chunk_ciphertext(ct: Seq<u8>, total: nat, i: int) -> Seq<u8> {
    ct.subrange(chunk_bounds(total, i, ct.len()).0, chunk_bounds(total, i, ct.len()).1)
}

/// Decrypting the first `m` chunks in order: the plaintext appended so far,
/// and whether every chunk so far opened. Decryption stops at the first
/// chunk that fails to open, leaving that chunk's residue behind.
pub open spec fn decrypt_run(key: Seq<u8>, nonce: Seq<u8>, ct: Seq<u8>, total: nat, m: nat) -> (Seq<u8>, bool)
    decreases m,
{
    if m == 0 {
        (Seq::empty(), true)
    } else {
        let prev = decrypt_run(key, nonce, ct, total, (m - 1) as nat);
        if !prev.1 {
            prev
        } else {
            let c = chunk_ciphertext(ct, total, m - 1);
            match open_chunk(key, chunk_nonce(nonce, (m - 1) as u32), c) {
                Some(pt) => (prev.0 + pt, true),
                None => (prev.0 + failed_chunk_residue(c.len()), false),
            }
        }
    }
}

/// Decrypting a whole ciphertext of `total` chunks: the bytes appended to
/// the output and whether decryption succeeded. No chunks at all is a
/// failure; a single chunk is opened as it is; several chunks must fit
/// `chunked_layout_ok` first.
pub open spec fn chunked_decryption(key: Seq<u8>, nonce: Seq<u8>, ct: Seq<u8>, total: nat) -> (Seq<u8>, bool) {
    if total == 0 {
        (Seq::empty(), false)
    } else if total == 1 {
        match open_chunk(key, nonce, ct) {
            Some(pt) => (pt, true),
            None => (failed_chunk_residue(ct.len()), false),
        }
    } else if !chunked_layout_ok(total, ct.len()) {
        (Seq::empty(), false)
    } else {
        decrypt_run(key, nonce, ct, total, total)
    }
}

/// Once a chunk has failed, later steps of `decrypt_run` change nothing.
proof fn lemma_decrypt_run_stops(key: Seq<u8>, nonce: Seq<u8>, ct: Seq<u8>, total: nat, m1: nat, m2: nat)
    requires
        m1 <= m2,
        !decrypt_run(key, nonce, ct, total, m1).1,
    ensures
        decrypt_run(key, nonce, ct, total, m2) == decrypt_run(key, nonce, ct, total, m1),
    decreases m2 - m1,
{
    if m1 < m2 {
        lemma_decrypt_run_stops(key, nonce, ct, total, m1, (m2 - 1) as nat);
    }
}

/// `ct` is what `encrypt_into` produces for `p` under `key` and `nonce`,
/// with `total` the chunk count it returns.
pub open spec fn produced_by_encryption(ct: Seq<u8>, p: Seq<u8>, key: Seq<u8>, nonce: Seq<u8>, total: nat) -> bool {
    &&& ct == encrypt_spec(p, key, nonce)
    &&& total == chunk_count(p.len())
    &&& sealed_sizes_ok(p, key, nonce, total)
}

/// The error text of a failed decryption of a ciphertext of `len` bytes in
/// `total` chunks.
pub open spec fn decrypt_error_text(total: nat, len: nat) -> Seq<char> {
    if total == 0 {
        "total_chunks cannot be 0"@
    } else if total == 1 {
        open_error_text(len)
    } else if len < (total - 1) * FULL_CHUNK_CIPHER_LEN {
        "Invalid ciphertext length for chunked data"@
    } else if !chunked_layout_ok(total, len) {
        "Invalid last chunk ciphertext length"@
    } else {
        open_error_text(FULL_CHUNK_CIPHER_LEN as nat)
    }
}

/// Decrypts a ciphertext of `total_chunks` chunks under an encryption key,
/// appending the plaintext to `output`.
pub fn decrypt_with_key(
    ciphertext: &[u8],
    encryption_key: &[u8; 32],
    nonce: &[u8; 12],
    total_chunks: u32,
    output: &mut Vec<u8>,
) -> (r: Result<(), String>)
    requires
        total_chunks >= 1 ==> (total_chunks - 1) * FULL_CHUNK_CIPHER_LEN <= usize::MAX,
        old(output)@.len() + ciphertext@.len() <= usize::MAX,
    ensures
        r is Ok <==> chunked_decryption(encryption_key@, nonce@, ciphertext@, total_chunks as nat).1,
        final(output)@ == old(output)@ + chunked_decryption(encryption_key@, nonce@, ciphertext@, total_chunks as nat).0,
        r matches Err(e) ==> e@ == decrypt_error_text(total_chunks as nat, ciphertext@.len()),
        r is Ok ==> final(output)@.len() == old(output)@.len() + ciphertext@.len() - TAG_LEN * total_chunks,
        forall|p: Seq<u8>|
            #[trigger] produced_by_encryption(ciphertext@, p, encryption_key@, nonce@, total_chunks as nat)
                ==> (r is Ok && final(output)@ == old(output)@ + p),
{
    let ghost key = encryption_key@;
    let ghost n = nonce@;
    let ghost ct = ciphertext@;
    let ghost total = total_chunks as nat;
    if total_chunks == 0 {
        assert(output@ =~= old(output)@ + Seq::<u8>::empty());
        assert forall|p: Seq<u8>| !#[trigger] produced_by_encryption(ct, p, key, n, total) by {
            if produced_by_encryption(ct, p, key, n, total) {
                lemma_chunk_count(p.len());
            }
        }
        return Err(String::from_str("total_chunks cannot be 0"));
    }
    if total_chunks == 1 {
        let res = decrypt_with_key_into(ciphertext, encryption_key, nonce, output);
        assert forall|p: Seq<u8>| #[trigger] produced_by_encryption(ct, p, key, n, total) implies
            (res is Ok && output@ == old(output)@ + p) by {
            lemma_encrypted_chunks(p, key, n);
            lemma_plain_chunk_len(p, 0);
            lemma_chunk_nonce_zero(n);
            assert(chunk_ciphertext(ct, total, 0) =~= ct);
            assert(plain_chunk(p, 0) =~= p);
            assert(sealed_chunk(p, key, n, 0) == chacha20poly1305_seal(key, n, p));
        }
        return res;
    }
    let full_chunks = (total_chunks - 1) as usize;
    let full_chunks_cipher_len = full_chunks * FULL_CHUNK_CIPHER_LEN;
    let last_chunk_cipher_len = match ciphertext.len().checked_sub(full_chunks_cipher_len) {
        Some(l) => l,
        None => {
            assert(output@ =~= old(output)@ + Seq::<u8>::empty());
            assert forall|p: Seq<u8>| !#[trigger] produced_by_encryption(ct, p, key, n, total) by {
                if produced_by_encryption(ct, p, key, n, total) {
                    lemma_encrypted_chunks(p, key, n);
                }
            }
            return Err(String::from_str("Invalid ciphertext length for chunked data"));
        },
    };
    if last_chunk_cipher_len < TAG_LEN || last_chunk_cipher_len > FULL_CHUNK_CIPHER_LEN {
        assert(output@ =~= old(output)@ + Seq::<u8>::empty());
        assert forall|p: Seq<u8>| !#[trigger] produced_by_encryption(ct, p, key, n, total) by {
            if produced_by_encryption(ct, p, key, n, total) {
                lemma_encrypted_chunks(p, key, n);
            }
        }
        return Err(String::from_str("Invalid last chunk ciphertext length"));
    }
    assert(chunked_layout_ok(total, ct.len()));
    let mut i: u32 = 0;
    while i < total_chunks
        invariant
            0 <= i <= total_chunks,
            total == total_chunks,
            total >= 2,
            key == encryption_key@,
            n == nonce@,
            ct == ciphertext@,
            chunked_layout_ok(total, ct.len()),
            (total - 1) * FULL_CHUNK_CIPHER_LEN <= usize::MAX,
            old(output)@.len() + ct.len() <= usize::MAX,
            decrypt_run(key, n, ct, total, i as nat).1,
            output@ == old(output)@ + decrypt_run(key, n, ct, total, i as nat).0,
            output@.len() == old(output)@.len() + (if i < total { i * CHUNK_SIZE } else { ct.len() - TAG_LEN * total }),
            forall|p: Seq<u8>|
                #[trigger] produced_by_encryption(ct, p, key, n, total)
                    ==> output@ == old(output)@ + p.subrange(0, plain_prefix_end(p.len(), total, i as nat)),
        decreases total_chunks - i,
    {
        assert(i * FULL_CHUNK_CIPHER_LEN <= (total - 1) * FULL_CHUNK_CIPHER_LEN);
        let start: usize = i as usize * FULL_CHUNK_CIPHER_LEN;
        let end: usize = if i == total_chunks - 1 { ciphertext.len() } else { start + FULL_CHUNK_CIPHER_LEN };
        assert(i + 1 < total ==> (i + 1) * FULL_CHUNK_CIPHER_LEN <= (total - 1) * FULL_CHUNK_CIPHER_LEN);
        let chunk_cipher = &ciphertext[start..end];
        assert(chunk_cipher@ == chunk_ciphertext(ct, total, i as int));
        let ghost before = output@;
        let res = decrypt_chunk_into(chunk_cipher, encryption_key, nonce, i, output);
        match res {
            Ok(()) => {
                assert(output@ =~= old(output)@ + decrypt_run(key, n, ct, total, (i + 1) as nat).0);
                assert(output@.len() == old(output)@.len() + (if i + 1 < total { (i + 1) * CHUNK_SIZE } else {
                    ct.len() - TAG_LEN * total
                })) by {
                    assert((i + 1) * CHUNK_SIZE == i * CHUNK_SIZE + CHUNK_SIZE);
                    assert(ct.len() - TAG_LEN * total == (total - 1) * CHUNK_SIZE + (ct.len() - (total - 1)
                        * FULL_CHUNK_CIPHER_LEN) - TAG_LEN);
                }
                assert forall|p: Seq<u8>| #[trigger] produced_by_encryption(ct, p, key, n, total) implies
                    output@ == old(output)@ + p.subrange(0, plain_prefix_end(p.len(), total, (i + 1) as nat)) by {
                    lemma_encrypted_chunks(p, key, n);
                    lemma_plain_chunk_len(p, i as int);
                    assert(sealed_chunk(p, key, n, i as int) == chunk_ciphertext(ct, total, i as int));
                    assert(before == old(output)@ + p.subrange(0, plain_prefix_end(p.len(), total, i as nat)));
                    assert(output@ == before + plain_chunk(p, i as int));
                    assert(p.subrange(0, plain_prefix_end(p.len(), total, i as nat)) + plain_chunk(p, i as int)
                        =~= p.subrange(0, plain_prefix_end(p.len(), total, (i + 1) as nat)));
                }
            },
            Err(e) => {
                assert(output@ =~= old(output)@ + decrypt_run(key, n, ct, total, (i + 1) as nat).0);
                assert forall|p: Seq<u8>| !#[trigger] produced_by_encryption(ct, p, key, n, total) by {
                    if produced_by_encryption(ct, p, key, n, total) {
                        lemma_encrypted_chunks(p, key, n);
                        lemma_plain_chunk_len(p, i as int);
                        assert(sealed_chunk(p, key, n, i as int) == chunk_ciphertext(ct, total, i as int));
                    }
                }
                proof {
                    lemma_decrypt_run_stops(key, n, ct, total, (i + 1) as nat, total);
                }
                return Err(e);
            },
        }
        i = i + 1;
    }
    assert forall|p: Seq<u8>| #[trigger] produced_by_encryption(ct, p, key, n, total) implies
        output@ == old(output)@ + p by {
        assert(p.subrange(0, p.len() as int) =~= p);
    }
    Ok(())
}

/// Encrypts `plaintext` with a fresh salt and base nonce under a key derived
/// from `password`. Returns the ciphertext, the base nonce, the salt, the
/// password validation tag and the number of chunks.
pub fn encrypt_content(
    plaintext: &[u8],
    password: &str,
) -> (r: Result<(Vec<u8>, [u8; 12], [u8; 16], [u8; 32], u32), String>)
    requires
        chunk_count(plaintext@.len()) <= u32::MAX,
        encrypted_len(plaintext@.len()) <= usize::MAX,
    ensures
        r matches Ok(out) ==> {
            &&& out.0@ == encrypt_spec(plaintext@, encryption_key_of(password.spec_bytes(), out.2@), out.1@)
            &&& out.4 == chunk_count(plaintext@.len())
            &&& out.0@.len() == encrypted_len(plaintext@.len())
            &&& produced_by_encryption(
                out.0@,
                plaintext@,
                encryption_key_of(password.spec_bytes(), out.2@),
                out.1@,
                out.4 as nat,
            )
            &&& out.3@ == hmac_sha256_spec(validation_key_of(password.spec_bytes(), out.2@), out.2@)
        },
        password.spec_bytes().len() > MAX_PWD_LEN ==> r is Err,
        r matches Err(e) ==> setup_error(e@, password.spec_bytes()),
{
    let (salt, base_nonce, encryption_key, password_hash) = match encrypt_setup(password) {
        Ok(setup) => setup,
        Err(e) => {
            return Err(e);
        },
    };
    let mut ciphertext: Vec<u8> = Vec::new();
    let res = encrypt_into(plaintext, &encryption_key, &base_nonce, &mut ciphertext);
    let total_chunks = match res {
        Ok(n) => n,
        Err(e) => {
            return Err(e);
        },
    };
    assert(ciphertext@ =~= encrypt_spec(plaintext@, encryption_key@, base_nonce@));
    Ok((ciphertext, base_nonce, salt, password_hash, total_chunks))
}

/// Derives the encryption key from `password` and `salt`, then decrypts a
/// ciphertext of `total_chunks` chunks, appending the plaintext to `output`.
pub fn decrypt_into(
    ciphertext: &[u8],
    nonce: &[u8; 12],
    password: &str,
    salt: &[u8],
    total_chunks: u32,
    output: &mut Vec<u8>,
) -> (r: Result<(), String>)
    requires
        total_chunks >= 1 ==> (total_chunks - 1) * FULL_CHUNK_CIPHER_LEN <= usize::MAX,
        old(output)@.len() + ciphertext@.len() <= usize::MAX,
    ensures
        kdf_inputs_rejected(password.spec_bytes(), salt@) ==> r is Err && final(output)@ == old(output)@,
        kdf_inputs_rejected(password.spec_bytes(), salt@) ==> (r matches Err(e) && has_prefix(e@, "Failed to derive key: "@)),
        !kdf_inputs_rejected(password.spec_bytes(), salt@) ==> {
            let key = encryption_key_of(password.spec_bytes(), salt@);
            &&& (r is Ok <==> chunked_decryption(key, nonce@, ciphertext@, total_chunks as nat).1)
            &&& final(output)@ == old(output)@ + chunked_decryption(key, nonce@, ciphertext@, total_chunks as nat).0
            &&& (r matches Err(e) ==> e@ == decrypt_error_text(total_chunks as nat, ciphertext@.len()))
        },
        r is Ok ==> final(output)@.len() == old(output)@.len() + ciphertext@.len() - TAG_LEN * total_chunks,
        forall|p: Seq<u8>|
            #[trigger] produced_by_encryption(ciphertext@, p, encryption_key_of(password.spec_bytes(), salt@), nonce@, total_chunks as nat)
                && !kdf_inputs_rejected(password.spec_bytes(), salt@) ==> (r is Ok && final(output)@ == old(output)@ + p),
{
    let (encryption_key, _validation_key) = match derive_keys(password, salt) {
        Ok(keys) => keys,
        Err(e) => {
            return Err(e);
        },
    };
    decrypt_with_key(ciphertext, &encryption_key, nonce, total_chunks, output)
}

/// Decrypts a whole paste into a fresh vector; the base nonce must be 12 bytes.
pub fn decrypt_content(
    ciphertext: &[u8],
    nonce: &[u8],
    password: &str,
    salt: &[u8],
    total_chunks: u32,
) -> (r: Result<Vec<u8>, String>)
    requires
        total_chunks >= 1 ==> (total_chunks - 1) * FULL_CHUNK_CIPHER_LEN <= usize::MAX,
    ensures
        nonce@.len() != 12 ==> (r matches Err(e) && e@ == "Nonce must be 12 bytes"@),
        nonce@.len() == 12 && kdf_inputs_rejected(password.spec_bytes(), salt@)
            ==> (r matches Err(e) && has_prefix(e@, "Failed to derive key: "@)),
        nonce@.len() == 12 && !kdf_inputs_rejected(password.spec_bytes(), salt@) ==> {
            let d = chunked_decryption(encryption_key_of(password.spec_bytes(), salt@), nonce@, ciphertext@, total_chunks as nat);
            &&& (r is Ok <==> d.1)
            &&& (r matches Ok(v) ==> v@ == d.0)
            &&& (r matches Err(e) ==> e@ == decrypt_error_text(total_chunks as nat, ciphertext@.len()))
        },
        r matches Ok(v) ==> v@.len() == ciphertext@.len() - TAG_LEN * total_chunks,
        forall|p: Seq<u8>|
            #[trigger] produced_by_encryption(ciphertext@, p, encryption_key_of(password.spec_bytes(), salt@), nonce@, total_chunks as nat)
                && nonce@.len() == 12 && !kdf_inputs_rejected(password.spec_bytes(), salt@)
                ==> (r matches Ok(v) && v@ == p),
{
    if nonce.len() != 12 {
        return Err(String::from_str("Nonce must be 12 bytes"));
    }
    let mut base_nonce = [0u8; 12];
    let mut i: usize = 0;
    while i < 12
        invariant
            0 <= i <= 12,
            nonce@.len() == 12,
            forall|j: int| 0 <= j < i ==> #[trigger] base_nonce@[j] == nonce@[j],
        decreases 12 - i,
    {
        base_nonce[i] = nonce[i];
        i = i + 1;
    }
    assert(base_nonce@ =~= nonce@);
    let mut output: Vec<u8> = Vec::new();
    let ct_len = ciphertext.len();
    assert(ciphertext@.len() == ct_len);
    match decrypt_into(ciphertext, &base_nonce, password, salt, total_chunks, &mut output) {
        Ok(()) => {
            assert(output@ =~= Seq::<u8>::empty() + output@);
            Ok(output)
        },
        Err(e) => Err(e),
    }
}

} // verus!
