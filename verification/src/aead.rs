use orion::errors::UnknownCryptoError;
use orion::hazardous::aead::chacha20poly1305::{ChaCha20Poly1305, Nonce, SecretKey};
use vstd::prelude::*;

use crate::bytes::append_zeros;
use crate::nonce::{chunk_nonce, derive_chunk_nonce};

verus! {

#[verifier::external_type_specification]
#[verifier::external_body]
pub struct ExUnknownCryptoError(UnknownCryptoError);

/// Length of the Poly1305 tag appended to every sealed chunk.
pub const TAG_LEN: usize = 16;

/// Largest plaintext ChaCha20-Poly1305 accepts (RFC 8439): 2^32 - 1 blocks of 64 bytes.
pub const P_MAX: u64 = 274877906880;

/// Largest ciphertext-with-tag ChaCha20-Poly1305 accepts.
pub const C_MAX: u64 = 274877906896;

/// The ciphertext-with-tag that ChaCha20-Poly1305 produces for `plaintext`
/// under `key` and `nonce`, with no associated data.
pub uninterp spec fn chacha20poly1305_seal(key: Seq<u8>, nonce: Seq<u8>, plaintext: Seq<u8>) -> Seq<u8>;

/// What ChaCha20-Poly1305 authenticates and decrypts `ciphertext` to under
/// `key` and `nonce` (no associated data); `None` when the tag does not verify.
pub uninterp spec fn chacha20poly1305_open(key: Seq<u8>, nonce: Seq<u8>, ciphertext: Seq<u8>) -> Option<Seq<u8>>;

/// Trusted: `ChaCha20Poly1305::seal` of the `orion` crate, writing into
/// `output[offset..]`. Claims what its source shows: it fails exactly when the
/// plaintext exceeds `P_MAX` or the space after `offset` is shorter than the
/// plaintext plus the tag, and then writes nothing; on success the first
/// `plaintext.len() + 16` bytes after `offset` hold the sealed chunk and the
/// rest of the vector is unchanged.
#[verifier::external_body]
fn seal_into(
    key: &[u8; 32],
    nonce: &[u8; 12],
    plaintext: &[u8],
    output: &mut Vec<u8>,
    offset: usize,
) -> (r: Result<(), UnknownCryptoError>)
    requires
        offset <= old(output)@.len(),
    ensures
        final(output)@.len() == old(output)@.len(),
        r is Ok <==> (plaintext@.len() <= P_MAX && plaintext@.len() + TAG_LEN <= old(output)@.len() - offset),
        r is Ok ==> final(output)@ == old(output)@.subrange(0, offset as int)
            + chacha20poly1305_seal(key@, nonce@, plaintext@)
            + old(output)@.subrange(offset + plaintext@.len() + TAG_LEN, old(output)@.len() as int),
        r is Ok ==> chacha20poly1305_seal(key@, nonce@, plaintext@).len() == plaintext@.len() + TAG_LEN,
        r is Err ==> final(output)@ == old(output)@,
{
    let sk = SecretKey::from(*key);
    let n = Nonce::from(*nonce);
    ChaCha20Poly1305::seal(&sk, &n, plaintext, None, &mut output[offset..])
}

/// Trusted: `ChaCha20Poly1305::open` of the `orion` crate, writing into
/// `output[offset..]`. Claims what its source shows: it succeeds exactly when
/// the ciphertext holds at least a tag and at most `C_MAX` bytes, the space
/// after `offset` takes the plaintext and the tag verifies; the output buffer
/// is not touched before the tag has been checked; and a ciphertext sealed
/// under the same key and nonce opens to the plaintext it was sealed from.
#[verifier::external_body]
fn open_into(
    key: &[u8; 32],
    nonce: &[u8; 12],
    ciphertext: &[u8],
    output: &mut Vec<u8>,
    offset: usize,
) -> (r: Result<(), UnknownCryptoError>)
    requires
        offset <= old(output)@.len(),
    ensures
        final(output)@.len() == old(output)@.len(),
        r is Ok <==> (TAG_LEN <= ciphertext@.len() <= C_MAX
            && ciphertext@.len() - TAG_LEN <= old(output)@.len() - offset
            && chacha20poly1305_open(key@, nonce@, ciphertext@) is Some),
        r is Ok ==> final(output)@ == old(output)@.subrange(0, offset as int)
            + chacha20poly1305_open(key@, nonce@, ciphertext@).unwrap()
            + old(output)@.subrange(offset + ciphertext@.len() - TAG_LEN, old(output)@.len() as int),
        r is Ok ==> chacha20poly1305_open(key@, nonce@, ciphertext@).unwrap().len() == ciphertext@.len() - TAG_LEN,
        r is Err ==> final(output)@ == old(output)@,
        forall|p: Seq<u8>|
            #[trigger] chacha20poly1305_seal(key@, nonce@, p) == ciphertext@ && p.len() <= P_MAX
                && p.len() <= old(output)@.len() - offset
                ==> (r is Ok && chacha20poly1305_open(key@, nonce@, ciphertext@) == Some(p)
                    && ciphertext@.len() == p.len() + TAG_LEN),
{
    let sk = SecretKey::from(*key);
    let n = Nonce::from(*nonce);
    ChaCha20Poly1305::open(&sk, &n, ciphertext, None, &mut output[offset..])
}

/// Seals one chunk of plaintext and appends ciphertext and tag to `output`.
pub fn encrypt_chunk_into(
    plaintext: &[u8],
    encryption_key: &[u8; 32],
    base_nonce: &[u8; 12],
    chunk_index: u32,
    output: &mut Vec<u8>,
) -> (r: Result<(), String>)
    requires
        old(output)@.len() + plaintext@.len() + TAG_LEN <= usize::MAX,
    ensures
        r is Ok <==> plaintext@.len() <= P_MAX,
        r is Ok ==> final(output)@ == old(output)@ + chacha20poly1305_seal(
            encryption_key@,
            chunk_nonce(base_nonce@, chunk_index),
            plaintext@,
        ),
        r is Ok ==> chacha20poly1305_seal(encryption_key@, chunk_nonce(base_nonce@, chunk_index), plaintext@).len()
            == plaintext@.len() + TAG_LEN,
        r is Err ==> final(output)@ == old(output)@ + Seq::new((plaintext@.len() + TAG_LEN) as nat, |_i: int| 0u8),
        r matches Err(e) ==> e@ == "Failed to encrypt: UnknownCryptoError"@,
{
    let chunk_nonce = derive_chunk_nonce(base_nonce, chunk_index);
    let offset = output.len();
    append_zeros(output, plaintext.len() + TAG_LEN);
    let ghost grown = output@;
    match seal_into(encryption_key, &chunk_nonce, plaintext, output, offset) {
        Ok(()) => {
            assert(grown.subrange(offset + plaintext@.len() + TAG_LEN, grown.len() as int) =~= Seq::<u8>::empty());
            assert(grown.subrange(0, offset as int) =~= old(output)@);
            assert(output@ =~= old(output)@ + chacha20poly1305_seal(encryption_key@, chunk_nonce@, plaintext@));
            Ok(())
        },
        Err(_) => Err(String::from_str("Failed to encrypt: UnknownCryptoError")),
    }
}

/// What opening one sealed chunk yields: `None` when it is shorter than a
/// tag, longer than `C_MAX`, or its tag does not verify.
pub open spec fn open_chunk(key: Seq<u8>, nonce: Seq<u8>, ciphertext: Seq<u8>) -> Option<Seq<u8>> {
    if TAG_LEN <= ciphertext.len() <= C_MAX {
        chacha20poly1305_open(key, nonce, ciphertext)
    } else {
        None
    }
}

/// The bytes a failed chunk decryption leaves behind in the output: room for
/// the plaintext is zero-filled before the tag is checked, unless the chunk
/// is too short to hold a tag.
pub open spec fn failed_chunk_residue(ciphertext_len: nat) -> Seq<u8> {
    if ciphertext_len < TAG_LEN {
        Seq::empty()
    } else {
        Seq::new((ciphertext_len - TAG_LEN) as nat, |_i: int| 0u8)
    }
}

/// The error text of a chunk that does not open: too short to hold a tag,
/// or failing authentication.
pub open spec fn open_error_text(ciphertext_len: nat) -> Seq<char> {
    if ciphertext_len < TAG_LEN {
        "Ciphertext too short"@
    } else {
        "Failed to decrypt: UnknownCryptoError. Password may be incorrect."@
    }
}

/// Authenticates and decrypts one sealed chunk under `nonce`, appending the
/// plaintext to `output`.
pub fn decrypt_with_key_into(
    ciphertext: &[u8],
    encryption_key: &[u8; 32],
    nonce: &[u8; 12],
    output: &mut Vec<u8>,
) -> (r: Result<(), String>)
    requires
        old(output)@.len() + ciphertext@.len() <= usize::MAX,
    ensures
        r is Ok <==> open_chunk(encryption_key@, nonce@, ciphertext@) is Some,
        r is Ok ==> final(output)@ == old(output)@ + open_chunk(encryption_key@, nonce@, ciphertext@).unwrap(),
        r is Err ==> final(output)@ == old(output)@ + failed_chunk_residue(ciphertext@.len()),
        r matches Err(e) ==> e@ == open_error_text(ciphertext@.len()),
        r is Ok ==> final(output)@.len() == old(output)@.len() + ciphertext@.len() - TAG_LEN,
        final(output)@.len() <= old(output)@.len() + ciphertext@.len(),
        forall|p: Seq<u8>|
            #[trigger] chacha20poly1305_seal(encryption_key@, nonce@, p) == ciphertext@ && p.len() <= P_MAX
                && ciphertext@.len() == p.len() + TAG_LEN ==> (r is Ok && final(output)@ == old(output)@ + p),
{
    if ciphertext.len() < TAG_LEN {
        assert(failed_chunk_residue(ciphertext@.len()) =~= Seq::<u8>::empty());
        assert(output@ =~= old(output)@ + failed_chunk_residue(ciphertext@.len()));
        return Err(String::from_str("Ciphertext too short"));
    }
    let offset = output.len();
    append_zeros(output, ciphertext.len() - TAG_LEN);
    let ghost grown = output@;
    let res = open_into(encryption_key, nonce, ciphertext, output, offset);
    assert(grown.subrange(0, offset as int) =~= old(output)@);
    assert(grown.subrange(offset + ciphertext@.len() - TAG_LEN, grown.len() as int) =~= Seq::<u8>::empty());
    match res {
        Ok(()) => {
            assert(output@ =~= old(output)@ + open_chunk(encryption_key@, nonce@, ciphertext@).unwrap());
            Ok(())
        },
        Err(_) => {
            assert(output@ =~= old(output)@ + failed_chunk_residue(ciphertext@.len()));
            Err(String::from_str("Failed to decrypt: UnknownCryptoError. Password may be incorrect."))
        },
    }
}

/// Authenticates and decrypts chunk `chunk_index` of a paste, appending the
/// plaintext to `output`.
pub fn decrypt_chunk_into(
    ciphertext: &[u8],
    encryption_key: &[u8; 32],
    base_nonce: &[u8; 12],
    chunk_index: u32,
    output: &mut Vec<u8>,
) -> (r: Result<(), String>)
    requires
        old(output)@.len() + ciphertext@.len() <= usize::MAX,
    ensures
        r is Ok <==> open_chunk(encryption_key@, chunk_nonce(base_nonce@, chunk_index), ciphertext@) is Some,
        r is Ok ==> final(output)@ == old(output)@
            + open_chunk(encryption_key@, chunk_nonce(base_nonce@, chunk_index), ciphertext@).unwrap(),
        r is Err ==> final(output)@ == old(output)@ + failed_chunk_residue(ciphertext@.len()),
        r matches Err(e) ==> e@ == open_error_text(ciphertext@.len()),
        r is Ok ==> final(output)@.len() == old(output)@.len() + ciphertext@.len() - TAG_LEN,
        final(output)@.len() <= old(output)@.len() + ciphertext@.len(),
        forall|p: Seq<u8>|
            #[trigger] chacha20poly1305_seal(encryption_key@, chunk_nonce(base_nonce@, chunk_index), p)
                == ciphertext@ && p.len() <= P_MAX && ciphertext@.len() == p.len() + TAG_LEN
                ==> (r is Ok && final(output)@ == old(output)@ + p),
{
    let chunk_nonce = derive_chunk_nonce(base_nonce, chunk_index);
    decrypt_with_key_into(ciphertext, encryption_key, &chunk_nonce, output)
}

} // verus!
