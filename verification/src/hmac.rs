use sha2::Digest;
use vstd::prelude::*;

use crate::bytes::{append_bytes, bytes_to_vec};

verus! {

/// Block size of SHA-256 in bytes, which is also the HMAC key block size.
pub const HMAC_BLOCK: usize = 64;

/// The SHA-256 digest of `data`, as computed by the `sha2` crate.
pub uninterp spec fn sha256_digest(data: Seq<u8>) -> Seq<u8>;

/// Trusted: `sha2::Sha256::digest` (through the `Digest` trait). The contract
/// claims only that the 32 bytes returned are the SHA-256 digest of the input,
/// a function of the input alone.
#[verifier::external_body]
pub(crate) fn sha256(data: &[u8]) -> (digest: [u8; 32])
    ensures
        digest@ == sha256_digest(data@),
{
    sha2::Sha256::digest(data).into()
}

/// The HMAC key block: keys longer than a block are hashed first, then the
/// key is cut or zero-padded to exactly one block.
pub open spec fn hmac_key_block(key: Seq<u8>) -> Seq<u8> {
    let k = if key.len() > HMAC_BLOCK { sha256_digest(key) } else { key };
    Seq::new(HMAC_BLOCK as nat, |i: int| if i < k.len() { k[i] } else { 0u8 })
}

/// `pad` xor-ed into every byte of `block`.
pub open spec fn xor_pad(block: Seq<u8>, pad: u8) -> Seq<u8> {
    Seq::new(block.len(), |i: int| pad ^ block[i])
}

/// HMAC-SHA256 (RFC 2104) of `data` under `key`.
pub open spec fn hmac_sha256_spec(key: Seq<u8>, data: Seq<u8>) -> Seq<u8> {
    let kb = hmac_key_block(key);
    sha256_digest(xor_pad(kb, 0x5cu8) + sha256_digest(xor_pad(kb, 0x36u8) + data))
}

/// HMAC-SHA256 of `data` under `key`, built from SHA-256 as RFC 2104 defines it.
fn hmac_sha256(key: &[u8], data: &[u8]) -> (tag: [u8; 32])
    ensures
        tag@ == hmac_sha256_spec(key@, data@),
{
    let k: Vec<u8> = if key.len() > HMAC_BLOCK {
        let d = sha256(key);
        bytes_to_vec(d.as_slice())
    } else {
        bytes_to_vec(key)
    };
    let ghost kb = hmac_key_block(key@);
    assert(k@ == (if key@.len() > HMAC_BLOCK { sha256_digest(key@) } else { key@ }));

    let mut ipad: Vec<u8> = Vec::new();
    let mut opad: Vec<u8> = Vec::new();
    let mut i: usize = 0;
    while i < HMAC_BLOCK
        invariant
            0 <= i <= HMAC_BLOCK,
            k@ == (if key@.len() > HMAC_BLOCK { sha256_digest(key@) } else { key@ }),
            kb == hmac_key_block(key@),
            ipad@ == xor_pad(kb, 0x36u8).subrange(0, i as int),
            opad@ == xor_pad(kb, 0x5cu8).subrange(0, i as int),
        decreases HMAC_BLOCK - i,
    {
        let kbyte: u8 = if i < k.len() { k[i] } else { 0u8 };
        ipad.push(0x36u8 ^ kbyte);
        opad.push(0x5cu8 ^ kbyte);
        i = i + 1;
        assert(ipad@ =~= xor_pad(kb, 0x36u8).subrange(0, i as int));
        assert(opad@ =~= xor_pad(kb, 0x5cu8).subrange(0, i as int));
    }
    assert(ipad@ =~= xor_pad(kb, 0x36u8));
    assert(opad@ =~= xor_pad(kb, 0x5cu8));

    let mut inner_input = ipad;
    append_bytes(&mut inner_input, data);
    let inner_hash = sha256(inner_input.as_slice());

    let mut outer_input = opad;
    append_bytes(&mut outer_input, inner_hash.as_slice());
    sha256(outer_input.as_slice())
}

/// The password validation tag that the server stores and compares:
/// HMAC-SHA256 of the salt under the validation key.
pub fn compute_password_hash(validation_key: &[u8; 32], salt: &[u8]) -> (hash: [u8; 32])
    ensures
        hash@ == hmac_sha256_spec(validation_key@, salt@),
{
    hmac_sha256(validation_key.as_slice(), salt)
}

} // verus!
