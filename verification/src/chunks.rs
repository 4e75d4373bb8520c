use vstd::prelude::*;

use crate::aead::TAG_LEN;
pub use crate::types::CHUNK_SIZE;

verus! {

/// Ciphertext bytes of a full chunk: the plaintext plus its tag.
pub const FULL_CHUNK_CIPHER_LEN: usize = 65552;

/// Number of encryption chunks of a plaintext of `len` bytes: one for the
/// empty plaintext, otherwise `len / CHUNK_SIZE` rounded up.
pub open spec fn chunk_count(len: nat) -> nat {
    if len == 0 {
        1
    } else {
        ((len + (CHUNK_SIZE - 1)) / (CHUNK_SIZE as int)) as nat
    }
}

/// Start of plaintext chunk `i`.
pub open spec fn chunk_start(i: int) -> int {
    i * CHUNK_SIZE
}

/// End of plaintext chunk `i` in a plaintext of `len` bytes.
pub open spec fn chunk_end(len: nat, i: int) -> int {
    if len - chunk_start(i) > CHUNK_SIZE {
        chunk_start(i) + CHUNK_SIZE
    } else {
        len as int
    }
}

/// Plaintext chunk `i` of `p`.
pub open spec fn plain_chunk(p: Seq<u8>, i: int) -> Seq<u8> {
    p.subrange(chunk_start(i), chunk_end(p.len(), i))
}

/// Size of the ciphertext of a plaintext of `len` bytes: every chunk gains a tag.
pub open spec fn encrypted_len(len: nat) -> nat {
    len + (TAG_LEN as nat) * chunk_count(len)
}

/// The `(start, end)` byte range of ciphertext chunk `i` when the whole
/// ciphertext of `total` chunks has `len` bytes.
pub open spec fn chunk_bounds(total: nat, i: int, len: nat) -> (int, int) {
    let start = i * FULL_CHUNK_CIPHER_LEN;
    let end = if i == total - 1 { len as int } else { start + FULL_CHUNK_CIPHER_LEN };
    (start, end)
}

/// Whether a ciphertext of `len` bytes can hold `total` chunks: all but the
/// last are full, and the last holds at least a tag and at most a full chunk.
pub open spec fn chunked_layout_ok(total: nat, len: nat) -> bool {
    let full_len = (total - 1) * FULL_CHUNK_CIPHER_LEN;
    len >= full_len && len - full_len >= TAG_LEN && len - full_len <= FULL_CHUNK_CIPHER_LEN
}

/// The plaintext size that a ciphertext of `len` bytes in `total` chunks
/// carries, or `None` where the length cannot be such a ciphertext.
pub open spec fn plaintext_size(total: nat, len: nat) -> Option<nat> {
    if total == 0 {
        None
    } else if total == 1 {
        if len >= TAG_LEN { Some((len - TAG_LEN) as nat) } else { None }
    } else if !chunked_layout_ok(total, len) {
        None
    } else {
        let full = (total - 1) as nat;
        Some((full * CHUNK_SIZE + (len - full * FULL_CHUNK_CIPHER_LEN - TAG_LEN)) as nat)
    }
}

/// Facts about `chunk_count`: the last chunk starts before the end of a
/// non-empty plaintext and every chunk fits.
pub proof fn lemma_chunk_count(len: nat)
    ensures
        chunk_count(len) >= 1,
        len > 0 ==> (chunk_count(len) - 1) * CHUNK_SIZE < len <= chunk_count(len) * CHUNK_SIZE,
        chunk_count(len) <= len + 1,
{
    if len > 0 {
        let c = chunk_count(len);
        assert(c == (len + 65535) / 65536);
        assert((len + 65535) / 65536 * 65536 <= len + 65535) by (nonlinear_arith);
        assert((len + 65535) / 65536 * 65536 > len + 65535 - 65536) by (nonlinear_arith);
    }
}

/// Computes the `(start, end)` byte range of chunk `chunk_index` in a
/// ciphertext of `ciphertext_len` bytes made of `total_chunks` chunks.
pub fn get_chunk_bounds(total_chunks: u32, chunk_index: u32, ciphertext_len: usize) -> (bounds: (usize, usize))
    requires
        total_chunks >= 1,
        chunk_index * FULL_CHUNK_CIPHER_LEN <= usize::MAX,
        chunk_index != total_chunks - 1 ==> chunk_index * FULL_CHUNK_CIPHER_LEN + FULL_CHUNK_CIPHER_LEN <= usize::MAX,
    ensures
        bounds.0 == chunk_bounds(total_chunks as nat, chunk_index as int, ciphertext_len as nat).0,
        bounds.1 == chunk_bounds(total_chunks as nat, chunk_index as int, ciphertext_len as nat).1,
{
    let start = chunk_index as usize * FULL_CHUNK_CIPHER_LEN;
    let end = if chunk_index == total_chunks - 1 {
        ciphertext_len
    } else {
        start + FULL_CHUNK_CIPHER_LEN
    };
    (start, end)
}

/// Computes the plaintext size carried by a ciphertext of `ciphertext_len`
/// bytes in `total_chunks` chunks.
pub fn get_plaintext_size(total_chunks: u32, ciphertext_len: usize) -> (r: Result<usize, String>)
    requires
        total_chunks >= 2 ==> (total_chunks - 1) * FULL_CHUNK_CIPHER_LEN <= usize::MAX,
    ensures
        r is Ok <==> plaintext_size(total_chunks as nat, ciphertext_len as nat) is Some,
        r matches Ok(size) ==> size == plaintext_size(total_chunks as nat, ciphertext_len as nat).unwrap(),
        total_chunks == 0 ==> (r matches Err(e) && e@ == "total_chunks cannot be 0"@),
        total_chunks == 1 && ciphertext_len < TAG_LEN ==> (r matches Err(e) && e@ == "Invalid single chunk"@),
        total_chunks >= 2 && ciphertext_len < (total_chunks - 1) * FULL_CHUNK_CIPHER_LEN
            ==> (r matches Err(e) && e@ == "Invalid ciphertext length"@),
        total_chunks >= 2 && ciphertext_len >= (total_chunks - 1) * FULL_CHUNK_CIPHER_LEN
            && !chunked_layout_ok(total_chunks as nat, ciphertext_len as nat)
            ==> (r matches Err(e) && e@ == "Invalid last chunk length"@),
{
    if total_chunks == 0 {
        return Err(String::from_str("total_chunks cannot be 0"));
    }
    if total_chunks == 1 {
        return match ciphertext_len.checked_sub(TAG_LEN) {
            Some(size) => Ok(size),
            None => Err(String::from_str("Invalid single chunk")),
        };
    }
    let full_chunks = (total_chunks - 1) as usize;
    let full_chunks_cipher_len = full_chunks * FULL_CHUNK_CIPHER_LEN;
    let last_chunk_cipher_len = match ciphertext_len.checked_sub(full_chunks_cipher_len) {
        Some(l) => l,
        None => {
            return Err(String::from_str("Invalid ciphertext length"));
        },
    };
    if last_chunk_cipher_len < TAG_LEN || last_chunk_cipher_len > FULL_CHUNK_CIPHER_LEN {
        return Err(String::from_str("Invalid last chunk length"));
    }
    assert(full_chunks * CHUNK_SIZE <= full_chunks * FULL_CHUNK_CIPHER_LEN);
    Ok(full_chunks * CHUNK_SIZE + (last_chunk_cipher_len - TAG_LEN))
}

/// The plaintext size recovered from a ciphertext's length is the length of
/// the plaintext it was encrypted from: `get_plaintext_size` undoes the
/// size growth of encryption.
pub proof fn lemma_plaintext_size_of_encryption(len: nat)
    ensures
        plaintext_size(chunk_count(len), encrypted_len(len)) == Some(len),
{
    lemma_chunk_count(len);
    let total = chunk_count(len);
    if total >= 2 {
        let full = (total - 1) as nat;
        assert(encrypted_len(len) == len + 16 * total);
        assert(encrypted_len(len) - full * FULL_CHUNK_CIPHER_LEN == len - full * CHUNK_SIZE + 16);
        assert(chunked_layout_ok(total, encrypted_len(len)));
    }
}

/// The chunk bounds of a well-laid-out ciphertext cut it into consecutive
/// pieces: the first starts at 0, each ends where the next starts, the last
/// ends at the ciphertext's end, and every full chunk is a full chunk long.
pub proof fn lemma_chunk_bounds_partition(total: nat, len: nat, i: int)
    requires
        total >= 1,
        total == 1 || chunked_layout_ok(total, len),
        0 <= i < total,
    ensures
        chunk_bounds(total, 0, len).0 == 0,
        0 <= chunk_bounds(total, i, len).0 <= chunk_bounds(total, i, len).1 <= len,
        i + 1 < total ==> chunk_bounds(total, i, len).1 == chunk_bounds(total, i + 1, len).0,
        i + 1 < total ==> chunk_bounds(total, i, len).1 - chunk_bounds(total, i, len).0 == FULL_CHUNK_CIPHER_LEN,
        chunk_bounds(total, total - 1, len).1 == len,
{
    if total >= 2 {
        assert(i * FULL_CHUNK_CIPHER_LEN <= (total - 1) * FULL_CHUNK_CIPHER_LEN);
        if i + 1 < total {
            assert((i + 1) * FULL_CHUNK_CIPHER_LEN <= (total - 1) * FULL_CHUNK_CIPHER_LEN);
        }
    }
}

} // verus!
