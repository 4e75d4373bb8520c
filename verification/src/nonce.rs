use vstd::prelude::*;

verus! {

/// Byte `k` (0 = least significant) of the little-endian encoding of `idx`.
pub open spec fn le_byte(idx: u32, k: int) -> u8 {
    ((idx >> ((8 * k) as u32)) & 0xffu32) as u8
}

/// The nonce of chunk `idx`: the base nonce with its last four bytes
/// xor-ed with the little-endian bytes of the chunk index.
pub open spec fn chunk_nonce(base: Seq<u8>, idx: u32) -> Seq<u8> {
    Seq::new(12, |i: int| if 8 <= i < 12 { base[i] ^ le_byte(idx, i - 8) } else { base[i] })
}

/// Derives the nonce of chunk `chunk_index` from the paste's base nonce.
pub fn derive_chunk_nonce(base_nonce: &[u8; 12], chunk_index: u32) -> (nonce: [u8; 12])
    ensures
        nonce@ == chunk_nonce(base_nonce@, chunk_index),
{
    let mut nonce = *base_nonce;
    let mut i: usize = 0;
    while i < 4
        invariant
            0 <= i <= 4,
            nonce@.len() == 12,
            forall|j: int| 0 <= j < 8 + i ==> #[trigger] nonce@[j] == chunk_nonce(base_nonce@, chunk_index)[j],
            forall|j: int| 8 + i <= j < 12 ==> #[trigger] nonce@[j] == base_nonce@[j],
        decreases 4 - i,
    {
        let shift: u32 = (8 * i) as u32;
        let b: u8 = ((chunk_index >> shift) & 0xff) as u8;
        nonce[8 + i] = nonce[8 + i] ^ b;
        i = i + 1;
    }
    assert(nonce@ =~= chunk_nonce(base_nonce@, chunk_index));
    nonce
}

/// Chunk zero is encrypted under the base nonce itself.
pub proof fn lemma_chunk_nonce_zero(base: Seq<u8>)
    requires
        base.len() == 12,
    ensures
        chunk_nonce(base, 0) == base,
{
    assert forall|k: int| 0 <= k < 4 implies #[trigger] le_byte(0u32, k) == 0u8 by {
        let s: u32 = (8 * k) as u32;
        assert(((0u32 >> s) & 0xffu32) as u8 == 0u8) by (bit_vector);
    }
    assert forall|i: int| 8 <= i < 12 implies base[i] ^ le_byte(0u32, i - 8) == base[i] by {
        let b = base[i];
        assert(b ^ 0u8 == b) by (bit_vector);
    }
    assert(chunk_nonce(base, 0) =~= base);
}

/// Distinct chunks of a paste are sealed under distinct nonces: the chunk
/// index is xor-ed into the last four bytes, so different indices give
/// different nonces for every base nonce.
pub proof fn lemma_chunk_nonces_distinct(base: Seq<u8>, i: u32, j: u32)
    requires
        base.len() == 12,
        i != j,
    ensures
        chunk_nonce(base, i) != chunk_nonce(base, j),
{
    let k: int = if le_byte(i, 0) != le_byte(j, 0) {
        0
    } else if le_byte(i, 1) != le_byte(j, 1) {
        1
    } else if le_byte(i, 2) != le_byte(j, 2) {
        2
    } else {
        3
    };
    assert(le_byte(i, k) != le_byte(j, k)) by {
        assert(((i >> 0u32) & 0xffu32) == ((j >> 0u32) & 0xffu32)
            && ((i >> 8u32) & 0xffu32) == ((j >> 8u32) & 0xffu32)
            && ((i >> 16u32) & 0xffu32) == ((j >> 16u32) & 0xffu32)
            && ((i >> 24u32) & 0xffu32) == ((j >> 24u32) & 0xffu32) ==> i == j) by (bit_vector);
        assert(((i >> 0u32) & 0xffu32) < 256 && ((j >> 0u32) & 0xffu32) < 256
            && ((i >> 8u32) & 0xffu32) < 256 && ((j >> 8u32) & 0xffu32) < 256
            && ((i >> 16u32) & 0xffu32) < 256 && ((j >> 16u32) & 0xffu32) < 256
            && ((i >> 24u32) & 0xffu32) < 256 && ((j >> 24u32) & 0xffu32) < 256) by (bit_vector);
    }
    let b = base[8 + k];
    let x = le_byte(i, k);
    let y = le_byte(j, k);
    assert(x != y ==> b ^ x != b ^ y) by (bit_vector);
    assert(chunk_nonce(base, i)[8 + k] != chunk_nonce(base, j)[8 + k]);
}

} // verus!
