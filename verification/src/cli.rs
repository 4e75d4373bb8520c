use vstd::prelude::*;

use crate::aead::{chacha20poly1305_seal, decrypt_chunk_into, encrypt_chunk_into, failed_chunk_residue, open_chunk, TAG_LEN};
use crate::chunks::{
    chunk_bounds, chunk_count, chunked_layout_ok, encrypted_len, get_chunk_bounds, lemma_chunk_bounds_partition,
    lemma_chunk_count, plain_chunk, plaintext_size, FULL_CHUNK_CIPHER_LEN,
};
use crate::content::{
    chunk_ciphertext, encrypt_spec, lemma_encrypted_chunks, lemma_plain_chunk_len, plain_prefix_end,
    produced_by_encryption, sealed_chunk, sealed_prefix,
};
use crate::nonce::chunk_nonce;
use crate::types::{CHUNK_SIZE, UPLOAD_CHUNK_SIZE};

verus! {

/// How many encryption chunks a plaintext of `len` bytes is cut into.
pub fn encryption_chunks(len: usize) -> (n: usize)
    ensures
        n == chunk_count(len as nat),
{
    if len == 0 {
        return 1;
    }
    let n = len / CHUNK_SIZE + if len % CHUNK_SIZE == 0 { 0 } else { 1 };
    assert(n == chunk_count(len as nat)) by (nonlinear_arith)
        requires
            len > 0,
            n == len / 65536 + if len % 65536 == 0 { 0int } else { 1int },
            chunk_count(len as nat) == (len + 65535) / 65536,
    ;
    n
}

/// The ciphertext size a client expects for a paste of `total_size`
/// plaintext bytes in `total_chunks` chunks; 0 when the size is too small
/// for that many chunks.
pub open spec fn encrypted_size_spec(total_size: u64, total_chunks: u32) -> int {
    if total_chunks <= 1 {
        total_size + TAG_LEN
    } else if total_size < (total_chunks - 1) * CHUNK_SIZE {
        0
    } else {
        total_size + TAG_LEN * total_chunks
    }
}

/// Computes the expected ciphertext size of a paste from its plaintext size
/// and chunk count, as announced by the server.
pub fn encrypted_size(total_size: u64, total_chunks: u32) -> (size: usize)
    requires
        total_size + TAG_LEN * (if total_chunks <= 1 { 1 } else { total_chunks as int }) <= usize::MAX,
        total_chunks >= 1 ==> (total_chunks - 1) * FULL_CHUNK_CIPHER_LEN <= usize::MAX,
    ensures
        size == encrypted_size_spec(total_size, total_chunks),
{
    let size = total_size as usize;
    if total_chunks <= 1 {
        size + TAG_LEN
    } else if size < (total_chunks as usize - 1) * CHUNK_SIZE {
        0
    } else {
        let full = (total_chunks as usize - 1) * FULL_CHUNK_CIPHER_LEN;
        let last = size - (total_chunks as usize - 1) * CHUNK_SIZE + TAG_LEN;
        full + last
    }
}

/// The ciphertext size the client expects is the size encryption produces,
/// and the server's plaintext size of that ciphertext is the announced size:
/// the client's and the server's size computations agree.
pub proof fn lemma_sizes_agree(total_size: u64)
    requires
        chunk_count(total_size as nat) <= u32::MAX,
    ensures
        encrypted_size_spec(total_size, chunk_count(total_size as nat) as u32) == encrypted_len(total_size as nat),
        plaintext_size(chunk_count(total_size as nat), encrypted_len(total_size as nat)) == Some(total_size as nat),
{
    lemma_chunk_count(total_size as nat);
    crate::chunks::lemma_plaintext_size_of_encryption(total_size as nat);
}

/// Number of upload pieces of a ciphertext of `len` bytes.
pub open spec fn upload_piece_count(len: nat) -> nat {
    ((len + (UPLOAD_CHUNK_SIZE - 1)) / (UPLOAD_CHUNK_SIZE as int)) as nat
}

/// How many upload pieces a ciphertext of `len` bytes is sent in.
pub fn upload_pieces(len: usize) -> (n: usize)
    ensures
        n == upload_piece_count(len as nat),
{
    let n = len / UPLOAD_CHUNK_SIZE + if len % UPLOAD_CHUNK_SIZE == 0 { 0 } else { 1 };
    assert(n == upload_piece_count(len as nat)) by (nonlinear_arith)
        requires
            n == len / 16777216 + if len % 16777216 == 0 { 0int } else { 1int },
            upload_piece_count(len as nat) == (len + 16777215) / 16777216,
    ;
    n
}

/// The byte range of upload piece `i` of a ciphertext of `len` bytes.
pub open spec fn piece_bounds(i: int, len: int) -> (int, int) {
    let start = i * UPLOAD_CHUNK_SIZE;
    (start, if len - start > UPLOAD_CHUNK_SIZE { start + UPLOAD_CHUNK_SIZE } else { len })
}

/// The upload pieces of a non-empty ciphertext cut it into consecutive,
/// non-empty ranges: the first starts at 0, each ends where the next
/// starts, and the last ends at the ciphertext's end.
pub proof fn lemma_upload_pieces_cover(len: nat, i: int)
    requires
        len > 0,
        0 <= i < upload_piece_count(len),
    ensures
        piece_bounds(0, len as int).0 == 0,
        piece_bounds(i, len as int).0 < piece_bounds(i, len as int).1 <= len,
        i + 1 < upload_piece_count(len) ==> piece_bounds(i, len as int).1 == piece_bounds(i + 1, len as int).0,
        piece_bounds(upload_piece_count(len) - 1, len as int).1 == len,
{
    let n = upload_piece_count(len) as int;
    let u = UPLOAD_CHUNK_SIZE as int;
    assert((n - 1) * u < len <= n * u) by (nonlinear_arith)
        requires
            len > 0,
            u == 16777216,
            n == (len + (u - 1)) / u,
    ;
    assert(i * u <= (n - 1) * u) by (nonlinear_arith)
        requires
            i <= n - 1,
            u > 0,
    ;
    if i + 1 < n {
        assert((i + 1) * u <= (n - 1) * u) by (nonlinear_arith)
            requires
                i + 1 <= n - 1,
                u > 0,
        ;
        assert((i + 1) * u == i * u + u) by (nonlinear_arith);
    }
    assert(0 * u == 0) by (nonlinear_arith);
}

/// The byte range of upload piece `i` of a ciphertext of `len` bytes.
pub fn upload_piece_bounds(i: usize, len: usize) -> (bounds: (usize, usize))
    requires
        i * UPLOAD_CHUNK_SIZE <= len,
    ensures
        (bounds.0 as int, bounds.1 as int) == piece_bounds(i as int, len as int),
{
    let start = i * UPLOAD_CHUNK_SIZE;
    let end = if len - start > UPLOAD_CHUNK_SIZE { start + UPLOAD_CHUNK_SIZE } else { len };
    (start, end)
}

/// `a / b` rounded up.
pub open spec fn div_ceil(a: int, b: int) -> int {
    (a + b - 1) / b
}

/// The inclusive byte range fetched by download part `p` when the
/// ciphertext of `total` bytes is fetched in parts of `part_size` bytes;
/// `None` when the part starts past the end.
pub open spec fn download_part_spec(p: u64, part_size: u64, total: u64) -> Option<(u64, u64)> {
    let s = p * part_size;
    let e = if s + part_size - 1 < total - 1 { s + part_size - 1 } else { total - 1 };
    if s > e { None } else { Some((s as u64, e as u64)) }
}

/// The inclusive byte range of download part `p`.
pub fn download_part(p: u64, part_size: u64, total: u64) -> (r: Option<(u64, u64)>)
    requires
        total >= 1,
        part_size >= 1,
        p * part_size + part_size <= u64::MAX,
    ensures
        r == download_part_spec(p, part_size, total),
{
    let s = p * part_size;
    let last = s + part_size - 1;
    let e = if last < total - 1 { last } else { total - 1 };
    if s > e { None } else { Some((s, e)) }
}

/// The consecutive parts together fetch every byte once: part `p` ends
/// just before part `p + 1` starts, the first starts at 0, and the last
/// part (`p = div_ceil(total, part_size) - 1`) ends at the last byte.
pub proof fn lemma_download_parts_cover(part_size: u64, total: u64, p: u64)
    requires
        total >= 1,
        part_size >= 1,
        (p + 2) * part_size <= u64::MAX,
        (p + 1) * part_size < total,
    ensures
        download_part_spec(p, part_size, total) == Some(((p * part_size) as u64, ((p + 1) * part_size - 1) as u64)),
        download_part_spec((p + 1) as u64, part_size, total) matches Some(next) && next.0 == (p + 1) * part_size,
        download_part_spec(0, part_size, total) matches Some(first) && first.0 == 0,
{
    assert(p * part_size + part_size == (p + 1) * part_size) by (nonlinear_arith);
    assert((p + 1) * part_size + part_size == (p + 2) * part_size) by (nonlinear_arith);
    assert(0 * part_size == 0) by (nonlinear_arith);
    assert(p + 2 <= (p + 2) * part_size) by (nonlinear_arith)
        requires
            part_size >= 1,
    ;
    let q = (p + 1) as u64;
    assert(q * part_size == (p + 1) * part_size);
    assert(q * part_size < total);
}

/// The range of chunks worker `t` of `workers` encrypts or decrypts when
/// `total` chunks are shared out in consecutive runs; `None` when there is
/// nothing left for it.
pub open spec fn worker_range_spec(t: int, workers: int, total: int) -> Option<(int, int)> {
    let per = div_ceil(total, workers);
    let start = t * per;
    let end = if start + per < total { start + per } else { total };
    if start >= end { None } else { Some((start, end)) }
}

/// Computes the range of chunks worker `t` handles.
pub fn worker_range(t: usize, workers: usize, total: usize) -> (r: Option<(usize, usize)>)
    requires
        workers >= 1,
        t < workers,
        total + workers <= usize::MAX,
        t * div_ceil(total as int, workers as int) + div_ceil(total as int, workers as int) <= usize::MAX,
    ensures
        match r {
            Some(range) => worker_range_spec(t as int, workers as int, total as int) == Some((range.0 as int, range.1 as int)),
            None => worker_range_spec(t as int, workers as int, total as int) is None,
        },
{
    let per = (total + workers - 1) / workers;
    let start = t * per;
    let end = if start + per < total { start + per } else { total };
    if start >= end { None } else { Some((start, end)) }
}

/// The ciphertext of chunks `a` up to (not including) `b` of `p`, one
/// after the other.
pub open spec fn sealed_range(p: Seq<u8>, key: Seq<u8>, nonce: Seq<u8>, a: nat, b: nat) -> Seq<u8>
    decreases b,
{
    if b <= a {
        Seq::empty()
    } else {
        sealed_range(p, key, nonce, a, (b - 1) as nat) + sealed_chunk(p, key, nonce, b - 1)
    }
}

/// Two adjacent runs of sealed chunks make the run that spans both.
pub proof fn lemma_sealed_range_split(p: Seq<u8>, key: Seq<u8>, nonce: Seq<u8>, a: nat, b: nat, c: nat)
    requires
        a <= b <= c,
    ensures
        sealed_range(p, key, nonce, a, b) + sealed_range(p, key, nonce, b, c) == sealed_range(p, key, nonce, a, c),
    decreases c,
{
    if c > b {
        lemma_sealed_range_split(p, key, nonce, a, b, (c - 1) as nat);
        assert(sealed_range(p, key, nonce, a, b) + sealed_range(p, key, nonce, b, c) =~= sealed_range(
            p,
            key,
            nonce,
            a,
            (c - 1) as nat,
        ) + sealed_chunk(p, key, nonce, c - 1));
    } else {
        assert(sealed_range(p, key, nonce, a, b) + sealed_range(p, key, nonce, b, c) =~= sealed_range(p, key, nonce, a, b));
    }
}

proof fn lemma_sealed_range_prefix(p: Seq<u8>, key: Seq<u8>, nonce: Seq<u8>, m: nat)
    ensures
        sealed_range(p, key, nonce, 0, m) == sealed_prefix(p, key, nonce, m),
    decreases m,
{
    if m > 0 {
        lemma_sealed_range_prefix(p, key, nonce, (m - 1) as nat);
    }
}

/// What encryption workers `0` up to (not including) `t` of `workers`
/// produce, joined in worker order, when the chunks of `p` are shared out
/// as `worker_range_spec` shares them.
pub open spec fn workers_sealed(p: Seq<u8>, key: Seq<u8>, nonce: Seq<u8>, workers: nat, t: nat) -> Seq<u8>
    decreases t,
{
    if t == 0 {
        Seq::empty()
    } else {
        workers_sealed(p, key, nonce, workers, (t - 1) as nat) + match worker_range_spec(
            t - 1,
            workers as int,
            chunk_count(p.len()) as int,
        ) {
            Some(r) => sealed_range(p, key, nonce, r.0 as nat, r.1 as nat),
            None => Seq::empty(),
        }
    }
}

proof fn lemma_workers_sealed_prefix(p: Seq<u8>, key: Seq<u8>, nonce: Seq<u8>, workers: nat, t: nat)
    requires
        workers >= 1,
    ensures
        workers_sealed(p, key, nonce, workers, t) == sealed_range(
            p,
            key,
            nonce,
            0,
            if t * div_ceil(chunk_count(p.len()) as int, workers as int) < chunk_count(p.len()) {
                (t * div_ceil(chunk_count(p.len()) as int, workers as int)) as nat
            } else {
                chunk_count(p.len())
            },
        ),
    decreases t,
{
    let total = chunk_count(p.len()) as int;
    let per = div_ceil(total, workers as int);
    lemma_chunk_count(p.len());
    assert(per >= 1) by (nonlinear_arith)
        requires
            total >= 1,
            workers >= 1,
            per == (total + workers - 1) / (workers as int),
    ;
    if t == 0 {
        assert(t * per == 0) by (nonlinear_arith)
            requires
                t == 0,
        ;
    } else {
        lemma_workers_sealed_prefix(p, key, nonce, workers, (t - 1) as nat);
        let start = (t - 1) * per;
        assert(start + per == t * per) by (nonlinear_arith)
            requires
                start == (t - 1) * per,
        ;
        assert(start >= 0) by (nonlinear_arith)
            requires
                t >= 1,
                per >= 1,
                start == (t - 1) * per,
        ;
        if start < total {
            let end = if start + per < total { start + per } else { total };
            lemma_sealed_range_split(p, key, nonce, 0, start as nat, end as nat);
        } else {
            assert(sealed_range(p, key, nonce, 0, total as nat) + Seq::<u8>::empty() =~= sealed_range(
                p,
                key,
                nonce,
                0,
                total as nat,
            ));
        }
    }
}

/// Sharing the chunks of a plaintext out among any number of workers and
/// joining what they produce in worker order gives the ciphertext of the
/// whole plaintext.
pub proof fn lemma_workers_encrypt_all(p: Seq<u8>, key: Seq<u8>, nonce: Seq<u8>, workers: nat)
    requires
        workers >= 1,
    ensures
        workers_sealed(p, key, nonce, workers, workers) == encrypt_spec(p, key, nonce),
{
    let total = chunk_count(p.len()) as int;
    let per = div_ceil(total, workers as int);
    lemma_chunk_count(p.len());
    assert(workers * per >= total) by (nonlinear_arith)
        requires
            total >= 1,
            workers >= 1,
            per == (total + workers - 1) / (workers as int),
    ;
    lemma_workers_sealed_prefix(p, key, nonce, workers, workers);
    lemma_sealed_range_prefix(p, key, nonce, total as nat);
}

/// Encrypts chunks `first` up to (not including) `end` of `plaintext`,
/// appending their ciphertext to `output`: the share of one encryption
/// worker.
pub fn encrypt_chunk_range(
    plaintext: &[u8],
    encryption_key: &[u8; 32],
    base_nonce: &[u8; 12],
    first: usize,
    end: usize,
    output: &mut Vec<u8>,
)
    requires
        first <= end <= chunk_count(plaintext@.len()),
        chunk_count(plaintext@.len()) <= u32::MAX,
        old(output)@.len() + encrypted_len(plaintext@.len()) <= usize::MAX,
    ensures
        final(output)@ == old(output)@ + sealed_range(plaintext@, encryption_key@, base_nonce@, first as nat, end as nat),
{
    let ghost p = plaintext@;
    let ghost len = p.len();
    let ghost total = chunk_count(len);
    let ghost key = encryption_key@;
    let ghost n = base_nonce@;
    proof {
        lemma_chunk_count(len);
    }
    let mut i: usize = first;
    while i < end
        invariant
            first <= i <= end <= total,
            total <= u32::MAX,
            p == plaintext@,
            len == p.len(),
            total == chunk_count(len),
            key == encryption_key@,
            n == base_nonce@,
            len > 0 ==> (total - 1) * CHUNK_SIZE < len,
            old(output)@.len() + encrypted_len(len) <= usize::MAX,
            output@ == old(output)@ + sealed_range(p, key, n, first as nat, i as nat),
            output@.len() == old(output)@.len() + plain_prefix_end(len, total, i as nat) - plain_prefix_end(
                len,
                total,
                first as nat,
            ) + TAG_LEN * (i - first),
        decreases end - i,
    {
        proof {
            lemma_plain_chunk_len(p, i as int);
            if first < total {
                assert(first * CHUNK_SIZE <= (total - 1) * CHUNK_SIZE);
            }
            if i + 1 < total {
                assert((i + 1) * CHUNK_SIZE <= (total - 1) * CHUNK_SIZE);
            }
        }
        let start: usize = i * CHUNK_SIZE;
        let stop: usize = if plaintext.len() - start > CHUNK_SIZE { start + CHUNK_SIZE } else { plaintext.len() };
        let chunk = &plaintext[start..stop];
        assert(chunk@ == plain_chunk(p, i as int));
        let res = encrypt_chunk_into(chunk, encryption_key, base_nonce, i as u32, output);
        assert(res is Ok);
        assert(sealed_chunk(p, key, n, i as int) == chacha20poly1305_seal(key, chunk_nonce(n, i as u32), chunk@));
        assert(output@ =~= old(output)@ + sealed_range(p, key, n, first as nat, (i + 1) as nat));
        i = i + 1;
    }
}

/// What decrypting chunks `a` up to (not including) `b` of a ciphertext of
/// `total` chunks appends, chunk after chunk, going on past chunks that
/// fail: each chunk's plaintext, or the residue of a chunk that fails.
pub open spec fn opened_range(key: Seq<u8>, nonce: Seq<u8>, ct: Seq<u8>, total: nat, a: nat, b: nat) -> Seq<u8>
    decreases b,
{
    if b <= a {
        Seq::empty()
    } else {
        let c = chunk_ciphertext(ct, total, b - 1);
        opened_range(key, nonce, ct, total, a, (b - 1) as nat) + match open_chunk(
            key,
            chunk_nonce(nonce, (b - 1) as u32),
            c,
        ) {
            Some(pt) => pt,
            None => failed_chunk_residue(c.len()),
        }
    }
}

/// Whether chunks `a` up to (not including) `b` all open.
pub open spec fn range_opens(key: Seq<u8>, nonce: Seq<u8>, ct: Seq<u8>, total: nat, a: nat, b: nat) -> bool {
    forall|i: int|
        a <= i < b ==> (#[trigger] open_chunk(key, chunk_nonce(nonce, i as u32), chunk_ciphertext(ct, total, i))) is Some
}

/// Decrypts chunks `first` up to (not including) `end` of a ciphertext of
/// `total_chunks` chunks, appending the plaintext to `output`: the share of
/// one decryption worker. A chunk that fails leaves its residue and the
/// worker goes on; the result tells whether every chunk opened.
pub fn decrypt_chunk_range(
    ciphertext: &[u8],
    total_chunks: u32,
    encryption_key: &[u8; 32],
    base_nonce: &[u8; 12],
    first: u32,
    end: u32,
    output: &mut Vec<u8>,
) -> (all_opened: bool)
    requires
        first <= end <= total_chunks,
        total_chunks == 1 || chunked_layout_ok(total_chunks as nat, ciphertext@.len()),
        old(output)@.len() + ciphertext@.len() <= usize::MAX,
    ensures
        final(output)@ == old(output)@ + opened_range(
            encryption_key@,
            base_nonce@,
            ciphertext@,
            total_chunks as nat,
            first as nat,
            end as nat,
        ),
        all_opened == range_opens(encryption_key@, base_nonce@, ciphertext@, total_chunks as nat, first as nat, end as nat),
        forall|p: Seq<u8>|
            #[trigger] produced_by_encryption(ciphertext@, p, encryption_key@, base_nonce@, total_chunks as nat)
                ==> all_opened && final(output)@ == old(output)@ + p.subrange(
                    plain_prefix_end(p.len(), total_chunks as nat, first as nat),
                    plain_prefix_end(p.len(), total_chunks as nat, end as nat),
                ),
{
    let ghost key = encryption_key@;
    let ghost n = base_nonce@;
    let ghost ct = ciphertext@;
    let ghost total = total_chunks as nat;
    let mut all_opened = true;
    let mut i: u32 = first;
    while i < end
        invariant
            first <= i <= end <= total_chunks,
            total == total_chunks,
            key == encryption_key@,
            n == base_nonce@,
            ct == ciphertext@,
            total_chunks == 1 || chunked_layout_ok(total, ct.len()),
            old(output)@.len() + ct.len() <= usize::MAX,
            output@ == old(output)@ + opened_range(key, n, ct, total, first as nat, i as nat),
            all_opened == range_opens(key, n, ct, total, first as nat, i as nat),
            output@.len() <= old(output)@.len() + (if i < total { i * FULL_CHUNK_CIPHER_LEN } else { ct.len() as int }),
            forall|p: Seq<u8>|
                #[trigger] produced_by_encryption(ct, p, key, n, total) ==> all_opened && output@ == old(output)@
                    + p.subrange(plain_prefix_end(p.len(), total, first as nat), plain_prefix_end(p.len(), total, i as nat)),
        decreases end - i,
    {
        proof {
            lemma_chunk_bounds_partition(total, ct.len(), i as int);
        }
        let (a, b) = get_chunk_bounds(total_chunks, i, ciphertext.len());
        let chunk = &ciphertext[a..b];
        assert(chunk@ == chunk_ciphertext(ct, total, i as int));
        let ghost before = output@;
        let res = decrypt_chunk_into(chunk, encryption_key, base_nonce, i, output);
        proof {
            assert(output@ =~= old(output)@ + opened_range(key, n, ct, total, first as nat, (i + 1) as nat));
            assert forall|p: Seq<u8>| #[trigger] produced_by_encryption(ct, p, key, n, total) implies
                res is Ok && output@ == old(output)@ + p.subrange(
                    plain_prefix_end(p.len(), total, first as nat),
                    plain_prefix_end(p.len(), total, (i + 1) as nat),
                ) by {
                lemma_encrypted_chunks(p, key, n);
                lemma_plain_chunk_len(p, i as int);
                lemma_chunk_count(p.len());
                if first < total {
                    assert(first * CHUNK_SIZE <= i * CHUNK_SIZE);
                }
                assert(sealed_chunk(p, key, n, i as int) == chunk_ciphertext(ct, total, i as int));
                assert(p.subrange(plain_prefix_end(p.len(), total, first as nat), plain_prefix_end(p.len(), total, i as nat))
                    + plain_chunk(p, i as int) =~= p.subrange(
                    plain_prefix_end(p.len(), total, first as nat),
                    plain_prefix_end(p.len(), total, (i + 1) as nat),
                ));
            }
        }
        if res.is_err() {
            all_opened = false;
        }
        i = i + 1;
    }
    all_opened
}

/// How many times a client tries one upload piece or one download part.
pub const MAX_TRIES: u32 = 3;

/// After try number `attempt` (counted from 0) of an upload piece or a
/// download part has failed: the seconds to wait before the next try, 1
/// then 2, or none when that was the last try.
pub fn retry_delay(attempt: u32) -> (delay: Option<u64>)
    ensures
        attempt == 0 ==> delay == Some(1u64),
        attempt == 1 ==> delay == Some(2u64),
        attempt >= 2 ==> delay is None,
{
    if attempt < MAX_TRIES - 1 {
        let d: u64 = 1u64 << attempt;
        assert(attempt == 0 ==> d == 1) by (bit_vector)
            requires
                d == 1u64 << attempt,
        ;
        assert(attempt == 1 ==> d == 2) by (bit_vector)
            requires
                d == 1u64 << attempt,
        ;
        Some(d)
    } else {
        None
    }
}

} // verus!
