use base64::Engine;
use vstd::prelude::*;

use crate::chunks::{get_plaintext_size, plaintext_size, chunked_layout_ok, FULL_CHUNK_CIPHER_LEN};
use crate::b64::{base64_standard_decode, base64_standard_encode, lemma_decode_encode};
use crate::hmac::{compute_password_hash, hmac_sha256_spec};
use crate::aead::TAG_LEN;
use crate::ids::{is_digit_id, is_valid_id};
use crate::store::PasteMeta;
use crate::types::{GetPasteHeader, GetSaltResponse, UPLOAD_CHUNK_SIZE};

verus! {

/// The HTTP statuses the paste API answers with when it refuses a request.
#[derive(Clone, Copy, Debug, PartialEq, Eq, Structural)]
pub enum ApiStatus {
    BadRequest,
    Unauthorized,
    NotFound,
    Gone,
    PayloadTooLarge,
    TooManyRequests,
    InternalServerError,
    ServiceUnavailable,
}

/// The numeric HTTP status of each refusal.
pub open spec fn status_code(s: ApiStatus) -> u16 {
    match s {
        ApiStatus::BadRequest => 400,
        ApiStatus::Unauthorized => 401,
        ApiStatus::NotFound => 404,
        ApiStatus::Gone => 410,
        ApiStatus::PayloadTooLarge => 413,
        ApiStatus::TooManyRequests => 429,
        ApiStatus::InternalServerError => 500,
        ApiStatus::ServiceUnavailable => 503,
    }
}

impl ApiStatus {
    /// The numeric HTTP status code.
    pub fn code(&self) -> (c: u16)
        ensures
            c == status_code(*self),
    {
        match self {
            ApiStatus::BadRequest => 400,
            ApiStatus::Unauthorized => 401,
            ApiStatus::NotFound => 404,
            ApiStatus::Gone => 410,
            ApiStatus::PayloadTooLarge => 413,
            ApiStatus::TooManyRequests => 429,
            ApiStatus::InternalServerError => 500,
            ApiStatus::ServiceUnavailable => 503,
        }
    }
}

/// Requests name pastes by ids of ASCII digits; any other id is not found.
pub fn validate_id(id: &str) -> (r: Result<(), ApiStatus>)
    ensures
        r is Ok <==> is_digit_id(id@),
        r matches Err(s) ==> s == ApiStatus::NotFound,
{
    if is_valid_id(id) { Ok(()) } else { Err(ApiStatus::NotFound) }
}

/// Compares two byte strings in time that depends only on their lengths.
pub fn constant_time_eq(a: &[u8], b: &[u8]) -> (eq: bool)
    ensures
        eq == (a@ == b@),
{
    if a.len() != b.len() {
        return false;
    }
    let mut result: u8 = 0;
    let mut i: usize = 0;
    while i < a.len()
        invariant
            0 <= i <= a@.len(),
            a@.len() == b@.len(),
            (result == 0) == (forall|j: int| 0 <= j < i ==> #[trigger] a@[j] == b@[j]),
        decreases a@.len() - i,
    {
        let x = a[i];
        let y = b[i];
        let old_result = result;
        result = result | (x ^ y);
        assert((old_result | (x ^ y)) == 0 <==> (old_result == 0 && x == y)) by (bit_vector);
        i = i + 1;
    }
    assert(result == 0 ==> a@ =~= b@);
    result == 0
}

/// Trusted: `base64::engine::general_purpose::STANDARD.decode`. Claims what
/// its canonical decoding does: it accepts exactly the padded encodings of
/// byte strings, and gives back those bytes.
#[verifier::external_body]
fn decode_base64(s: &str) -> (r: Option<Vec<u8>>)
    ensures
        match r {
            Some(v) => base64_standard_decode(s@) == Some(v@),
            None => base64_standard_decode(s@) is None,
        },
{
    base64::engine::general_purpose::STANDARD.decode(s).ok()
}

/// Trusted: `base64::engine::general_purpose::STANDARD.encode`. Claims the
/// padded RFC 4648 encoding.
#[verifier::external_body]
pub(crate) fn encode_base64(data: &[u8]) -> (s: String)
    ensures
        s@ == base64_standard_encode(data@),
{
    base64::engine::general_purpose::STANDARD.encode(data)
}

/// The outcome of checking the password tag a client sends for a paste.
#[derive(Clone, Copy, Debug, PartialEq, Eq, Structural)]
pub enum PasswordCheck {
    /// The paste does not exist (or has expired).
    Missing,
    /// The tag is absent, not base64, or wrong: the attempt counts as failed.
    Rejected,
    /// The tag matches the stored one.
    Accepted,
}

impl PasswordCheck {
    /// How a request is refused after this check: a missing paste is not
    /// found, a rejected tag is unauthorized, an accepted one goes through.
    pub fn refusal(&self) -> (r: Option<ApiStatus>)
        ensures
            r == match *self {
                PasswordCheck::Missing => Some(ApiStatus::NotFound),
                PasswordCheck::Rejected => Some(ApiStatus::Unauthorized),
                PasswordCheck::Accepted => None::<ApiStatus>,
            },
    {
        match self {
            PasswordCheck::Missing => Some(ApiStatus::NotFound),
            PasswordCheck::Rejected => Some(ApiStatus::Unauthorized),
            PasswordCheck::Accepted => None,
        }
    }
}

/// The password check on a stored tag and the `X-Password-Hash` header.
pub open spec fn password_check_spec(stored: Option<Seq<u8>>, provided: Option<Seq<char>>) -> PasswordCheck {
    match stored {
        None => PasswordCheck::Missing,
        Some(h) => match provided {
            None => PasswordCheck::Rejected,
            Some(text) => match base64_standard_decode(text) {
                None => PasswordCheck::Rejected,
                Some(tag) => if tag == h { PasswordCheck::Accepted } else { PasswordCheck::Rejected },
            },
        },
    }
}

/// Checks the base64 password tag a client sends against the stored tag.
pub fn check_password(stored: Option<&[u8]>, provided: Option<&str>) -> (r: PasswordCheck)
    ensures
        r == password_check_spec(
            match stored { Some(h) => Some(h@), None => None },
            match provided { Some(t) => Some(t@), None => None },
        ),
{
    let stored_hash = match stored {
        Some(h) => h,
        None => {
            return PasswordCheck::Missing;
        },
    };
    let text = match provided {
        Some(t) => t,
        None => {
            return PasswordCheck::Rejected;
        },
    };
    let tag = match decode_base64(text) {
        Some(v) => v,
        None => {
            return PasswordCheck::Rejected;
        },
    };
    if constant_time_eq(tag.as_slice(), stored_hash) {
        PasswordCheck::Accepted
    } else {
        PasswordCheck::Rejected
    }
}

/// The `X-Password-Hash` header a client sends for a paste: the password
/// validation tag of the paste's salt under the validation key, in base64.
/// The server's password check accepts exactly this header for the tag it
/// stored at creation.
pub fn password_header(validation_key: &[u8; 32], salt: &[u8]) -> (h: String)
    ensures
        h@ == base64_standard_encode(hmac_sha256_spec(validation_key@, salt@)),
        password_check_spec(Some(hmac_sha256_spec(validation_key@, salt@)), Some(h@)) == PasswordCheck::Accepted,
{
    let tag = compute_password_hash(validation_key, salt);
    proof {
        lemma_decode_encode(tag@);
    }
    encode_base64(tag.as_slice())
}

/// Longest time-to-live the client offers, in seconds.
pub const MAX_TTL_SECONDS: u32 = 43200;

/// Largest number of password attempts a paste may allow.
pub const MAX_TRY_COUNT: u32 = 100;

/// Whether the server accepts the settings of a new paste.
pub open spec fn new_paste_ok(total_chunks: u32, ttl_seconds: Option<u32>, try_count: Option<u32>) -> bool {
    &&& total_chunks != 0
    &&& ttl_seconds matches Some(ttl) && ttl != 0
    &&& try_count matches Some(count) && 0 < count <= MAX_TRY_COUNT
}

/// A new paste is accepted exactly when it has at least one chunk, a
/// time-to-live of at least one second and between 1 and 100 password
/// attempts.
pub proof fn lemma_new_paste_bounds(total_chunks: u32, ttl_seconds: Option<u32>, try_count: Option<u32>)
    ensures
        new_paste_ok(total_chunks, ttl_seconds, try_count) <==> (total_chunks >= 1 && (ttl_seconds matches Some(t)
            && t >= 1) && (try_count matches Some(c) && 1 <= c <= 100)),
{
}

/// Validates the settings of a new paste: at least one chunk, a positive
/// time-to-live and between one and a hundred password attempts.
pub fn validate_new_paste(total_chunks: u32, ttl_seconds: Option<u32>, try_count: Option<u32>) -> (r: Result<(), ApiStatus>)
    ensures
        r is Ok <==> new_paste_ok(total_chunks, ttl_seconds, try_count),
        r matches Err(s) ==> s == ApiStatus::BadRequest,
        r is Ok <==> (total_chunks >= 1 && (ttl_seconds matches Some(t) && t >= 1) && (try_count matches Some(c) && 1
            <= c <= 100)),
{
    proof {
        lemma_new_paste_bounds(total_chunks, ttl_seconds, try_count);
    }
    if total_chunks == 0 {
        return Err(ApiStatus::BadRequest);
    }
    match ttl_seconds {
        Some(ttl) => {
            if ttl == 0 {
                return Err(ApiStatus::BadRequest);
            }
        },
        None => {
            return Err(ApiStatus::BadRequest);
        },
    }
    match try_count {
        Some(count) => {
            if count > 0 && count <= MAX_TRY_COUNT {
                Ok(())
            } else {
                Err(ApiStatus::BadRequest)
            }
        },
        None => Err(ApiStatus::BadRequest),
    }
}

/// Smallest paste id the server hands out.
pub const MIN_PASTE_ID: u32 = 100_000;
/// One past the largest paste id the server hands out.
pub const PASTE_ID_END: u32 = 1_000_000;
/// How many taken ids the server draws before it gives up.
pub const MAX_ID_ATTEMPTS: u32 = 100;

/// Trusted: `rand::random_range(low..high)` of the `rand` crate. The value
/// is random; the contract claims only that it lies in the range.
#[verifier::external_body]
fn random_in_range(low: u32, high: u32) -> (r: u32)
    requires
        low < high,
    ensures
        low <= r < high,
{
    rand::random_range(low..high)
}

/// Draws a candidate id for a new paste: six decimal digits.
pub fn random_paste_id() -> (id: u32)
    ensures
        MIN_PASTE_ID <= id < PASTE_ID_END,
{
    random_in_range(MIN_PASTE_ID, PASTE_ID_END)
}

/// After a drawn id turned out to be taken: the new count of attempts, or
/// `ServiceUnavailable` once a hundred ids have been taken.
pub fn after_taken_id(attempts: u32) -> (r: Result<u32, ApiStatus>)
    ensures
        attempts + 1 >= MAX_ID_ATTEMPTS ==> r == Err::<u32, ApiStatus>(ApiStatus::ServiceUnavailable),
        attempts + 1 < MAX_ID_ATTEMPTS ==> r == Ok::<u32, ApiStatus>((attempts + 1) as u32),
{
    if attempts >= MAX_ID_ATTEMPTS - 1 {
        return Err(ApiStatus::ServiceUnavailable);
    }
    Ok(attempts + 1)
}

/// Checks an uploaded ciphertext piece: a digit id, at most one upload
/// chunk of data, and a paste that exists.
pub fn check_upload(id: &str, body_len: usize, paste_exists: bool) -> (r: Result<(), ApiStatus>)
    ensures
        !is_digit_id(id@) ==> r == Err::<(), ApiStatus>(ApiStatus::NotFound),
        is_digit_id(id@) && body_len > UPLOAD_CHUNK_SIZE ==> r == Err::<(), ApiStatus>(ApiStatus::PayloadTooLarge),
        is_digit_id(id@) && body_len <= UPLOAD_CHUNK_SIZE && !paste_exists ==> r == Err::<(), ApiStatus>(ApiStatus::NotFound),
        is_digit_id(id@) && body_len <= UPLOAD_CHUNK_SIZE && paste_exists ==> r is Ok,
{
    validate_id(id)?;
    if body_len > UPLOAD_CHUNK_SIZE {
        return Err(ApiStatus::PayloadTooLarge);
    }
    if !paste_exists {
        return Err(ApiStatus::NotFound);
    }
    Ok(())
}

/// Seconds left before a paste expires (0 when it never expires or has expired).
pub open spec fn remaining_ttl_spec(expiration_timestamp: u64, now: u64) -> u64 {
    if expiration_timestamp > 0 && expiration_timestamp > now { (expiration_timestamp - now) as u64 } else { 0 }
}

/// The time-to-live reported for a paste ends exactly when the paste
/// expires: now plus the reported seconds is the expiration time; a paste
/// that never expires, or has expired, reports none.
pub proof fn lemma_ttl_reaches_expiry(expiration_timestamp: u64, now: u64)
    ensures
        expiration_timestamp > 0 && expiration_timestamp > now
            ==> now + remaining_ttl_spec(expiration_timestamp, now) == expiration_timestamp,
        expiration_timestamp == 0 || expiration_timestamp <= now ==> remaining_ttl_spec(expiration_timestamp, now) == 0,
{
}

/// Seconds left before a paste expires (0 when it never expires or has expired).
pub fn remaining_ttl(expiration_timestamp: u64, now: u64) -> (ttl: u64)
    ensures
        ttl == remaining_ttl_spec(expiration_timestamp, now),
        expiration_timestamp > 0 && expiration_timestamp > now ==> now + ttl == expiration_timestamp,
        expiration_timestamp == 0 || expiration_timestamp <= now ==> ttl == 0,
{
    proof {
        lemma_ttl_reaches_expiry(expiration_timestamp, now);
    }
    if expiration_timestamp > 0 && expiration_timestamp > now { expiration_timestamp - now } else { 0 }
}

/// Whether `get_plaintext_size` may be asked about a stored ciphertext:
/// the length of its full chunks must fit in a `usize`.
pub open spec fn size_query_ok(total_chunks: u32, content_len: usize) -> bool {
    total_chunks >= 2 ==> (total_chunks - 1) * FULL_CHUNK_CIPHER_LEN <= usize::MAX
}

/// Tells whether `size_query_ok` holds, so that a caller can test it before
/// asking for a plaintext size.
pub fn size_query_safe(total_chunks: u32, content_len: usize) -> (r: bool)
    ensures
        r == size_query_ok(total_chunks, content_len),
{
    if total_chunks < 2 {
        return true;
    }
    let full = (total_chunks - 1) as u64;
    if full > (usize::MAX as u64) / (FULL_CHUNK_CIPHER_LEN as u64) {
        assert(full * FULL_CHUNK_CIPHER_LEN > usize::MAX) by (nonlinear_arith)
            requires
                full > (usize::MAX as u64) / 65552,
        ;
        return false;
    }
    assert(full * FULL_CHUNK_CIPHER_LEN <= usize::MAX) by (nonlinear_arith)
        requires
            full <= (usize::MAX as u64) / 65552,
    ;
    true
}

/// The plaintext size reported for a stored ciphertext, 0 where the stored
/// length does not fit the chunk count.
pub open spec fn reported_size(total_chunks: u32, content_len: usize) -> u64 {
    match plaintext_size(total_chunks as nat, content_len as nat) {
        Some(s) => s as u64,
        None => 0,
    }
}

fn reported_plaintext_size(total_chunks: u32, content_len: usize) -> (size: u64)
    requires
        size_query_ok(total_chunks, content_len),
    ensures
        size == reported_size(total_chunks, content_len),
{
    match get_plaintext_size(total_chunks, content_len) {
        Ok(s) => s as u64,
        Err(_) => 0,
    }
}

/// Copies a 12-byte nonce out of a vector.
fn nonce_array(v: &Vec<u8>) -> (a: [u8; 12])
    requires
        v@.len() == 12,
    ensures
        a@ == v@,
{
    let mut a = [0u8; 12];
    let mut i: usize = 0;
    while i < 12
        invariant
            0 <= i <= 12,
            v@.len() == 12,
            forall|j: int| 0 <= j < i ==> #[trigger] a@[j] == v@[j],
        decreases 12 - i,
    {
        a[i] = v[i];
        i = i + 1;
    }
    assert(a@ =~= v@);
    a
}

/// Assembles the answer to a salt request from what the store holds: the
/// salt, the paste's metadata, the stored ciphertext length and the nonce
/// file. Pastes without attempts left, or without a nonce, are not found; a
/// nonce file of the wrong size is a server error.
pub fn salt_response(
    salt: Vec<u8>,
    meta: PasteMeta,
    now: u64,
    content_len: usize,
    nonce: Option<Vec<u8>>,
) -> (r: Result<GetSaltResponse, ApiStatus>)
    requires
        meta.try_count != 0 ==> size_query_ok(meta.total_chunks, content_len),
    ensures
        meta.try_count == 0 ==> r == Err::<GetSaltResponse, ApiStatus>(ApiStatus::NotFound),
        meta.try_count != 0 && nonce is None ==> r == Err::<GetSaltResponse, ApiStatus>(ApiStatus::NotFound),
        meta.try_count != 0 && (nonce matches Some(n) && n@.len() != 12)
            ==> r == Err::<GetSaltResponse, ApiStatus>(ApiStatus::InternalServerError),
        r matches Ok(resp) ==> {
            &&& nonce matches Some(n) && n@.len() == 12 && resp.nonce@ == n@
            &&& meta.try_count != 0
            &&& resp.salt@ == salt@
            &&& resp.try_count == meta.try_count
            &&& resp.ttl == remaining_ttl_spec(meta.expiration_timestamp, now)
            &&& resp.total_chunks == meta.total_chunks
            &&& resp.total_size == reported_size(meta.total_chunks, content_len)
            &&& resp.data_type == meta.data_type
            &&& resp.filename == meta.filename
            &&& resp.content_type == meta.content_type
            &&& resp.allow_download == meta.allow_download
        },
        meta.try_count != 0 && (nonce matches Some(n) && n@.len() == 12) ==> r is Ok,
{
    if meta.try_count == 0 {
        return Err(ApiStatus::NotFound);
    }
    let ttl = remaining_ttl(meta.expiration_timestamp, now);
    let total_size = reported_plaintext_size(meta.total_chunks, content_len);
    let nonce_bytes = match nonce {
        Some(n) => n,
        None => {
            return Err(ApiStatus::NotFound);
        },
    };
    if nonce_bytes.len() != 12 {
        return Err(ApiStatus::InternalServerError);
    }
    let nonce_arr = nonce_array(&nonce_bytes);
    Ok(GetSaltResponse {
        salt,
        try_count: meta.try_count,
        ttl,
        total_chunks: meta.total_chunks,
        total_size,
        nonce: nonce_arr,
        data_type: meta.data_type,
        filename: meta.filename,
        content_type: meta.content_type,
        allow_download: meta.allow_download,
    })
}

/// Assembles the header sent ahead of a paste's ciphertext.
pub fn paste_header(
    id: String,
    meta: PasteMeta,
    content_len: usize,
    nonce: Vec<u8>,
) -> (r: Result<GetPasteHeader, ApiStatus>)
    requires
        size_query_ok(meta.total_chunks, content_len),
    ensures
        nonce@.len() != 12 ==> r == Err::<GetPasteHeader, ApiStatus>(ApiStatus::InternalServerError),
        nonce@.len() == 12 ==> (r matches Ok(h) && h.id@ == id@ && h.nonce@ == nonce@
            && h.data_type == meta.data_type && h.filename == meta.filename
            && h.content_type == meta.content_type
            && h.total_size == reported_size(meta.total_chunks, content_len)
            && h.total_chunks == meta.total_chunks && h.allow_download == meta.allow_download),
{
    let total_size = reported_plaintext_size(meta.total_chunks, content_len);
    if nonce.len() != 12 {
        return Err(ApiStatus::InternalServerError);
    }
    let nonce_arr = nonce_array(&nonce);
    Ok(GetPasteHeader {
        id,
        nonce: nonce_arr,
        data_type: meta.data_type,
        filename: meta.filename,
        content_type: meta.content_type,
        total_size,
        total_chunks: meta.total_chunks,
        allow_download: meta.allow_download,
    })
}

/// The little-endian bytes of a 32-bit length.
pub open spec fn le_u32(n: u32) -> Seq<u8> {
    seq![(n & 0xff) as u8, ((n >> 8) & 0xff) as u8, ((n >> 16) & 0xff) as u8, ((n >> 24) & 0xff) as u8]
}

/// Frames an encoded header for the paste stream: its length (modulo 2^32)
/// as four little-endian bytes, then the header itself.
pub fn frame_header(header_bytes: &[u8]) -> (framed: Vec<u8>)
    ensures
        framed@ == le_u32(header_bytes@.len() as u32) + header_bytes@,
{
    let n = header_bytes.len() as u32;
    let mut framed: Vec<u8> = Vec::new();
    framed.push((n & 0xff) as u8);
    framed.push(((n >> 8) & 0xff) as u8);
    framed.push(((n >> 16) & 0xff) as u8);
    framed.push(((n >> 24) & 0xff) as u8);
    crate::bytes::append_bytes(&mut framed, header_bytes);
    assert(framed@ =~= le_u32(n) + header_bytes@);
    framed
}

/// Authorizes a burn request: the paste must have a burn receipt and the
/// body must match it.
pub fn check_burn(stored_receipt: Option<&[u8]>, body: &[u8]) -> (r: Result<(), ApiStatus>)
    ensures
        stored_receipt is None ==> r == Err::<(), ApiStatus>(ApiStatus::NotFound),
        stored_receipt matches Some(h) && body@ != h@ ==> r == Err::<(), ApiStatus>(ApiStatus::Unauthorized),
        stored_receipt matches Some(h) && body@ == h@ ==> r is Ok,
{
    let stored = match stored_receipt {
        Some(h) => h,
        None => {
            return Err(ApiStatus::NotFound);
        },
    };
    if !constant_time_eq(body, stored) {
        return Err(ApiStatus::Unauthorized);
    }
    Ok(())
}

} // verus!
