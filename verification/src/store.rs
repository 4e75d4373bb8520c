use std::time::{Duration, SystemTime, SystemTimeError, UNIX_EPOCH};
use vstd::prelude::*;

use crate::text::{concat_str, decimal, push_char, push_decimal};
use crate::types::{CreatePasteHeader, DataType, UPLOAD_CHUNK_SIZE};

verus! {

/// What the store keeps about a paste besides its ciphertext.
#[derive(Clone, Debug, PartialEq)]
pub struct PasteMeta {
    pub try_count: u32,
    pub expiration_timestamp: u64,
    pub data_type: DataType,
    pub filename: Option<String>,
    pub content_type: Option<String>,
    pub total_chunks: u32,
    pub allow_download: bool,
}

/// Seconds in a day; daily counters are keyed by the day number.
pub const SECS_PER_DAY: u64 = 86400;

#[verifier::external_type_specification]
#[verifier::external_body]
pub struct ExSystemTime(SystemTime);

#[verifier::external_type_specification]
#[verifier::external_body]
pub struct ExSystemTimeError(SystemTimeError);

/// Trusted: `SystemTime::now` of std. The clock is read; nothing is claimed
/// of the time.
#[verifier::external_body]
fn system_time_now() -> SystemTime {
    SystemTime::now()
}

/// Trusted: `SystemTime::duration_since(UNIX_EPOCH)` of std. Nothing is
/// claimed of the duration.
#[verifier::external_body]
fn since_epoch(t: &SystemTime) -> Result<Duration, SystemTimeError> {
    t.duration_since(UNIX_EPOCH)
}

/// Trusted: `Duration::as_secs` of std. Nothing is claimed of the seconds.
#[verifier::external_body]
fn whole_seconds(d: &Duration) -> u64 {
    d.as_secs()
}

/// Seconds since the Unix epoch by the system clock, or 0 if the clock is
/// before the epoch.
pub(crate) fn epoch_secs() -> u64 {
    let now = system_time_now();
    match since_epoch(&now) {
        Ok(d) => whole_seconds(&d),
        Err(_) => 0,
    }
}

/// The store key of a paste record: `prefix:id`.
pub fn record_key(prefix: &str, id: &str) -> (key: String)
    ensures
        key@ == prefix@ + seq![':'] + id@,
{
    let mut key = String::from_str(prefix);
    push_char(&mut key, ':');
    key.append(id);
    assert(key@ =~= prefix@ + seq![':'] + id@);
    key
}

/// The key that marks chunk `chunk_index` of a paste as received:
/// `chunk:id:index`.
pub fn chunk_key(id: &str, chunk_index: u32) -> (key: String)
    ensures
        key@ == "chunk:"@ + id@ + seq![':'] + decimal(chunk_index as nat),
{
    let mut key = String::from_str("chunk:");
    key.append(id);
    push_char(&mut key, ':');
    push_decimal(&mut key, chunk_index as u64);
    assert(key@ =~= "chunk:"@ + id@ + seq![':'] + decimal(chunk_index as nat));
    key
}

/// The prefix shared by the chunk keys of a paste: `chunk:id:`.
pub fn chunk_key_prefix(id: &str) -> (prefix: String)
    ensures
        prefix@ == "chunk:"@ + id@ + seq![':'],
{
    let mut prefix = String::from_str("chunk:");
    prefix.append(id);
    push_char(&mut prefix, ':');
    assert(prefix@ =~= "chunk:"@ + id@ + seq![':']);
    prefix
}

/// The name of the temporary file an upload piece is first written to: `id.index`.
pub fn part_file_name(id: &str, chunk_index: u32) -> (name: String)
    ensures
        name@ == id@ + seq!['.'] + decimal(chunk_index as nat),
{
    let mut name = String::from_str(id);
    push_char(&mut name, '.');
    push_decimal(&mut name, chunk_index as u64);
    assert(name@ =~= id@ + seq!['.'] + decimal(chunk_index as nat));
    name
}

/// `name` joined onto the directory `dir` as `Path::join` does on Unix: an
/// absolute `name` replaces `dir`, and a separator is put between the two
/// unless `dir` is empty or already ends with one.
pub open spec fn join_path(dir: Seq<char>, name: Seq<char>) -> Seq<char> {
    if name.len() > 0 && name[0] == '/' {
        name
    } else if dir.len() == 0 || dir.last() == '/' {
        dir + name
    } else {
        dir + seq!['/'] + name
    }
}

fn join(dir: &str, name: &str) -> (path: String)
    ensures
        path@ == join_path(dir@, name@),
{
    let name_len = name.unicode_len();
    if name_len > 0 && name.get_char(0) == '/' {
        return String::from_str(name);
    }
    let dir_len = dir.unicode_len();
    let mut path = String::from_str(dir);
    if dir_len > 0 && dir.get_char(dir_len - 1) != '/' {
        push_char(&mut path, '/');
    }
    path.append(name);
    assert(path@ =~= join_path(dir@, name@));
    path
}

/// Where the ciphertext of a paste is kept: the file named by its id in
/// `files_dir`.
pub fn content_path(files_dir: &str, id: &str) -> (path: String)
    ensures
        path@ == join_path(files_dir@, id@),
{
    join(files_dir, id)
}

/// Where the base nonce of a paste is kept: `id.nonce` in `files_dir`.
pub fn nonce_path(files_dir: &str, id: &str) -> (path: String)
    ensures
        path@ == join_path(files_dir@, id@ + ".nonce"@),
{
    let name = concat_str(id, ".nonce");
    join(files_dir, name.as_str())
}

/// The key of a daily counter on the day containing `secs`: `prefix:day`.
pub fn day_key_at(prefix: &str, secs: u64) -> (key: String)
    ensures
        key@ == prefix@ + seq![':'] + decimal((secs / SECS_PER_DAY) as nat),
{
    let mut key = String::from_str(prefix);
    push_char(&mut key, ':');
    push_decimal(&mut key, secs / SECS_PER_DAY);
    assert(key@ =~= prefix@ + seq![':'] + decimal((secs / SECS_PER_DAY) as nat));
    key
}

/// The key of a daily counter for the current day.
pub fn day_key(prefix: &str) -> (key: String)
    ensures
        exists|secs: u64| key@ == prefix@ + seq![':'] + #[trigger] decimal((secs / SECS_PER_DAY) as nat),
{
    let secs = epoch_secs();
    day_key_at(prefix, secs)
}

/// The value of an 8-byte big-endian counter.
pub open spec fn be_u64(b: Seq<u8>) -> u64 {
    ((b[0] as u64) << 56u64) | ((b[1] as u64) << 48u64) | ((b[2] as u64) << 40u64) | ((b[3] as u64) << 32u64)
        | ((b[4] as u64) << 24u64) | ((b[5] as u64) << 16u64) | ((b[6] as u64) << 8u64) | (b[7] as u64)
}

/// The 8-byte big-endian encoding of `n`.
pub open spec fn be_bytes_u64(n: u64) -> Seq<u8> {
    seq![
        ((n >> 56u64) & 0xff) as u8, ((n >> 48u64) & 0xff) as u8, ((n >> 40u64) & 0xff) as u8,
        ((n >> 32u64) & 0xff) as u8, ((n >> 24u64) & 0xff) as u8, ((n >> 16u64) & 0xff) as u8,
        ((n >> 8u64) & 0xff) as u8, (n & 0xff) as u8,
    ]
}

/// The value of a stored statistics counter: a missing value, or one that
/// is not 8 bytes long, counts as 0.
pub open spec fn counter_spec(stored: Option<Seq<u8>>) -> u64 {
    match stored {
        Some(b) => if b.len() == 8 { be_u64(b) } else { 0 },
        None => 0,
    }
}

/// Reads a stored statistics counter.
pub fn counter_value(stored: Option<&[u8]>) -> (n: u64)
    ensures
        n == counter_spec(match stored { Some(b) => Some(b@), None => None }),
{
    match stored {
        Some(b) => {
            if b.len() == 8 {
                ((b[0] as u64) << 56u64) | ((b[1] as u64) << 48u64) | ((b[2] as u64) << 40u64)
                    | ((b[3] as u64) << 32u64) | ((b[4] as u64) << 24u64) | ((b[5] as u64) << 16u64)
                    | ((b[6] as u64) << 8u64) | (b[7] as u64)
            } else {
                0
            }
        },
        None => 0,
    }
}

/// Encodes a statistics counter as 8 big-endian bytes.
pub fn counter_bytes(n: u64) -> (b: Vec<u8>)
    ensures
        b@ == be_bytes_u64(n),
{
    let mut b: Vec<u8> = Vec::new();
    b.push(((n >> 56u64) & 0xff) as u8);
    b.push(((n >> 48u64) & 0xff) as u8);
    b.push(((n >> 40u64) & 0xff) as u8);
    b.push(((n >> 32u64) & 0xff) as u8);
    b.push(((n >> 24u64) & 0xff) as u8);
    b.push(((n >> 16u64) & 0xff) as u8);
    b.push(((n >> 8u64) & 0xff) as u8);
    b.push((n & 0xff) as u8);
    assert(b@ =~= be_bytes_u64(n));
    b
}

/// The stored value of a statistics counter after one more event.
pub fn incremented_counter(stored: Option<&[u8]>) -> (b: Vec<u8>)
    requires
        counter_spec(match stored { Some(s) => Some(s@), None => None }) < u64::MAX,
    ensures
        b@ == be_bytes_u64((counter_spec(match stored { Some(s) => Some(s@), None => None }) + 1) as u64),
{
    let count = counter_value(stored);
    counter_bytes(count + 1)
}

/// Reading back an encoded counter gives the encoded value.
pub proof fn lemma_counter_roundtrip(n: u64)
    ensures
        counter_spec(Some(be_bytes_u64(n))) == n,
{
    let b = be_bytes_u64(n);
    assert(b.len() == 8);
    let (b0, b1, b2, b3) = (b[0], b[1], b[2], b[3]);
    let (b4, b5, b6, b7) = (b[4], b[5], b[6], b[7]);
    assert(b0 == ((n >> 56u64) & 0xff) as u8 && b1 == ((n >> 48u64) & 0xff) as u8
        && b2 == ((n >> 40u64) & 0xff) as u8 && b3 == ((n >> 32u64) & 0xff) as u8
        && b4 == ((n >> 24u64) & 0xff) as u8 && b5 == ((n >> 16u64) & 0xff) as u8
        && b6 == ((n >> 8u64) & 0xff) as u8 && b7 == (n & 0xff) as u8);
    assert(b0 == ((n >> 56u64) & 0xff) as u8 && b1 == ((n >> 48u64) & 0xff) as u8
        && b2 == ((n >> 40u64) & 0xff) as u8 && b3 == ((n >> 32u64) & 0xff) as u8
        && b4 == ((n >> 24u64) & 0xff) as u8 && b5 == ((n >> 16u64) & 0xff) as u8
        && b6 == ((n >> 8u64) & 0xff) as u8 && b7 == (n & 0xff) as u8
        ==> ((b0 as u64) << 56u64) | ((b1 as u64) << 48u64) | ((b2 as u64) << 40u64) | ((b3 as u64) << 32u64)
        | ((b4 as u64) << 24u64) | ((b5 as u64) << 16u64) | ((b6 as u64) << 8u64) | (b7 as u64) == n) by (bit_vector);
}

/// Counting an event raises the stored counter by exactly one: what a later
/// read returns is the previous value plus one.
pub proof fn lemma_counter_increment(stored: Option<Seq<u8>>)
    requires
        counter_spec(stored) < u64::MAX,
    ensures
        counter_spec(Some(be_bytes_u64((counter_spec(stored) + 1) as u64))) == counter_spec(stored) + 1,
{
    lemma_counter_roundtrip((counter_spec(stored) + 1) as u64);
}

/// The value of the received-pieces counter of a paste: four little-endian
/// bytes, anything else counting as 0.
pub open spec fn received_spec(stored: Option<Seq<u8>>) -> u32 {
    match stored {
        Some(b) => if b.len() == 4 { vstd::bytes::spec_u32_from_le_bytes(b) } else { 0 },
        None => 0,
    }
}

/// Reads the received-pieces counter of a paste.
pub fn received_chunks(stored: Option<&[u8]>) -> (n: u32)
    ensures
        n == received_spec(match stored { Some(b) => Some(b@), None => None }),
{
    match stored {
        Some(b) => if b.len() == 4 { vstd::bytes::u32_from_le_bytes(b) } else { 0 },
        None => 0,
    }
}

/// Encodes the received-pieces counter as four little-endian bytes.
pub fn received_bytes(n: u32) -> (b: Vec<u8>)
    ensures
        b@ == vstd::bytes::spec_u32_to_le_bytes(n),
        received_spec(Some(b@)) == n,
{
    proof {
        vstd::bytes::lemma_auto_spec_u32_to_from_le_bytes();
    }
    vstd::bytes::u32_to_le_bytes(n)
}

/// The received-pieces counter after one more piece.
pub fn incremented_received(stored: Option<&[u8]>) -> (b: Vec<u8>)
    requires
        received_spec(match stored { Some(s) => Some(s@), None => None }) < u32::MAX,
    ensures
        b@ == vstd::bytes::spec_u32_to_le_bytes((received_spec(match stored { Some(s) => Some(s@), None => None }) + 1) as u32),
        received_spec(Some(b@)) == received_spec(match stored { Some(s) => Some(s@), None => None }) + 1,
{
    let current = received_chunks(stored);
    received_bytes(current + 1)
}

/// Byte offset of upload piece `chunk_index` in the stored ciphertext.
pub fn upload_offset(chunk_index: u32) -> (offset: u64)
    ensures
        offset == chunk_index * UPLOAD_CHUNK_SIZE,
{
    assert(chunk_index * 16777216 <= 0xffff_ffff * 16777216) by (nonlinear_arith)
        requires
            chunk_index <= 0xffff_ffff,
    ;
    chunk_index as u64 * UPLOAD_CHUNK_SIZE as u64
}

/// When a paste with the given time-to-live expires: `now + ttl`, or 0
/// (never) when no positive time-to-live is set.
pub open spec fn expiration_spec(ttl_seconds: Option<u32>, now: u64) -> u64 {
    match ttl_seconds {
        Some(ttl) => if ttl > 0 { (now + ttl) as u64 } else { 0 },
        None => 0,
    }
}

/// Whether `now + ttl` fits in 64 bits where a positive time-to-live is set.
pub open spec fn expiration_computable(ttl_seconds: Option<u32>, now: u64) -> bool {
    match ttl_seconds {
        Some(ttl) => ttl > 0 ==> now + ttl <= u64::MAX,
        None => true,
    }
}

/// Tells whether `expiration_computable` holds.
pub fn expiration_fits(ttl_seconds: Option<u32>, now: u64) -> (r: bool)
    ensures
        r == expiration_computable(ttl_seconds, now),
{
    match ttl_seconds {
        Some(ttl) => ttl == 0 || now <= u64::MAX - ttl as u64,
        None => true,
    }
}

/// When a paste created now with the given time-to-live expires.
pub fn expiration_timestamp(ttl_seconds: Option<u32>, now: u64) -> (t: u64)
    requires
        expiration_computable(ttl_seconds, now),
    ensures
        t == expiration_spec(ttl_seconds, now),
{
    match ttl_seconds {
        Some(ttl) => if ttl > 0 { now + ttl as u64 } else { 0 },
        None => 0,
    }
}

/// Whether an expiration timestamp has passed: 0 means "never expires".
pub open spec fn expired_at(expiration_timestamp: u64, now: u64) -> bool {
    expiration_timestamp > 0 && now > expiration_timestamp
}

/// A paste created at `created` with a positive time-to-live counts as
/// expired exactly once more than that many seconds have passed; without a
/// time-to-live it never expires.
pub proof fn lemma_expiry(ttl_seconds: Option<u32>, created: u64, now: u64)
    requires
        expiration_computable(ttl_seconds, created),
        created <= now,
    ensures
        expired_at(expiration_spec(ttl_seconds, created), now) <==> (ttl_seconds matches Some(t) && t > 0 && now
            > created + t),
{
}

/// Whether a paste whose metadata reads `meta` has expired (no metadata:
/// not expired).
pub fn is_expired(meta: Option<&PasteMeta>, now: u64) -> (r: bool)
    ensures
        r == match meta {
            Some(m) => expired_at(m.expiration_timestamp, now),
            None => false,
        },
{
    match meta {
        Some(m) => m.expiration_timestamp > 0 && now > m.expiration_timestamp,
        None => false,
    }
}

/// Whether a new paste may take an id whose stored metadata reads `meta`
/// (`None` when there is none or it cannot be decoded): free ids and ids of
/// expired pastes are available.
pub fn id_available(meta: Option<&PasteMeta>, now: u64) -> (r: bool)
    ensures
        r == match meta {
            Some(m) => expired_at(m.expiration_timestamp, now),
            None => true,
        },
{
    match meta {
        Some(m) => m.expiration_timestamp > 0 && now > m.expiration_timestamp,
        None => true,
    }
}

/// The metadata stored for a new paste.
pub fn new_paste_meta(header: &CreatePasteHeader, now: u64) -> (meta: PasteMeta)
    requires
        expiration_computable(header.ttl_seconds, now),
    ensures
        meta.try_count == match header.try_count { Some(c) => c, None => 0 },
        meta.expiration_timestamp == expiration_spec(header.ttl_seconds, now),
        meta.data_type == header.data_type,
        meta.filename == header.filename,
        meta.content_type == header.content_type,
        meta.total_chunks == header.total_chunks,
        meta.allow_download == header.allow_download,
{
    let filename = match &header.filename {
        Some(f) => Some(f.clone()),
        None => None,
    };
    let content_type = match &header.content_type {
        Some(c) => Some(c.clone()),
        None => None,
    };
    PasteMeta {
        try_count: match header.try_count {
            Some(c) => c,
            None => 0,
        },
        expiration_timestamp: expiration_timestamp(header.ttl_seconds, now),
        data_type: header.data_type,
        filename,
        content_type,
        total_chunks: header.total_chunks,
        allow_download: header.allow_download,
    }
}

/// The metadata after one failed password attempt: one attempt fewer; a
/// paste without metadata, or with no attempts left, loses its metadata.
pub open spec fn decrement_spec(meta: Option<PasteMeta>) -> Option<PasteMeta> {
    match meta {
        None => None,
        Some(m) => if m.try_count == 0 {
            None
        } else {
            Some(PasteMeta { try_count: (m.try_count - 1) as u32, ..m })
        },
    }
}

/// One failed password attempt on a paste whose metadata reads `meta`.
pub fn decrement_tries(meta: Option<PasteMeta>) -> (updated: Option<PasteMeta>)
    ensures
        updated == decrement_spec(meta),
{
    match meta {
        None => None,
        Some(m) => {
            if m.try_count == 0 {
                None
            } else {
                Some(PasteMeta { try_count: m.try_count - 1, ..m })
            }
        },
    }
}

/// The metadata after `k` failed attempts in a row.
pub open spec fn after_failures(meta: Option<PasteMeta>, k: nat) -> Option<PasteMeta>
    decreases k,
{
    if k == 0 {
        meta
    } else {
        decrement_spec(after_failures(meta, (k - 1) as nat))
    }
}

/// Whether a failed attempt that left `updated` deletes the paste.
pub open spec fn exhausted_spec(updated: Option<PasteMeta>) -> bool {
    updated matches Some(u) && u.try_count == 0
}

/// A paste that allows `n` password attempts keeps everything but its
/// attempt count through failed attempts, and is deleted at the `n`-th
/// failed attempt and at no earlier one.
pub proof fn lemma_tries_run_out(m: PasteMeta, k: nat)
    requires
        1 <= k <= m.try_count,
    ensures
        after_failures(Some(m), k) == Some(PasteMeta { try_count: (m.try_count - k) as u32, ..m }),
        exhausted_spec(after_failures(Some(m), k)) <==> k == m.try_count,
    decreases k,
{
    let prev = after_failures(Some(m), (k - 1) as nat);
    assert(after_failures(Some(m), k) == decrement_spec(prev));
    if k > 1 {
        lemma_tries_run_out(m, (k - 1) as nat);
        assert(prev == Some(PasteMeta { try_count: (m.try_count - (k - 1)) as u32, ..m }));
    } else {
        assert(prev == Some(m));
    }
}

/// Whether the paste must be deleted after a failed attempt: its last
/// attempt has just been used.
pub fn exhausted(updated: &Option<PasteMeta>) -> (r: bool)
    ensures
        r == exhausted_spec(*updated),
{
    match updated {
        Some(u) => u.try_count == 0,
        None => false,
    }
}

/// The ids among `(id, expiration)` entries that have expired, in order.
pub open spec fn expired_ids(entries: Seq<(String, u64)>, now: u64) -> Seq<Seq<char>>
    decreases entries.len(),
{
    if entries.len() == 0 {
        Seq::empty()
    } else {
        let rest = expired_ids(entries.drop_last(), now);
        if expired_at(entries.last().1, now) { rest.push(entries.last().0@) } else { rest }
    }
}

/// Selects the pastes that the periodic cleanup deletes.
pub fn select_expired(entries: &Vec<(String, u64)>, now: u64) -> (ids: Vec<String>)
    ensures
        ids@.map_values(|s: String| s@) == expired_ids(entries@, now),
{
    let mut ids: Vec<String> = Vec::new();
    let mut i: usize = 0;
    while i < entries.len()
        invariant
            0 <= i <= entries@.len(),
            ids@.map_values(|s: String| s@) == expired_ids(entries@.subrange(0, i as int), now),
        decreases entries@.len() - i,
    {
        let entry = &entries[i];
        assert(entries@.subrange(0, i + 1).drop_last() =~= entries@.subrange(0, i as int));
        if entry.1 > 0 && now > entry.1 {
            ids.push(entry.0.clone());
            assert(ids@.map_values(|s: String| s@) =~= expired_ids(entries@.subrange(0, i + 1), now));
        } else {
            assert(ids@.map_values(|s: String| s@) =~= expired_ids(entries@.subrange(0, i + 1), now));
        }
        i = i + 1;
    }
    assert(entries@.subrange(0, entries@.len() as int) =~= entries@);
    ids
}

} // verus!
