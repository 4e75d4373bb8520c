use vstd::prelude::*;

verus! {

/// Plaintext bytes per encryption chunk.
pub const CHUNK_SIZE: usize = 65536;

/// Largest ciphertext piece a client uploads in one request.
pub const UPLOAD_CHUNK_SIZE: usize = 16_777_216;

/// Largest paste a client accepts to encrypt.
pub const MAX_PASTE_SIZE: usize = 1_073_741_824;

/// What a paste holds.
#[derive(Clone, Copy, Debug, PartialEq, Eq, Structural)]
pub enum DataType {
    Text,
    File,
}

/// Sent by a client to open a new paste.
#[derive(Clone, Debug, PartialEq)]
pub struct CreatePasteHeader {
    pub nonce: [u8; 12],
    pub salt: [u8; 16],
    pub password_hash: [u8; 32],
    pub try_count: Option<u32>,
    pub ttl_seconds: Option<u32>,
    pub data_type: DataType,
    pub filename: Option<String>,
    pub content_type: Option<String>,
    pub total_chunks: u32,
    pub allow_download: bool,
}

/// The identifier the server assigned to a new paste.
#[derive(Clone, Debug, PartialEq)]
pub struct InitPasteResponse {
    pub id: String,
}

/// How many upload pieces the server has received for a paste.
#[derive(Clone, Debug, PartialEq)]
pub struct ChunkInfoResponse {
    pub received: u32,
}

/// Sent ahead of the ciphertext when a paste is fetched.
#[derive(Clone, Debug, PartialEq)]
pub struct GetPasteHeader {
    pub id: String,
    pub nonce: [u8; 12],
    pub data_type: DataType,
    pub filename: Option<String>,
    pub content_type: Option<String>,
    pub total_size: u64,
    pub total_chunks: u32,
    pub allow_download: bool,
}

/// Everything a client needs to derive its keys and fetch a paste.
#[derive(Clone, Debug, PartialEq)]
pub struct GetSaltResponse {
    pub salt: Vec<u8>,
    pub try_count: u32,
    pub ttl: u64,
    pub total_chunks: u32,
    pub total_size: u64,
    pub nonce: [u8; 12],
    pub data_type: DataType,
    pub filename: Option<String>,
    pub content_type: Option<String>,
    pub allow_download: bool,
}

/// Usage counters the server publishes.
#[derive(Clone, Debug, PartialEq)]
pub struct GetStatsResponse {
    pub pastes_all_time: u64,
    pub pastes_daily: u64,
    pub requests_success_all_time: u64,
    pub requests_success_daily: u64,
    pub requests_fail_all_time: u64,
    pub requests_fail_daily: u64,
}

/// The answer of a browser request.
#[derive(Clone, Debug, PartialEq)]
pub struct XhrResponse {
    pub status: u16,
    pub status_text: String,
    pub body: Option<Vec<u8>>,
}

/// Progress of a browser request: bytes moved so far, and the total when known.
#[derive(Clone, Copy, Debug, PartialEq, Eq, Structural)]
pub struct XhrProgress {
    pub loaded: u64,
    pub total: u64,
}

} // verus!
