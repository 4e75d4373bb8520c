//! Verified core of an end-to-end encrypted pastebin: chunked
//! ChaCha20-Poly1305 encryption keyed by Argon2id, password validation
//! tags, and the server's bookkeeping rules for pastes.

pub mod nonce;
pub mod bytes;
pub mod hmac;
pub mod aead;
pub mod kdf;
pub mod chunks;
pub mod content;
pub mod types;
pub mod text;
pub mod ids;
pub mod http;
pub mod api;
pub mod b64;
pub mod store;
pub mod rate;
pub mod cli;
pub mod page;
pub mod changelog;
