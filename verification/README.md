# mitsuzo

An end-to-end encrypted pastebin. Pastes are encrypted on the client with
ChaCha20-Poly1305 in 64 KiB chunks under a key derived with Argon2id; the
server only stores ciphertext, a salt and an HMAC-SHA256 tag that lets it
check a password without learning it. Pastes expire after a time-to-live
and are deleted once their password attempts are used up.

## Layout

- `src/` — the library, verified with Verus:
  - `nonce`, `aead`, `kdf`, `hmac`, `chunks`, `content`: key derivation,
    per-chunk nonces, chunked sealing and opening, size computations;
  - `api`, `http`, `ids`, `store`, `rate`: the server's decisions (request
    checks, password checks, response assembly, range requests, store keys,
    counters, expiry, attempt counting, rate limiting);
  - `cli`, `page`: the clients' computations (sizes, upload and download
    pieces, work shared between threads, retries, form fields, previews);
  - `changelog`: the release notes the web page lists;
  - `types`, `text`, `bytes`, `b64`: message types, text and byte helpers,
    base64.
- `tests/` — tests of the library on concrete values.
- `app/` — the program around it: `mitsuzo serve` runs the HTTP server
  (axum, sled, files on disk), `mitsuzo create` and `mitsuzo get` are the
  command-line client.
