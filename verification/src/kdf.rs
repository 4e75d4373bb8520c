use argon2::{Algorithm, Argon2, Params, Version};
use vstd::prelude::*;
use vstd::string::StringSliceAdditionalSpecFns;

use crate::hmac::{compute_password_hash, hmac_sha256_spec};
use crate::ids::has_prefix;

verus! {

#[verifier::external_type_specification]
#[verifier::external_body]
pub struct ExArgon2Params(Params);

#[verifier::external_type_specification]
#[verifier::external_body]
pub struct ExArgon2Error(argon2::Error);

#[verifier::external_type_specification]
#[verifier::external_body]
pub struct ExRandomError(getrandom::Error);

/// Argon2id memory cost in KiB.
pub const ARGON2_M_COST: u32 = 19456;
/// Argon2id number of passes.
pub const ARGON2_T_COST: u32 = 2;
/// Argon2id degree of parallelism.
pub const ARGON2_P_COST: u32 = 1;
/// Bytes of key material drawn from Argon2id: an encryption key and a validation key.
pub const KEY_MATERIAL_LEN: usize = 64;

/// Longest password the `argon2` crate hashes.
pub const MAX_PWD_LEN: usize = 0xFFFF_FFFF;
/// Shortest salt the `argon2` crate accepts.
pub const MIN_SALT_LEN: usize = 8;
/// Longest salt the `argon2` crate accepts.
pub const MAX_SALT_LEN: usize = 0xFFFF_FFFF;

/// When `argon2::Params::new` accepts a parameter set (its source, version 0.6).
pub open spec fn argon2_params_accepted(m_cost: u32, t_cost: u32, p_cost: u32, output_len: Option<usize>) -> bool {
    &&& m_cost >= 8
    &&& 1 <= p_cost <= 0xFF_FFFF
    &&& m_cost >= p_cost * 8
    &&& t_cost >= 1
    &&& match output_len {
        Some(len) => 4 <= len <= 0xFFFF_FFFF,
        None => true,
    }
}

/// The 64 bytes Argon2id (version 0x13) derives from `password` and `salt`
/// with the given costs, as computed by the `argon2` crate.
pub uninterp spec fn argon2id_v13(m_cost: u32, t_cost: u32, p_cost: u32, password: Seq<u8>, salt: Seq<u8>) -> Seq<u8>;

/// Trusted: `argon2::Params::new`. Claims what its source shows: the
/// parameters are accepted exactly when `argon2_params_accepted` holds.
#[verifier::external_body]
fn argon2_params_new(m_cost: u32, t_cost: u32, p_cost: u32, output_len: Option<usize>) -> (r: Result<Params, argon2::Error>)
    ensures
        r is Ok <==> argon2_params_accepted(m_cost, t_cost, p_cost, output_len),
{
    Params::new(m_cost, t_cost, p_cost, output_len)
}

/// Trusted: `Argon2::hash_password_into` with Argon2id, version 0x13 and
/// parameters from `Params::new(m_cost, t_cost, p_cost, Some(64))`. Claims
/// that a success yields `argon2id_v13` of the arguments, and that the call
/// fails on rejected parameters, on a password longer than `MAX_PWD_LEN` and
/// on a salt outside `MIN_SALT_LEN..=MAX_SALT_LEN`, and that it succeeds
/// otherwise. Running out of memory for the working blocks, which the crate
/// reports as an error, is left aside, as it is for a growing `Vec`.
#[verifier::external_body]
fn argon2id_hash(
    m_cost: u32,
    t_cost: u32,
    p_cost: u32,
    password: &[u8],
    salt: &[u8],
) -> (r: Result<[u8; 64], argon2::Error>)
    ensures
        r matches Ok(out) ==> out@ == argon2id_v13(m_cost, t_cost, p_cost, password@, salt@),
        !argon2_params_accepted(m_cost, t_cost, p_cost, Some(64usize)) ==> r is Err,
        password@.len() > MAX_PWD_LEN ==> r is Err,
        salt@.len() < MIN_SALT_LEN ==> r is Err,
        salt@.len() > MAX_SALT_LEN ==> r is Err,
        argon2_params_accepted(m_cost, t_cost, p_cost, Some(64usize)) && password@.len() <= MAX_PWD_LEN
            && MIN_SALT_LEN <= salt@.len() <= MAX_SALT_LEN ==> r is Ok,
{
    let params = Params::new(m_cost, t_cost, p_cost, Some(64))?;
    let mut out = [0u8; 64];
    Argon2::new(Algorithm::Argon2id, Version::V0x13, params).hash_password_into(password, salt, &mut out)?;
    Ok(out)
}

/// Trusted: the `Display` text of an `argon2::Error`. Nothing is claimed of it.
#[verifier::external_body]
fn argon2_error_text(e: &argon2::Error) -> String {
    e.to_string()
}

/// Trusted: `getrandom::fill`. The bytes come from the operating system, so
/// the contract claims only that the buffer keeps its length.
#[verifier::external_body]
pub(crate) fn fill_random(dest: &mut [u8]) -> (r: Result<(), getrandom::Error>)
    ensures
        final(dest)@.len() == old(dest)@.len(),
{
    getrandom::fill(dest)
}

/// Trusted: the `Display` text of a `getrandom::Error`. Nothing is claimed of it.
#[verifier::external_body]
fn random_error_text(e: &getrandom::Error) -> String {
    e.to_string()
}

/// `prefix` followed by `detail`.
fn message(prefix: &str, detail: String) -> (s: String)
    ensures
        s@ == prefix@ + detail@,
        has_prefix(s@, prefix@),
{
    let mut s = String::from_str(prefix);
    s.append(detail.as_str());
    assert(s@.subrange(0, prefix@.len() as int) =~= prefix@);
    s
}

/// Whether `e` is an error text that preparing a paste with `password`
/// reports: a failure to draw the salt or the base nonce, or, for a
/// password too long for Argon2id, a failure to derive the key.
pub open spec fn setup_error(e: Seq<char>, password: Seq<u8>) -> bool {
    ||| has_prefix(e, "Failed to generate salt: "@)
    ||| has_prefix(e, "Failed to generate nonce: "@)
    ||| password.len() > MAX_PWD_LEN && has_prefix(e, "Failed to derive key: "@)
}

/// The Argon2id parameters pastes are keyed with: 19 MiB of memory, two
/// passes, one lane and 64 bytes of output.
pub fn get_argon2_params() -> (r: Result<Params, String>)
    ensures
        r is Ok,
{
    match argon2_params_new(ARGON2_M_COST, ARGON2_T_COST, ARGON2_P_COST, Some(KEY_MATERIAL_LEN)) {
        Ok(p) => Ok(p),
        Err(e) => Err(message("Failed to create Argon2 params: ", argon2_error_text(&e))),
    }
}

/// The key material derived from a password and salt.
pub open spec fn key_material(password: Seq<u8>, salt: Seq<u8>) -> Seq<u8> {
    argon2id_v13(ARGON2_M_COST, ARGON2_T_COST, ARGON2_P_COST, password, salt)
}

/// The encryption key: the first half of the key material.
pub open spec fn encryption_key_of(password: Seq<u8>, salt: Seq<u8>) -> Seq<u8> {
    key_material(password, salt).subrange(0, 32)
}

/// The validation key: the second half of the key material.
pub open spec fn validation_key_of(password: Seq<u8>, salt: Seq<u8>) -> Seq<u8> {
    key_material(password, salt).subrange(32, 64)
}

/// Whether Argon2id refuses these inputs outright.
pub open spec fn kdf_inputs_rejected(password: Seq<u8>, salt: Seq<u8>) -> bool {
    password.len() > MAX_PWD_LEN || salt.len() < MIN_SALT_LEN || salt.len() > MAX_SALT_LEN
}

/// Derives the encryption key and the validation key from a password and a
/// salt with Argon2id.
pub fn derive_keys(password: &str, salt: &[u8]) -> (r: Result<([u8; 32], [u8; 32]), String>)
    ensures
        r matches Ok(keys) ==> keys.0@ == encryption_key_of(password.spec_bytes(), salt@)
            && keys.1@ == validation_key_of(password.spec_bytes(), salt@)
            && keys.0@ + keys.1@ == key_material(password.spec_bytes(), salt@),
        kdf_inputs_rejected(password.spec_bytes(), salt@) <==> r is Err,
        r matches Err(e) ==> has_prefix(e@, "Failed to derive key: "@),
{
    let pwd = password.as_bytes();
    let output = match argon2id_hash(ARGON2_M_COST, ARGON2_T_COST, ARGON2_P_COST, pwd, salt) {
        Ok(out) => out,
        Err(e) => {
            return Err(message("Failed to derive key: ", argon2_error_text(&e)));
        },
    };
    let mut encryption_key = [0u8; 32];
    let mut validation_key = [0u8; 32];
    let mut i: usize = 0;
    while i < 32
        invariant
            0 <= i <= 32,
            output@ == key_material(password.spec_bytes(), salt@),
            forall|j: int| 0 <= j < i ==> #[trigger] encryption_key@[j] == output@[j],
            forall|j: int| 0 <= j < i ==> #[trigger] validation_key@[j] == output@[32 + j],
        decreases 32 - i,
    {
        encryption_key[i] = output[i];
        validation_key[i] = output[32 + i];
        i = i + 1;
    }
    assert(encryption_key@ =~= encryption_key_of(password.spec_bytes(), salt@));
    assert(validation_key@ =~= validation_key_of(password.spec_bytes(), salt@));
    assert(encryption_key@ + validation_key@ =~= key_material(password.spec_bytes(), salt@));
    Ok((encryption_key, validation_key))
}

/// Draws a fresh 16-byte salt from the operating system.
fn generate_salt() -> (r: Result<[u8; 16], String>)
    ensures
        r matches Err(e) ==> has_prefix(e@, "Failed to generate salt: "@),
{
    let mut salt = [0u8; 16];
    match fill_random(&mut salt) {
        Ok(()) => Ok(salt),
        Err(e) => Err(message("Failed to generate salt: ", random_error_text(&e))),
    }
}

/// Draws a fresh 12-byte base nonce from the operating system.
fn generate_nonce() -> (r: Result<[u8; 12], String>)
    ensures
        r matches Err(e) ==> has_prefix(e@, "Failed to generate nonce: "@),
{
    let mut nonce = [0u8; 12];
    match fill_random(&mut nonce) {
        Ok(()) => Ok(nonce),
        Err(e) => Err(message("Failed to generate nonce: ", random_error_text(&e))),
    }
}

/// Prepares a new paste: a random salt and base nonce, the encryption key
/// derived from the password and that salt, and the password validation tag.
pub fn encrypt_setup(password: &str) -> (r: Result<([u8; 16], [u8; 12], [u8; 32], [u8; 32]), String>)
    ensures
        r matches Ok(setup) ==> setup.2@ == encryption_key_of(password.spec_bytes(), setup.0@)
            && setup.3@ == hmac_sha256_spec(validation_key_of(password.spec_bytes(), setup.0@), setup.0@),
        password.spec_bytes().len() > MAX_PWD_LEN ==> r is Err,
        r matches Err(e) ==> setup_error(e@, password.spec_bytes()),
{
    let salt = match generate_salt() {
        Ok(salt) => salt,
        Err(e) => {
            return Err(e);
        },
    };
    let (encryption_key, validation_key) = match derive_keys(password, salt.as_slice()) {
        Ok(keys) => keys,
        Err(e) => {
            return Err(e);
        },
    };
    let base_nonce = match generate_nonce() {
        Ok(n) => n,
        Err(e) => {
            return Err(e);
        },
    };
    let password_hash = compute_password_hash(&validation_key, salt.as_slice());
    Ok((salt, base_nonce, encryption_key, password_hash))
}

} // verus!
