//! The cryptographic core of the encrypted passport file: a key derived
//! from the passphrase with Argon2id, and the passport's bytes sealed with
//! XChaCha20-Poly1305 under it.

use vstd::prelude::*;
use argon2::{Algorithm, Argon2, Params, Version};
use chacha20poly1305::aead::{Aead, KeyInit};
use chacha20poly1305::{Key, XChaCha20Poly1305, XNonce};
use zeroize::Zeroize;
use crate::error::{ErrorView, HbciError, HbciErrorKind, HbciResult};
use crate::text::str_eq;

verus! {

/// The format name of a passport file.
pub const FORMAT: &'static str = "hbci4rust-pintan-passport";
/// The version of the passport file format.
pub const VERSION: u8 = 1;
/// The length of the salt of the key derivation.
pub const SALT_LEN: usize = 16;
/// The length of the derived key.
pub const KEY_LEN: usize = 32;
/// The length of an XChaCha20-Poly1305 nonce.
pub const NONCE_LEN: usize = 24;

/// The cost parameters of the Argon2id key derivation.
#[derive(Debug, Clone, Copy, PartialEq, Eq, Structural)]
pub struct KdfParams {
    pub memory_cost_kib: u32,
    pub time_cost: u32,
    pub parallelism: u32,
}

impl KdfParams {
    /// The parameters that new passport files use: 19 MiB, two passes, one lane.
    pub fn standard() -> (k: Self)
        ensures
            k.memory_cost_kib == 19 * 1024 && k.time_cost == 2 && k.parallelism == 1,
    {
        KdfParams { memory_cost_kib: 19 * 1024, time_cost: 2, parallelism: 1 }
    }
}

/// The key that Argon2id (version 0x13, output of `KEY_LEN` bytes) derives
/// from a passphrase, a salt and cost parameters.
pub uninterp spec fn argon2id_key(passphrase: Seq<u8>, salt: Seq<u8>, m: u32, t: u32, p: u32) -> Seq<u8>;

/// The ciphertext (with its tag) that XChaCha20-Poly1305 makes of a
/// plaintext under a key and a nonce; `None` where it refuses.
pub uninterp spec fn xchacha_seal(key: Seq<u8>, nonce: Seq<u8>, plaintext: Seq<u8>) -> Option<Seq<u8>>;

/// The plaintext that XChaCha20-Poly1305 recovers from a ciphertext under
/// a key and a nonce; `None` where the tag does not check.
pub uninterp spec fn xchacha_open(key: Seq<u8>, nonce: Seq<u8>, ciphertext: Seq<u8>) -> Option<Seq<u8>>;

/// Whether `argon2::Params::new` accepts the costs (for a key of
/// `KEY_LEN` bytes).
pub open spec fn argon2_params_ok(k: KdfParams) -> bool {
    &&& k.memory_cost_kib >= 8
    &&& k.memory_cost_kib >= k.parallelism * 8
    &&& k.time_cost >= 1
    &&& k.parallelism >= 1
    &&& k.parallelism <= 0xFFFFFF
}

/// Why deriving a key failed.
#[derive(Debug, Clone, Copy, PartialEq, Eq, Structural)]
pub enum KdfFailure {
    InvalidParams,
    HashFailed,
}

/// `argon2::Params::new` and `Argon2::hash_password_into` of the `argon2`
/// crate (Argon2id, version 0x13): the parameters are refused exactly
/// where `argon2_params_ok` fails; past that the hash fails exactly for a
/// salt shorter than 8 or longer than 2^32-1 bytes or a passphrase longer
/// than 2^32-1 bytes, and otherwise gives the `KEY_LEN` bytes of the
/// derived key.
/// The memory that the costs ask for is allocated; where it cannot be, the
/// process ends, which nothing here states.
#[verifier::external_body]
fn argon2id_derive(passphrase: &[u8], salt: &[u8], kdf: KdfParams) -> (r: Result<Vec<u8>, KdfFailure>)
    requires
        kdf.parallelism * 8 <= u32::MAX,
    ensures
        r matches Ok(key) ==> argon2_params_ok(kdf) && key@ == argon2id_key(
            passphrase@,
            salt@,
            kdf.memory_cost_kib,
            kdf.time_cost,
            kdf.parallelism,
        ) && key@.len() == KEY_LEN && 8 <= salt@.len() <= u32::MAX && passphrase@.len() <= u32::MAX,
        r matches Err(e) ==> (e == KdfFailure::InvalidParams <==> !argon2_params_ok(kdf)) && (e == KdfFailure::HashFailed
            ==> (salt@.len() < 8 || salt@.len() > u32::MAX || passphrase@.len() > u32::MAX)),
{
    let params = match Params::new(kdf.memory_cost_kib, kdf.time_cost, kdf.parallelism, Some(KEY_LEN)) {
        Ok(p) => p,
        Err(_) => return Err(KdfFailure::InvalidParams),
    };
    let argon2 = Argon2::new(Algorithm::Argon2id, Version::V0x13, params);
    let mut key = vec![0u8; KEY_LEN];
    match argon2.hash_password_into(passphrase, salt, &mut key) {
        Ok(()) => Ok(key),
        Err(_) => Err(KdfFailure::HashFailed),
    }
}

/// `XChaCha20Poly1305::encrypt` of the `chacha20poly1305` crate, with the
/// key and nonce given as bytes.
#[verifier::external_body]
fn xchacha_encrypt(key: &[u8], nonce: &[u8], plaintext: &[u8]) -> (r: Option<Vec<u8>>)
    requires
        key@.len() == KEY_LEN,
        nonce@.len() == NONCE_LEN,
    ensures
        match xchacha_seal(key@, nonce@, plaintext@) {
            Some(c) => r matches Some(x) && x@ == c,
            None => r is None,
        },
{
    let cipher = XChaCha20Poly1305::new(Key::from_slice(key));
    cipher.encrypt(XNonce::from_slice(nonce), plaintext).ok()
}

/// `XChaCha20Poly1305::decrypt` of the `chacha20poly1305` crate, with the
/// key and nonce given as bytes. As for any AEAD, what was sealed under a
/// key and a nonce opens under them to the plaintext.
#[verifier::external_body]
fn xchacha_decrypt(key: &[u8], nonce: &[u8], ciphertext: &[u8]) -> (r: Option<Vec<u8>>)
    requires
        key@.len() == KEY_LEN,
        nonce@.len() == NONCE_LEN,
    ensures
        match xchacha_open(key@, nonce@, ciphertext@) {
            Some(p) => r matches Some(x) && x@ == p,
            None => r is None,
        },
        match r {
            Some(x) => forall|pt: Seq<u8>| #[trigger] xchacha_seal(key@, nonce@, pt) == Some(ciphertext@) ==> x@ == pt,
            None => forall|pt: Seq<u8>| #[trigger] xchacha_seal(key@, nonce@, pt) != Some(ciphertext@),
        },
{
    let cipher = XChaCha20Poly1305::new(Key::from_slice(key));
    cipher.decrypt(XNonce::from_slice(nonce), ciphertext).ok()
}

/// `Zeroize::zeroize` on a vector of the `zeroize` crate: the bytes are
/// overwritten and the vector left empty.
#[verifier::external_body]
fn wipe(bytes: &mut Vec<u8>)
    ensures
        final(bytes)@.len() == 0,
{
    bytes.zeroize();
}

pub open spec fn storage_error(m: Seq<char>) -> ErrorView {
    ErrorView { kind: HbciErrorKind::Storage, message: m, source: None }
}

/// The key for a passphrase, salt and costs, or the error.
pub open spec fn derived_key(passphrase: Seq<u8>, salt: Seq<u8>, kdf: KdfParams) -> Result<Seq<u8>, ErrorView> {
    if !argon2_params_ok(kdf) {
        Err(storage_error("invalid Argon2id parameters"@))
    } else if salt.len() < 8 || salt.len() > u32::MAX || passphrase.len() > u32::MAX {
        Err(storage_error("Argon2id failed"@))
    } else {
        Ok(argon2id_key(passphrase, salt, kdf.memory_cost_kib, kdf.time_cost, kdf.parallelism))
    }
}

/// What sealing a passport's bytes gives: an error for an empty
/// passphrase or a failed key derivation, else the ciphertext under the
/// derived key (an error where the cipher refuses).
pub open spec fn sealed(plaintext: Seq<u8>, passphrase: Seq<u8>, salt: Seq<u8>, nonce: Seq<u8>, kdf: KdfParams) -> Result<Seq<u8>, ErrorView> {
    if passphrase.len() == 0 {
        Err(ErrorView { kind: HbciErrorKind::InvalidArgument, message: "passport passphrase must not be empty"@, source: None })
    } else {
        match derived_key(passphrase, salt, kdf) {
            Err(e) => Err(e),
            Ok(key) => match xchacha_seal(key, nonce, plaintext) {
                Some(c) => Ok(c),
                None => Err(storage_error("failed to encrypt passport"@)),
            },
        }
    }
}

/// What opening a sealed passport gives: the plaintext under the derived
/// key, or the error.
pub open spec fn opened(ciphertext: Seq<u8>, passphrase: Seq<u8>, salt: Seq<u8>, nonce: Seq<u8>, kdf: KdfParams) -> Result<Seq<u8>, ErrorView> {
    match derived_key(passphrase, salt, kdf) {
        Err(e) => Err(e),
        Ok(key) => match xchacha_open(key, nonce, ciphertext) {
            Some(p) => Ok(p),
            None => Err(storage_error("failed to decrypt passport"@)),
        },
    }
}

fn derive_key(passphrase: &[u8], salt: &[u8], kdf: KdfParams) -> (r: HbciResult<Vec<u8>>)
    requires
        kdf.parallelism * 8 <= u32::MAX,
    ensures
        match derived_key(passphrase@, salt@, kdf) {
            Ok(k) => r matches Ok(x) && x@ == k && x@.len() == KEY_LEN,
            Err(e) => r matches Err(x) && x@ == e,
        },
{
    match argon2id_derive(passphrase, salt, kdf) {
        Ok(key) => Ok(key),
        Err(KdfFailure::InvalidParams) => Err(HbciError::new(HbciErrorKind::Storage, "invalid Argon2id parameters")),
        Err(KdfFailure::HashFailed) => Err(HbciError::new(HbciErrorKind::Storage, "Argon2id failed")),
    }
}

/// The passport store: sealing and opening a passport's bytes.
pub struct PassportStorage;

impl PassportStorage {
    /// Accepts the envelope of a passport file of this format and version
    /// only.
    pub fn check_envelope(format: &str, version: u8) -> (r: HbciResult<()>)
        ensures
            format@ == FORMAT@ && version == VERSION ==> r is Ok,
            !(format@ == FORMAT@ && version == VERSION) ==> (r matches Err(e) && e@ == storage_error(
                "unsupported passport envelope format"@,
            )),
    {
        if str_eq(format, FORMAT) && version == VERSION {
            Ok(())
        } else {
            Err(HbciError::new(HbciErrorKind::Storage, "unsupported passport envelope format"))
        }
    }

    /// Accepts the key derivation `argon2id` only.
    pub fn check_kdf_algorithm(algorithm: &str) -> (r: HbciResult<()>)
        ensures
            algorithm@ == "argon2id"@ ==> r is Ok,
            algorithm@ != "argon2id"@ ==> (r matches Err(e) && e@ == storage_error("unsupported passport KDF"@)),
    {
        if str_eq(algorithm, "argon2id") {
            Ok(())
        } else {
            Err(HbciError::new(HbciErrorKind::Storage, "unsupported passport KDF"))
        }
    }

    /// Seals the bytes of a passport under a key derived from the
    /// passphrase with the salt and costs, with the nonce given.
    pub fn seal(plaintext: &[u8], passphrase: &[u8], salt: &[u8], nonce: &[u8], kdf: KdfParams) -> (r: HbciResult<Vec<u8>>)
        requires
            nonce@.len() == NONCE_LEN,
            kdf.parallelism * 8 <= u32::MAX,
        ensures
            match sealed(plaintext@, passphrase@, salt@, nonce@, kdf) {
                Ok(c) => r matches Ok(x) && x@ == c,
                Err(e) => r matches Err(x) && x@ == e,
            },
    {
        if passphrase.len() == 0 {
            return Err(HbciError::new(HbciErrorKind::InvalidArgument, "passport passphrase must not be empty"));
        }
        let mut key = match derive_key(passphrase, salt, kdf) {
            Ok(k) => k,
            Err(e) => {
                return Err(e);
            },
        };
        let sealed = xchacha_encrypt(key.as_slice(), nonce, plaintext);
        wipe(&mut key);
        match sealed {
            Some(c) => Ok(c),
            None => Err(HbciError::new(HbciErrorKind::Storage, "failed to encrypt passport")),
        }
    }

    /// Opens sealed passport bytes with the passphrase, salt, costs and
    /// nonce they were sealed with. Bytes that `seal` gave open to what was
    /// sealed.
    pub fn open(ciphertext: &[u8], passphrase: &[u8], salt: &[u8], nonce: &[u8], kdf: KdfParams) -> (r: HbciResult<Vec<u8>>)
        requires
            nonce@.len() == NONCE_LEN,
            kdf.parallelism * 8 <= u32::MAX,
        ensures
            match opened(ciphertext@, passphrase@, salt@, nonce@, kdf) {
                Ok(p) => r matches Ok(x) && x@ == p,
                Err(e) => r matches Err(x) && x@ == e,
            },
            forall|pt: Seq<u8>|
                #[trigger] sealed(pt, passphrase@, salt@, nonce@, kdf) == Ok::<Seq<u8>, ErrorView>(ciphertext@)
                    ==> (r matches Ok(x) && x@ == pt),
    {
        let mut key = match derive_key(passphrase, salt, kdf) {
            Ok(k) => k,
            Err(e) => {
                assert forall|pt: Seq<u8>|
                    #[trigger] sealed(pt, passphrase@, salt@, nonce@, kdf) == Ok::<Seq<u8>, ErrorView>(ciphertext@)
                        implies false by {
                }
                return Err(e);
            },
        };
        let opened = xchacha_decrypt(key.as_slice(), nonce, ciphertext);
        wipe(&mut key);
        match opened {
            Some(p) => Ok(p),
            None => Err(HbciError::new(HbciErrorKind::Storage, "failed to decrypt passport")),
        }
    }
}

} // verus!
