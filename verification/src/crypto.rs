//! Cryptographic primitives the services rely on, each a thin trusted
//! wrapper around the crate that implements it.
use argon2::password_hash::rand_core::OsRng;
use argon2::password_hash::PasswordHasher;
use argon2::password_hash::SaltString;
use argon2::PasswordVerifier;
use ed25519_dalek::Verifier;
use hmac::Mac;
use vstd::prelude::*;

verus! {

/// Whether Argon2 (default parameters taken from the PHC string) accepts
/// `password` against the PHC-format hash `phc`.
pub uninterp spec fn argon2_verifies(password: Seq<char>, phc: Seq<char>) -> bool;

/// HMAC-SHA256 of `msg` under `key`.
pub uninterp spec fn hmac_sha256_of(key: Seq<u8>, msg: Seq<u8>) -> Seq<u8>;

/// Whether the Ed25519 public key `public_key` (32 bytes) decodes to a valid
/// point and `signature` (64 bytes) is a valid signature of `message` under it.
pub uninterp spec fn ed25519_accepts(public_key: Seq<u8>, message: Seq<u8>, signature: Seq<u8>) -> bool;

/// The lowercase hexadecimal digit of a nibble.
pub open spec fn hex_digit(n: int) -> char {
    if n < 10 {
        ((n + 48) as u8) as char
    } else {
        ((n - 10 + 97) as u8) as char
    }
}

/// Lowercase hexadecimal encoding: two digits per byte, high nibble first.
pub open spec fn hex_lower(bytes: Seq<u8>) -> Seq<char>
    decreases bytes.len(),
{
    if bytes.len() == 0 {
        Seq::empty()
    } else {
        seq![hex_digit(bytes[0] as int / 16), hex_digit(bytes[0] as int % 16)] + hex_lower(bytes.drop_first())
    }
}

/// `hex::encode`: lowercase hex digits of the bytes, two per byte.
#[verifier::external_body]
pub(crate) fn hex_encode(bytes: &[u8]) -> (s: String)
    ensures
        s@ == hex_lower(bytes@),
{
    hex::encode(bytes)
}

/// HMAC-SHA256 (`hmac::Hmac<sha2::Sha256>`): keys of any length are accepted
/// (`new_from_slice` cannot fail for HMAC), the message is fed once and the
/// 32-byte tag is returned.
#[verifier::external_body]
pub(crate) fn hmac_sha256(key: &[u8], msg: &[u8]) -> (tag: Vec<u8>)
    ensures
        tag@ == hmac_sha256_of(key@, msg@),
        tag@.len() == 32,
{
    let mut mac = <hmac::Hmac<sha2::Sha256> as Mac>::new_from_slice(key).expect("HMAC key");
    mac.update(msg);
    mac.finalize().into_bytes().to_vec()
}

/// `argon2` verification: parses the PHC string (`PasswordHash::new`) and
/// runs `Argon2::default().verify_password`; a hash that does not parse is
/// rejected.
#[verifier::external_body]
pub(crate) fn argon2_verify(password: &str, phc: &str) -> (ok: bool)
    ensures
        ok == argon2_verifies(password@, phc@),
{
    match argon2::password_hash::PasswordHash::new(phc) {
        Ok(h) => argon2::Argon2::default().verify_password(password.as_bytes(), &h).is_ok(),
        Err(_) => false,
    }
}

/// `Argon2::default().hash_password` with a fresh random salt
/// (`SaltString::generate(&mut OsRng)`), as a PHC string. The salt is random,
/// so the hash itself is not stated; what holds of every outcome: a hash it
/// returns is accepted by verification with the same password, since
/// verification recomputes the hash with the parameters and salt recorded in
/// the PHC string; the PHC string starts with its `$` separator; and with
/// the default parameters and a generated 16-byte salt the only input that
/// fails is a password longer than `u32::MAX` bytes (`Error::PwdTooLong`), so
/// a password of at most `u32::MAX / 4` characters always hashes.
#[verifier::external_body]
pub(crate) fn argon2_hash(password: &str) -> (r: Result<String, String>)
    ensures
        r matches Ok(h) ==> argon2_verifies(password@, h@),
        r matches Ok(h) ==> h@.len() > 0 && h@[0] == '$',
        password@.len() * 4 <= u32::MAX ==> r is Ok,
{
    let salt = SaltString::generate(&mut OsRng);
    argon2::Argon2::default()
        .hash_password(password.as_bytes(), &salt)
        .map(|h| h.to_string())
        .map_err(|e| e.to_string())
}

/// Ed25519 verification (`ed25519_dalek`): decodes the public key
/// (`VerifyingKey::from_bytes`, which rejects invalid points) and the
/// signature (`Signature::from_bytes`), then runs `verify`.
#[verifier::external_body]
pub(crate) fn ed25519_verify(public_key: &[u8; 32], message: &[u8], signature: &[u8; 64]) -> (ok: bool)
    ensures
        ok == ed25519_accepts(public_key@, message@, signature@),
{
    match ed25519_dalek::VerifyingKey::from_bytes(public_key) {
        Ok(key) => key.verify(message, &ed25519_dalek::Signature::from_bytes(signature)).is_ok(),
        Err(_) => false,
    }
}

/// A fresh random (version 4) UUID in its hyphenated text form
/// (`Uuid::new_v4().to_string()`), which is 36 characters long. The value is
/// random: nothing else is known of it.
#[verifier::external_body]
pub(crate) fn new_uuid() -> (s: String)
    ensures
        s@.len() == 36,
{
    uuid::Uuid::new_v4().to_string()
}

} // verus!
