//! Trusted wrappers around the outside crates that the core calls in the
//! middle of its logic: HMAC signing, password hashing and verification,
//! instant parsing and formatting, and API-key generation. Each wrapper's
//! contract states what the called function returns; the results of the
//! deterministic calls are given names that the callers' contracts reuse.

use vstd::prelude::*;

use crate::errors::AppError;
use argon2::Argon2;
use argon2::password_hash::phc::PasswordHash;
use argon2::password_hash::{PasswordHasher, PasswordVerifier};
use jsonwebtoken::{Algorithm, EncodingKey};

verus! {

/// The HMAC-SHA256 tag of a message under a secret, in base64url text as
/// `jsonwebtoken::crypto::sign` returns it. The tag depends on the message
/// and the secret alone.
pub uninterp spec fn spec_hmac_tag(message: Seq<char>, secret: Seq<char>) -> Seq<char>;

/// Whether Argon2 verification of a password against a stored PHC hash
/// string succeeds. Verification is deterministic in the pair.
pub uninterp spec fn spec_password_matches(password: Seq<char>, hash: Seq<char>) -> bool;

/// Whether a stored string parses as a PHC-format password hash.
pub uninterp spec fn spec_is_phc_hash(hash: Seq<char>) -> bool;

/// The instant denoted by an RFC 3339 text, in whole seconds since the
/// epoch, or nothing when the text is not a valid instant.
pub uninterp spec fn spec_instant_of(s: Seq<char>) -> Option<int>;

/// The RFC 3339 rendering of an instant given in seconds since the epoch.
pub uninterp spec fn spec_rfc3339_of(ts: int) -> Seq<char>;

/// Relies on `jsonwebtoken::crypto::sign` with `Algorithm::HS256` and a
/// secret key: it returns the base64url text of the HMAC-SHA256 tag of the
/// message, a function of message and secret alone. With an HMAC algorithm
/// and a key built by `EncodingKey::from_secret`, signing accepts keys of
/// any length and cannot fail.
#[verifier::external_body]
pub fn hmac_sha256_tag(message: &String, secret: &String) -> (r: String)
    ensures
        r@ == spec_hmac_tag(message@, secret@),
{
    let key = EncodingKey::from_secret(secret.as_bytes());
    jsonwebtoken::crypto::sign(message.as_bytes(), &key, Algorithm::HS256)
        .expect("HMAC signing with a secret key cannot fail")
}

/// Hash a password with Argon2 and a fresh random salt.
/// Relies on `Argon2::hash_password`: on success the result is a PHC hash
/// string that `Argon2::verify_password` accepts for the same password.
#[verifier::external_body]
pub fn hash_password(password: &str) -> (r: Result<String, AppError>)
    ensures
        r matches Ok(h) ==> spec_is_phc_hash(h@) && spec_password_matches(password@, h@),
        r matches Err(e) ==> e matches AppError::InternalServerError(_),
{
    let argon2 = Argon2::default();
    match argon2.hash_password(password.as_bytes()) {
        Ok(hash) => Ok(hash.to_string()),
        Err(e) => Err(AppError::InternalServerError(format!("Failed to hash password: {}", e))),
    }
}

/// Verify a password against a stored hash.
/// Relies on `phc::PasswordHash::new`, which succeeds exactly on PHC-format
/// hash strings, and on `Argon2::verify_password`, whose outcome is a
/// deterministic function of the password and the hash.
#[verifier::external_body]
pub fn verify_password(password: &str, hash: &str) -> (r: Result<bool, AppError>)
    ensures
        r matches Ok(b) ==> spec_is_phc_hash(hash@) && b == spec_password_matches(password@, hash@),
        r matches Err(e) ==> !spec_is_phc_hash(hash@) && e matches AppError::InternalServerError(_),
{
    match PasswordHash::new(hash) {
        Ok(parsed) => Ok(Argon2::default().verify_password(password.as_bytes(), &parsed).is_ok()),
        Err(e) => Err(AppError::InternalServerError(format!("Failed to parse hash: {}", e))),
    }
}

/// Parse an RFC 3339 instant to whole seconds since the epoch.
/// Relies on `chrono::DateTime::parse_from_rfc3339` and
/// `DateTime::timestamp`, a deterministic function of the text.
#[verifier::external_body]
pub fn parse_rfc3339_seconds(s: &str) -> (r: Option<i64>)
    ensures
        r matches Some(t) ==> spec_instant_of(s@) == Some(t as int),
        r is None ==> spec_instant_of(s@) is None,
{
    match chrono::DateTime::parse_from_rfc3339(s) {
        Ok(dt) => Some(dt.timestamp()),
        Err(_) => None,
    }
}

/// Render an instant given in seconds since the epoch as RFC 3339 text.
/// Relies on `chrono::DateTime::from_timestamp`, which succeeds whenever
/// the instant's civil date is representable - in particular on the whole
/// first hundred thousand years of the epoch - and on
/// `DateTime::to_rfc3339`, whose result is a deterministic function of the
/// instant.
#[verifier::external_body]
pub fn format_rfc3339_seconds(ts: i64) -> (r: Option<String>)
    ensures
        r matches Some(s) ==> s@ == spec_rfc3339_of(ts as int),
        0 <= ts < 3200000000000 ==> r is Some,
{
    chrono::DateTime::<chrono::Utc>::from_timestamp(ts, 0).map(|dt| dt.to_rfc3339())
}

/// A fresh opaque API-key string.
/// Relies on `uuid::Uuid::new_v4`; the result is random, so nothing is
/// assumed of it.
#[verifier::external_body]
pub fn new_opaque_key() -> String {
    uuid::Uuid::new_v4().to_string()
}

} // verus!
