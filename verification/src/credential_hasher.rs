//! Salted, memory-hard password hashing with Argon2id.
//!
//! The hashing itself is done by the `argon2` crate. What it computes is not
//! restated here: it is given a name, and the functions of this module say
//! what they return in terms of that name.

use crate::auth_errors::AuthServiceError;
use argon2::password_hash::{PasswordHash, PasswordHasher, PasswordVerifier, Salt, SaltString};
use argon2::Argon2;
use vstd::prelude::*;
use vstd::string::StringSliceAdditionalSpecFns;

verus! {

/// The error type of the `password-hash` crate.
#[verifier::external_type_specification]
#[verifier::external_body]
pub struct ExPasswordHashError(argon2::password_hash::Error);

/// The most bytes that the hasher takes as a password.
pub const MAX_PASSWORD_BYTES: u64 = 0xFFFF_FFFF;

/// The number of characters of a salt that is drawn anew: sixteen bytes in
/// the textual form that salts have.
pub const SALT_LENGTH: usize = 22;

/// What `Argon2::default().hash_password` makes of the bytes of a password
/// and a salt in its textual form, written out as a string: `None` where it
/// returns an error.
pub uninterp spec fn argon2_encoding(password: Seq<u8>, salt: Seq<char>) -> Option<Seq<char>>;

/// Whether `encoded` parses with `PasswordHash::new` and
/// `Argon2::default().verify_password` then accepts the bytes of a password
/// for it.
pub uninterp spec fn argon2_accepts(encoded: Seq<char>, password: Seq<u8>) -> bool;

/// What stands in an encoded hash before the salt: the algorithm, its
/// version and its cost parameters.
pub open spec fn encoding_head() -> Seq<char> {
    "$argon2id$v=19$m=19456,t=2,p=1$"@
}

/// The length of what follows the salt in an encoded hash: a `$` and the
/// digest of 32 bytes in 43 characters.
pub open spec fn encoding_tail_len() -> nat {
    44
}

/// `encoded` is made of the algorithm's parameters, then `salt`, then a
/// digest.
pub open spec fn embeds_salt(encoded: Seq<char>, salt: Seq<char>) -> bool {
    exists|digest: Seq<char>|
        digest.len() == encoding_tail_len() && #[trigger] (encoding_head() + salt + digest)
            == encoded
}

/// The hasher fails under `salt` for no password that it takes: for none of
/// at most `MAX_PASSWORD_BYTES` bytes.
pub open spec fn hashes_every_password(salt: Seq<char>) -> bool {
    forall|password: Seq<u8>|
        password.len() <= MAX_PASSWORD_BYTES ==> (#[trigger] argon2_encoding(password, salt))
            is Some
}

/// `SaltString::generate` with `rand::thread_rng()`: sixteen random bytes in
/// the textual form that salts have, which is of 22 characters. Nothing is
/// claimed of the bytes. Such a salt is read back as a salt of sixteen
/// bytes, and of its inputs `Argon2::default().hash_password` refuses only a
/// salt of under eight bytes and a password of more than
/// `MAX_PASSWORD_BYTES` bytes: so it fails under this salt for no password
/// within that limit.
#[verifier::external_body]
fn fresh_salt() -> (salt: String)
    ensures
        salt@.len() == SALT_LENGTH,
        hashes_every_password(salt@),
{
    SaltString::generate(&mut rand::thread_rng()).as_str().to_owned()
}

/// `Argon2::default().hash_password` on a salt read with `Salt::from_b64`,
/// the result written out with `to_string`. The result is the named one.
/// Where there is one, it holds the default parameters, the salt as it was
/// given and the digest, in this order, and the same hasher accepts the same
/// password for it.
#[verifier::external_body]
fn argon2_hash(password: &[u8], salt: &str) -> (hashed: Result<String, argon2::password_hash::Error>)
    ensures
        hashed matches Ok(encoded) ==> argon2_encoding(password@, salt@) == Some(encoded@),
        hashed is Err ==> argon2_encoding(password@, salt@) is None,
        hashed matches Ok(encoded) ==> embeds_salt(encoded@, salt@),
        hashed matches Ok(encoded) ==> argon2_accepts(encoded@, password@),
{
    let salt = Salt::from_b64(salt)?;
    let hash = Argon2::default().hash_password(password, salt)?;
    Ok(hash.to_string())
}

/// `PasswordHash::new` and then `Argon2::default().verify_password`: `true`
/// where the text parses and the password is accepted for it, `false` in
/// every other case.
#[verifier::external_body]
fn argon2_verify(encoded: &str, password: &[u8]) -> (accepted: bool)
    ensures
        accepted == argon2_accepts(encoded@, password@),
{
    match PasswordHash::new(encoded) {
        Ok(parsed) => Argon2::default().verify_password(password, &parsed).is_ok(),
        Err(_) => false,
    }
}

/// `encoded` is what hashing `password` with `salt` gives.
pub open spec fn is_hash_with_salt(encoded: Seq<char>, password: Seq<char>, salt: Seq<char>) -> bool {
    &&& argon2_encoding(vstd::utf8::encode_utf8(password), salt) == Some(encoded)
    &&& embeds_salt(encoded, salt)
    &&& verifies(encoded, password)
}

/// `encoded` is what hashing `password` gives with some salt of the length
/// that drawn salts have.
pub open spec fn is_hash_of(encoded: Seq<char>, password: Seq<char>) -> bool {
    exists|salt: Seq<char>|
        salt.len() == SALT_LENGTH && #[trigger] is_hash_with_salt(encoded, password, salt)
}

/// The hasher takes `password`: it is of at most `MAX_PASSWORD_BYTES` bytes
/// in UTF-8.
pub open spec fn hashable(password: Seq<char>) -> bool {
    vstd::utf8::encode_utf8(password).len() <= MAX_PASSWORD_BYTES
}

/// `password` is accepted for the encoded hash `encoded`.
pub open spec fn verifies(encoded: Seq<char>, password: Seq<char>) -> bool {
    argon2_accepts(encoded, vstd::utf8::encode_utf8(password))
}

/// The encoded hash of `password` under `salt`, or `HashingError` where the
/// hasher fails.
pub fn hash_password_with_salt(password: &str, salt: &str) -> (hashed: Result<
    String,
    AuthServiceError,
>)
    ensures
        match hashed {
            Ok(encoded) => is_hash_with_salt(encoded@, password@, salt@),
            Err(e) => e == AuthServiceError::HashingError && argon2_encoding(
                vstd::utf8::encode_utf8(password@),
                salt@,
            ) is None,
        },
{
    match argon2_hash(password.as_bytes(), salt) {
        Ok(encoded) => Ok(encoded),
        Err(_) => Err(AuthServiceError::HashingError),
    }
}

/// The encoded hash of `password` under a salt that is drawn anew at each
/// call. Every password that the hasher takes is hashed; `HashingError` can
/// only come for one that is too long for it.
pub fn hash_password(password: &str) -> (hashed: Result<String, AuthServiceError>)
    ensures
        hashable(password@) ==> hashed is Ok,
        match hashed {
            Ok(encoded) => is_hash_of(encoded@, password@),
            Err(e) => e == AuthServiceError::HashingError && !hashable(password@),
        },
{
    let salt = fresh_salt();
    let hashed = hash_password_with_salt(password, salt.as_str());
    proof {
        if hashed is Ok {
            assert(is_hash_with_salt(hashed->Ok_0@, password@, salt@));
        }
    }
    hashed
}

/// Tells whether `password` is accepted for the encoded hash `hash`. A text
/// that is no encoded hash accepts no password.
pub fn verify_password(hash: &str, password: &str) -> (accepted: bool)
    ensures
        accepted == verifies(hash@, password@),
{
    argon2_verify(hash, password.as_bytes())
}

} // verus!
