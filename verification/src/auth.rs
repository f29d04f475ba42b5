//! Password hashing and verification, consumed as opaque capabilities.
//!
//! The store never inspects the hash format: hashing and verification are
//! delegated to an argon2 implementation behind trusted wrappers, and
//! contracts speak of verification only through the uninterpreted
//! `verifies` relation.
use vstd::prelude::*;

verus! {

/// Whether an argon2 verification of `password` against the encoded
/// `hash` succeeds. Verification recomputes the hash from the password
/// and the parameters and salt stored inside `hash`, so its outcome is a
/// function of the two strings alone.
///
/// The relation is read within one build of the library: an encoded
/// hash demanding more memory than the build target supports fails to
/// verify there, and hashes this library produces stay far below every
/// target's cap.
pub uninterp spec fn verifies(hash: Seq<char>, password: Seq<char>) -> bool;

/// Relies on `argon2::hash_encoded` of the rust-argon2 crate, with a
/// fresh random salt drawn through `uuid::Uuid::new_v4`: the result is
/// not a function of the password alone, but verifying the returned
/// encoded hash against the same password always succeeds, whatever the
/// salt was. Hashing never fails for a salt of 16 bytes, a default
/// configuration, and a password within argon2's length cap of
/// 0xFFFF_FFFF bytes: a char is at most 4 bytes in UTF-8, so the bound
/// below keeps the byte length within the cap.
#[verifier::external_body]
pub fn hash_password(password: &str) -> (r: String)
    requires
        password@.len() <= 0x3FFF_FFFF,
    ensures
        verifies(r@, password@),
{
    let salt = uuid::Uuid::new_v4();
    argon2::hash_encoded(password.as_bytes(), salt.as_bytes(), &argon2::Config::default())
        .expect("argon2 hashing failed")
}

/// Relies on `argon2::verify_encoded` of the rust-argon2 crate: returns
/// whether `password` matches the encoded `hash`, recomputing the hash
/// from the parameters and salt carried inside it; a malformed hash
/// never matches.
#[verifier::external_body]
pub fn valid_hash(hash: &str, password: &str) -> (r: bool)
    ensures
        r == verifies(hash@, password@),
{
    argon2::verify_encoded(hash, password.as_bytes()).unwrap_or(false)
}

} // verus!
