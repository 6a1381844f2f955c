//! Administrator passwords: bcrypt hashes, with the unsalted SHA-256 hex digests of
//! earlier versions still accepted.
use vstd::prelude::*;
use vstd::string::StringSliceAdditionalSpecFns;
use vstd::utf8::encode_utf8;
use sha2::Digest;
use crate::text::{hex_digit, hex_lower_char, push_chars, seq_starts_with, string_from_chars};

verus! {

/// What `bcrypt::verify` answers for a password's bytes and a stored hash: whether the
/// password matches, or the error message for a hash that cannot be read.
pub uninterp spec fn bcrypt_verified(password: Seq<u8>, hash: Seq<char>) -> Result<bool, Seq<char>>;

/// The SHA-256 digest of the bytes.
pub uninterp spec fn sha256_digest(bytes: Seq<u8>) -> Seq<u8>;

/// Whether a verification answered that the password matches.
pub open spec fn accepted(answer: Result<bool, Seq<char>>) -> bool {
    answer matches Ok(true)
}

/// Hashes a password with bcrypt at the default cost (12) and a random salt.
///
/// Trusted: `bcrypt::hash(password, bcrypt::DEFAULT_COST)`.  Its source formats the hash as
/// `$2b$12$`, the 22-character salt and the 31-character digest (60 ASCII characters), and
/// `bcrypt::verify` re-hashes a password with the salt and cost read back from that text, so
/// the hash verifies the password it was made from.  The salt, and so the hash, is random;
/// the call fails only when the system's random source does (error message).
#[verifier::external_body]
fn bcrypt_hash(password: &str) -> (r: Result<String, String>)
    ensures
        r matches Ok(h) ==> h@.len() == 60 && encode_utf8(h@).len() == 60 && seq_starts_with(h@, "$2b$12$"@)
            && accepted(bcrypt_verified(password.spec_bytes(), h@)),
{
    bcrypt::hash(password, bcrypt::DEFAULT_COST).map_err(|e| e.to_string())
}

/// Checks a password against a bcrypt hash.
///
/// Trusted: `bcrypt::verify(password, hash)`, with the error turned into its message; the
/// answer depends on the password's bytes and the hash text alone.
#[verifier::external_body]
fn bcrypt_verify(password: &str, hash: &str) -> (r: Result<bool, String>)
    ensures
        match bcrypt_verified(password.spec_bytes(), hash@) {
            Ok(b) => r matches Ok(x) && x == b,
            Err(e) => r matches Err(m) && m@ == e,
        },
{
    bcrypt::verify(password, hash).map_err(|e| e.to_string())
}

/// The SHA-256 digest of the bytes.
///
/// Trusted: `sha2::Sha256::digest`; a digest is 32 bytes.
#[verifier::external_body]
fn sha256(bytes: &[u8]) -> (r: Vec<u8>)
    ensures
        r@ == sha256_digest(bytes@),
        r@.len() == 32,
{
    sha2::Sha256::digest(bytes).to_vec()
}

/// The lower-case hexadecimal text of the bytes, two digits per byte (as `hex::encode`).
pub open spec fn spec_hex(bytes: Seq<u8>) -> Seq<char>
    decreases bytes.len(),
{
    if bytes.len() == 0 {
        Seq::empty()
    } else {
        spec_hex(bytes.drop_last()) + seq![hex_lower_char((bytes.last() / 16) as nat), hex_lower_char((bytes.last() % 16) as nat)]
    }
}

/// The lower-case hexadecimal text of the bytes (see [`spec_hex`]).
pub fn hex_encode(bytes: &[u8]) -> (r: String)
    ensures
        r@ == spec_hex(bytes@),
{
    let mut out: Vec<char> = Vec::new();
    let mut i: usize = 0;
    while i < bytes.len()
        invariant
            i <= bytes@.len(),
            out@ == spec_hex(bytes@.subrange(0, i as int)),
        decreases bytes@.len() - i,
    {
        let b = bytes[i];
        let pair = vec![hex_digit(b / 16, false), hex_digit(b % 16, false)];
        push_chars(&mut out, pair.as_slice());
        proof {
            let next = bytes@.subrange(0, i + 1);
            assert(next.drop_last() =~= bytes@.subrange(0, i as int));
            assert(next.last() == b);
        }
        i = i + 1;
    }
    assert(bytes@.subrange(0, bytes@.len() as int) =~= bytes@);
    string_from_chars(out.as_slice())
}

/// Whether a password matches a stored hash: a 60-byte hash is a bcrypt hash (an unreadable
/// one matches nothing); any other is the lower-case hex SHA-256 digest of the password.
pub open spec fn spec_verify_password(password: Seq<char>, hash: Seq<char>) -> bool {
    if encode_utf8(hash).len() == 60 {
        accepted(bcrypt_verified(encode_utf8(password), hash))
    } else {
        spec_hex(sha256_digest(encode_utf8(password))) == hash
    }
}

/// Whether a password matches a stored hash (see [`spec_verify_password`]).
pub fn verify_password(password: &str, hash: &str) -> (r: bool)
    ensures
        r == spec_verify_password(password@, hash@),
{
    if hash.as_bytes().len() == 60 {
        match bcrypt_verify(password, hash) {
            Ok(b) => b,
            Err(_) => false,
        }
    } else {
        let digest = sha256(password.as_bytes());
        let old_hash = hex_encode(digest.as_slice());
        string_eq(&old_hash, hash)
    }
}

fn string_eq(a: &String, b: &str) -> (r: bool)
    ensures
        r == (a@ == b@),
{
    let c = b.to_owned();
    *a == c
}

/// A new password hash: bcrypt at the default cost with a random salt (60 characters and
/// 60 bytes, starting `$2b$12$`); bcrypt verifies it against the password it was made
/// from, so it matches that password.  Fails only when no random salt can be had, with the
/// error's message.
pub fn hash_password(password: &str) -> (r: Result<String, String>)
    ensures
        r matches Ok(h) ==> h@.len() == 60 && encode_utf8(h@).len() == 60 && seq_starts_with(h@, "$2b$12$"@)
            && accepted(bcrypt_verified(encode_utf8(password@), h@)) && spec_verify_password(password@, h@),
{
    bcrypt_hash(password)
}

} // verus!
