//! The algorithms that produce and check digests. Other crates implement them;
//! what is said of them here is taken on trust and not proved.

use vstd::prelude::*;
use vstd::string::*;
use vstd::utf8::{is_ascii_chars, valid_utf8};

verus! {

/// The BLAKE3 hash of `input`, in its default length.
pub uninterp spec fn blake3_digest(input: Seq<u8>) -> Seq<u8>;

/// The CRC-32/ISCSI checksum of `input`.
pub uninterp spec fn crc32_iscsi(input: Seq<u8>) -> u32;

/// The encoded Argon2 hash of `password` under `salt` with the default
/// parameters of the `argon2` crate, or `None` where the crate refuses the
/// input.
pub uninterp spec fn argon2_encoded(password: Seq<u8>, salt: Seq<u8>) -> Option<Seq<char>>;

/// Whether `password` reproduces the hash in the encoded Argon2 text
/// `encoded`, or `None` where the text or the parameters it names are refused.
pub uninterp spec fn argon2_verified(encoded: Seq<char>, password: Seq<u8>) -> Option<bool>;

/// The inputs that Argon2 hashes under its default parameters: a salt of at
/// least eight bytes, and neither password nor salt longer than 32 bits count.
pub open spec fn argon2_accepts(password: Seq<u8>, salt: Seq<u8>) -> bool {
    &&& password.len() <= 0xFFFF_FFFF
    &&& 8 <= salt.len() <= 0xFFFF_FFFF
}

/// Calls `blake3::hash` and copies the bytes of the result out.
///
/// Trusted: the result is a function of the input alone, and it is 32 bytes
/// long, which is the length of a `blake3::Hash`.
#[verifier::external_body]
pub(crate) fn content_hash(input: &[u8]) -> (digest: Vec<u8>)
    ensures
        digest@ == blake3_digest(input@),
        digest@.len() == 32,
{
    blake3::hash(input).as_bytes().to_vec()
}

/// Calls `crc::Crc::<u32>::checksum` on a `Crc` made for `crc::CRC_32_ISCSI`.
///
/// Trusted: the result is a function of the input alone.
#[verifier::external_body]
pub(crate) fn checksum(input: &[u8]) -> (sum: u32)
    ensures
        sum == crc32_iscsi(input@),
{
    crc::Crc::<u32>::new(&crc::CRC_32_ISCSI).checksum(input)
}

/// Calls `argon2::hash_encoded` with `argon2::Config::default()`.
///
/// Trusted: the result is a function of password and salt alone, and the call
/// fails exactly where the crate's checks on the lengths of password and salt
/// fail; the default parameters pass the other checks. The encoded hash is
/// ASCII text and not empty: it is made of `$`, the names and numbers of the
/// parameters, and salt and hash in base 64. `argon2::verify_encoded` reads
/// that text back to the same parameters, salt and hash, and so finds that
/// the password matches. The call takes the memory and the time that the
/// default parameters ask for.
#[verifier::external_body]
pub(crate) fn password_hash(password: &[u8], salt: &[u8]) -> (encoded: Option<String>)
    ensures
        match encoded {
            Some(text) => argon2_encoded(password@, salt@) == Some(text@),
            None => argon2_encoded(password@, salt@) is None,
        },
        encoded is Some <==> argon2_accepts(password@, salt@),
        encoded matches Some(text) ==> text@.len() >= 1 && is_ascii_chars(text@),
        encoded matches Some(text) ==> argon2_verified(text@, password@) == Some(true),
{
    argon2::hash_encoded(password, salt, &argon2::Config::default()).ok()
}

/// Calls `argon2::verify_encoded`.
///
/// Trusted: the result is a function of the encoded text and the password
/// alone. Of when it is `Some` nothing is said here; `password_hash` says
/// what it is on the texts that hashing makes. The call takes the memory and
/// the time that the parameters in `encoded` ask for.
#[verifier::external_body]
pub(crate) fn password_verify(encoded: &str, password: &[u8]) -> (outcome: Option<bool>)
    ensures
        outcome == argon2_verified(encoded@, password@),
{
    argon2::verify_encoded(encoded, password).ok()
}

/// Calls `std::str::from_utf8`.
///
/// Trusted: the call succeeds exactly on valid UTF-8, and the text it returns
/// is made of the bytes it was given.
#[verifier::external_body]
pub(crate) fn utf8_text(bytes: &[u8]) -> (text: Option<&str>)
    ensures
        text is Some <==> valid_utf8(bytes@),
        text matches Some(s) ==> s.spec_bytes() == bytes@,
{
    std::str::from_utf8(bytes).ok()
}

} // verus!
