//! The hash as callers hold it: a digest together with its text and its
//! fingerprint.

use crate::digest::{produced, InternalDispnetHash};
use crate::fingerprint::{fingerprint, fingerprint_of};
use crate::hex;
use crate::primitives::{
    argon2_accepts, argon2_encoded, argon2_verified, password_verify, utf8_text,
};
use crate::text::{digits_string, is_ascii_bytes, text_of};
use crate::types::{chosen_salt, HashConfig, HashError, HashErrorView, HashType};
use crate::wire::{canonical, decode, DigestView};
use vstd::prelude::*;
use vstd::string::*;
use vstd::utf8::{decode_utf8, encode_utf8_decode_utf8, valid_utf8};

verus! {

/// A hash that describes itself: its text names the algorithm and the length
/// of the digest, and holds the digest.
///
/// Two hashes are equal where their texts are equal.
#[derive(Debug)]
pub struct DispnetHash {
    pub hash_type: HashType,
    pub digest_length: usize,
    pub digest_value: Vec<u8>,
    /// The fingerprint of the digest.
    pub digest_encoded: u64,
    value: String,
}

/// What a [`DispnetHash`] holds.
pub struct DispnetHashView {
    pub hash_type: HashType,
    pub digest_length: nat,
    pub digest_value: Seq<u8>,
    pub digest_encoded: u64,
    /// The text of the hash.
    pub value: Seq<char>,
}

impl DispnetHashView {
    /// The digest of the hash.
    pub open spec fn digest(self) -> DigestView {
        DigestView {
            hash_type: self.hash_type,
            digest_length: self.digest_length,
            digest_value: self.digest_value,
        }
    }

    /// The hash of a digest: the digest, its fingerprint and its text.
    pub open spec fn of(digest: DigestView) -> DispnetHashView {
        DispnetHashView {
            hash_type: digest.hash_type,
            digest_length: digest.digest_length,
            digest_value: digest.digest_value,
            digest_encoded: fingerprint(digest.digest_value) as u64,
            value: text_of(canonical(digest)),
        }
    }

    /// Whether the length is that of the digest, and fingerprint and text
    /// are those of the digest.
    pub open spec fn wf(self) -> bool {
        &&& self.digest().wf()
        &&& self == DispnetHashView::of(self.digest())
    }
}

impl View for DispnetHash {
    type V = DispnetHashView;

    closed spec fn view(&self) -> DispnetHashView {
        DispnetHashView {
            hash_type: self.hash_type,
            digest_length: self.digest_length as nat,
            digest_value: self.digest_value@,
            digest_encoded: self.digest_encoded,
            value: self.value@,
        }
    }
}

/// The hash that `text` holds, or why it holds none.
pub open spec fn parsed(text: Seq<u8>) -> Result<DispnetHashView, HashErrorView> {
    match decode(text) {
        Ok(digest) => Ok(DispnetHashView::of(digest)),
        Err(error) => Err(error),
    }
}

/// Whether the digest `digest_value` is an encoded Argon2 hash that
/// `password` reproduces. A digest that is no UTF-8 text is none.
pub open spec fn digest_verifies(digest_value: Seq<u8>, password: Seq<u8>) -> bool {
    valid_utf8(digest_value) && DispnetHash::verdict_of(
        argon2_verified(decode_utf8(digest_value), password),
    )
}

/// Whether `text` holds a hash whose digest `password` reproduces.
pub open spec fn text_verifies(text: Seq<u8>, password: Seq<u8>) -> bool {
    match decode(text) {
        Ok(digest) => digest_verifies(digest.digest_value, password),
        Err(_) => false,
    }
}

impl DispnetHash {
    /// What a verification comes to: `true` where the password was found to
    /// match, `false` where it was not or the check could not be made.
    pub open spec fn verdict_of(outcome: Option<bool>) -> bool {
        outcome == Some(true)
    }

    /// Create a hash with the default algorithm, Blake3.
    pub fn new(value: &[u8]) -> (hash: Self)
        ensures
            hash@ == DispnetHashView::of(produced(HashType::Blake3, value@, chosen_salt(None))),
            hash@.wf(),
            hash@.digest_length == 32,
    {
        DispnetHash::create(HashType::Blake3, value, None)
    }

    /// Create a hash of `value` with the algorithm `hash_type`.
    ///
    /// Argon2 takes its salt from `config`, or the built-in salt where
    /// `config` names none; it does not hash under a salt of fewer than eight
    /// bytes. A hash made with Argon2 verifies against `value`.
    pub fn create(hash_type: HashType, value: &[u8], config: Option<HashConfig>) -> (hash: Self)
        requires
            hash_type == HashType::Argon2 ==> argon2_accepts(value@, chosen_salt(config)),
        ensures
            hash@ == DispnetHashView::of(produced(hash_type, value@, chosen_salt(config))),
            hash@.wf(),
            hash_type == HashType::Blake3 ==> hash@.digest_length == 32,
            hash_type == HashType::CRC ==> 1 <= hash@.digest_length <= 10,
            hash_type == HashType::Argon2 ==> argon2_encoded(value@, chosen_salt(config)) is Some,
            hash_type == HashType::Argon2 ==> hash@.digest_length >= 1 && is_ascii_bytes(
                hash@.digest_value,
            ),
            hash_type == HashType::Argon2 ==> digest_verifies(hash@.digest_value, value@),
    {
        let internal_hash = InternalDispnetHash::new(hash_type, value, config);
        DispnetHash::from_digest(internal_hash)
    }

    /// The hash of a digest.
    pub fn from_digest(internal_hash: InternalDispnetHash) -> (hash: Self)
        ensures
            hash@ == DispnetHashView::of(internal_hash@),
            hash@.wf() <==> internal_hash@.wf(),
    {
        let internal_hash_value = internal_hash.to_string();
        let encoded: u64 = DispnetHash::encoded_u64(internal_hash.digest_value.as_slice());
        Self {
            hash_type: internal_hash.hash_type,
            digest_length: internal_hash.digest_length,
            digest_value: internal_hash.digest_value,
            digest_encoded: encoded,
            value: internal_hash_value,
        }
    }

    /// Reads a hash from its text.
    ///
    /// The text of the hash that is read is the text of its digest, which
    /// need not be `hash_value`: that may hold its digest in upper case, or a
    /// type field that is no code and reads as Blake3.
    pub fn parse(hash_value: &str) -> (hash: Result<Self, HashError>)
        ensures
            match hash {
                Ok(h) => parsed(hash_value.spec_bytes()) == Ok::<DispnetHashView, HashErrorView>(
                    h@,
                ) && h@.wf() && h@.digest_length <= 9999,
                Err(e) => parsed(hash_value.spec_bytes()) == Err::<DispnetHashView, HashErrorView>(
                    e@,
                ),
            },
    {
        match InternalDispnetHash::parse(hash_value) {
            Ok(internal_hash) => Ok(DispnetHash::from_digest(internal_hash)),
            Err(error) => Err(error),
        }
    }

    /// The text of the hash.
    pub fn to_string(&self) -> (text: String)
        ensures
            text@ == self@.value,
    {
        self.value.clone()
    }

    /// The algorithm of the hash.
    pub fn hash_type(&self) -> (hash_type: HashType)
        ensures
            hash_type == self@.hash_type,
    {
        self.hash_type
    }

    /// The declared number of bytes of the digest.
    pub fn digest_length(&self) -> (digest_length: usize)
        ensures
            digest_length == self@.digest_length,
    {
        self.digest_length
    }

    /// The bytes of the digest.
    pub fn digest_value(&self) -> (digest_value: &[u8])
        ensures
            digest_value@ == self@.digest_value,
    {
        self.digest_value.as_slice()
    }

    /// The fingerprint that the hash holds.
    pub fn digest_encoded(&self) -> (digest_encoded: u64)
        ensures
            digest_encoded == self@.digest_encoded,
    {
        self.digest_encoded
    }

    /// Verify the text of a hash against a raw value. The hash must have been
    /// made with Argon2. A text that holds no hash verifies against nothing.
    pub fn verify(hash: &str, value: &[u8]) -> (matches: bool)
        ensures
            matches == text_verifies(hash.spec_bytes(), value@),
    {
        match DispnetHash::parse(hash) {
            Ok(dispnet_hash) => DispnetHash::verify_instance(&dispnet_hash, value),
            Err(_) => false,
        }
    }

    /// Verify a hash against a raw value. The hash must have been made with
    /// Argon2: a digest that is no encoded Argon2 hash verifies against
    /// nothing.
    pub fn verify_instance(hash: &DispnetHash, value: &[u8]) -> (matches: bool)
        ensures
            matches == digest_verifies(hash@.digest_value, value@),
    {
        match utf8_text(hash.digest_value.as_slice()) {
            Some(str_hash) => {
                proof {
                    encode_utf8_decode_utf8(str_hash@);
                }
                DispnetHash::verdict(password_verify(str_hash, value))
            },
            None => false,
        }
    }

    /// What the outcome of a verification comes to: an outcome that is no
    /// match, and a verification that failed, both count as `false`.
    pub fn verdict(outcome: Option<bool>) -> (matches: bool)
        ensures
            matches == DispnetHash::verdict_of(outcome),
    {
        match outcome {
            Some(matches) => matches,
            None => false,
        }
    }

    /// Convert hexadecimal text to bytes, two characters to the byte.
    ///
    /// Returns `None` where the text has an odd number of bytes or a pair
    /// that is no byte: see [`hex::pair_value`].
    pub fn hex_to_bytes(s: &str) -> (bytes: Option<Vec<u8>>)
        ensures
            match bytes {
                Some(b) => hex::decode(s.spec_bytes()) == Some(b@),
                None => hex::decode(s.spec_bytes()) is None,
            },
    {
        hex::decode_bytes(s.as_bytes())
    }

    /// Convert bytes to hexadecimal text, in lower case.
    pub fn bytes_to_hex(bytes: &[u8]) -> (text: String)
        ensures
            text@ == text_of(hex::encode(bytes@)),
    {
        let digits = hex::encode_bytes(bytes);
        proof {
            hex::lemma_encode_digits(bytes@);
        }
        digits_string(digits.as_slice())
    }

    /// The fingerprint of `bytes`: its last eight bytes read as a
    /// little-endian number; fewer than eight bytes are read with zero bytes
    /// after them.
    pub fn encoded_u64(bytes: &[u8]) -> (encoded: u64)
        ensures
            encoded == fingerprint(bytes@),
    {
        fingerprint_of(bytes)
    }
}

impl PartialEq for DispnetHash {
    fn eq(&self, other: &Self) -> (equal: bool) {
        self.value == other.value
    }
}

impl vstd::std_specs::cmp::PartialEqSpecImpl for DispnetHash {
    open spec fn obeys_eq_spec() -> bool {
        true
    }

    open spec fn eq_spec(&self, other: &Self) -> bool {
        self@.value == other@.value
    }
}

impl PartialEq<String> for DispnetHash {
    fn eq(&self, other: &String) -> (equal: bool) {
        self.value == *other
    }
}

impl vstd::std_specs::cmp::PartialEqSpecImpl<String> for DispnetHash {
    open spec fn obeys_eq_spec() -> bool {
        true
    }

    open spec fn eq_spec(&self, other: &String) -> bool {
        self@.value == other@
    }
}

impl std::str::FromStr for DispnetHash {
    type Err = HashError;

    fn from_str(s: &str) -> (hash: Result<Self, HashError>)
        ensures
            match hash {
                Ok(h) => parsed(s.spec_bytes()) == Ok::<DispnetHashView, HashErrorView>(h@),
                Err(e) => parsed(s.spec_bytes()) == Err::<DispnetHashView, HashErrorView>(e@),
            },
    {
        DispnetHash::parse(s)
    }
}

} // verus!
