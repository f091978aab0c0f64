//! A digest as it is made from input bytes and as it is read from text.

use crate::decimal::{
    digits, lemma_digits, lemma_digits_len, lemma_four_digits, lemma_padded, lemma_pow10,
    number_of, push_digits, push_padded,
};
use crate::hex;
use crate::primitives::{
    argon2_accepts, argon2_encoded, argon2_verified, blake3_digest, checksum, content_hash,
    crc32_iscsi, password_hash,
};
use crate::text::{digits_string, is_ascii_bytes, lemma_ascii_text, text_of};
use crate::types::{chosen_salt, HashConfig, HashError, HashErrorView, HashType};
use crate::wire::{canonical, decode, digest_field, length_field, type_field, DigestView};
use vstd::prelude::*;
use vstd::string::*;
use vstd::utf8::*;

verus! {

/// A digest: the algorithm, the number of the digest's bytes, and the bytes.
#[derive(Debug)]
pub struct InternalDispnetHash {
    pub hash_type: HashType,
    pub digest_length: usize,
    pub digest_value: Vec<u8>,
}

impl View for InternalDispnetHash {
    type V = DigestView;

    open spec fn view(&self) -> DigestView {
        DigestView {
            hash_type: self.hash_type,
            digest_length: self.digest_length as nat,
            digest_value: self.digest_value@,
        }
    }
}

/// The digest that `hash_type` yields for `input`; `salt` counts for Argon2
/// only. The digest of CRC is the checksum's decimal text, that of Argon2 the
/// bytes of the encoded hash.
pub open spec fn produced(hash_type: HashType, input: Seq<u8>, salt: Seq<u8>) -> DigestView {
    match hash_type {
        HashType::Blake3 => DigestView::of(HashType::Blake3, blake3_digest(input)),
        HashType::CRC => DigestView::of(HashType::CRC, digits(crc32_iscsi(input) as nat)),
        HashType::Argon2 => DigestView::of(
            HashType::Argon2,
            match argon2_encoded(input, salt) {
                Some(encoded) => encode_utf8(encoded),
                None => Seq::empty(),
            },
        ),
    }
}

/// A CRC digest is at most ten bytes long.
pub proof fn lemma_checksum_length(input: Seq<u8>, salt: Seq<u8>)
    ensures
        produced(HashType::CRC, input, salt).wf(),
        1 <= produced(HashType::CRC, input, salt).digest_length <= 10,
{
    let sum = crc32_iscsi(input) as nat;
    lemma_pow10();
    lemma_digits_len(sum, 10);
    lemma_digits(sum);
}

impl InternalDispnetHash {
    /// Hashes `value` with the algorithm `hash_type`.
    ///
    /// Argon2 takes its salt from `config`, or the built-in salt where
    /// `config` names none; it does not hash under a salt of fewer than eight
    /// bytes. Its digest is the encoded hash, which is ASCII text and which
    /// `value` verifies against.
    pub fn new(hash_type: HashType, value: &[u8], config: Option<HashConfig>) -> (digest: Self)
        requires
            hash_type == HashType::Argon2 ==> argon2_accepts(value@, chosen_salt(config)),
        ensures
            digest@ == produced(hash_type, value@, chosen_salt(config)),
            digest@.wf(),
            hash_type == HashType::Blake3 ==> digest@.digest_length == 32,
            hash_type == HashType::CRC ==> 1 <= digest@.digest_length <= 10,
            hash_type == HashType::Argon2 ==> argon2_encoded(value@, chosen_salt(config)) is Some,
            hash_type == HashType::Argon2 ==> digest@.digest_length >= 1 && is_ascii_bytes(
                digest@.digest_value,
            ),
            hash_type == HashType::Argon2 ==> valid_utf8(digest@.digest_value) && argon2_verified(
                decode_utf8(digest@.digest_value),
                value@,
            ) == Some(true),
    {
        let built_in = "A8nUz1Pkc0IZ0uJSZNnMlvdLz0T3al5Hjhg2";
        let salt: &[u8] = match &config {
            Some(HashConfig { salt: Some(bytes) }) => bytes.as_slice(),
            _ => built_in.as_bytes(),
        };
        assert(salt@ == chosen_salt(config));
        match hash_type {
            HashType::Argon2 => {
                let encoded = password_hash(value, salt).unwrap();
                proof {
                    lemma_ascii_text(encoded@);
                    encode_utf8_valid_utf8(encoded@);
                    encode_utf8_decode_utf8(encoded@);
                }
                Self::with_digest(HashType::Argon2, encoded.as_str().as_bytes_vec())
            },
            HashType::CRC => {
                proof {
                    lemma_checksum_length(value@, salt@);
                }
                Self::from_checksum(checksum(value))
            },
            _ => Self::with_digest(HashType::Blake3, content_hash(value)),
        }
    }

    /// The CRC digest of a checksum: its decimal text.
    pub fn from_checksum(sum: u32) -> (digest: Self)
        ensures
            digest@ == DigestView::of(HashType::CRC, digits(sum as nat)),
            digest@.wf(),
    {
        let mut text: Vec<u8> = Vec::new();
        push_digits(sum as u64, &mut text);
        assert(text@ =~= digits(sum as nat));
        Self::with_digest(HashType::CRC, text)
    }

    /// Reads a digest from its text.
    ///
    /// An unknown type field reads as Blake3. A text whose two fields cannot
    /// be cut off is refused as [`HashError::Undefined`].
    pub fn parse(hash_value: &str) -> (parsed: Result<Self, HashError>)
        ensures
            match parsed {
                Ok(digest) => decode(hash_value.spec_bytes()) == Ok::<DigestView, HashErrorView>(
                    digest@,
                ),
                Err(error) => decode(hash_value.spec_bytes()) == Err::<DigestView, HashErrorView>(
                    error@,
                ),
            },
            parsed matches Ok(digest) ==> digest@.wf() && digest@.digest_length <= 9999,
    {
        let bytes = hash_value.as_bytes();
        let len = bytes.len();
        if len < 6 || is_continuation(bytes[2]) || (len > 6 && is_continuation(bytes[6])) {
            return Err(HashError::Undefined);
        }
        proof {
            encode_utf8_valid_utf8(hash_value@);
            is_char_boundary_iff_not_is_continuation_byte(bytes@, 2);
        }
        let (raw_type, raw_digest_len_value) = hash_value.split_at(2);
        proof {
            let rest = raw_digest_len_value.spec_bytes();
            encode_utf8_valid_utf8(raw_digest_len_value@);
            if len > 6 {
                is_char_boundary_iff_not_is_continuation_byte(rest, 4);
            } else {
                is_char_boundary_start_end_of_seq(rest);
            }
        }
        let (raw_digest_len, raw_digest_value) = raw_digest_len_value.split_at(4);
        assert(raw_type.spec_bytes() =~= type_field(bytes@));
        assert(raw_digest_len.spec_bytes() =~= length_field(bytes@));
        assert(raw_digest_value.spec_bytes() =~= digest_field(bytes@));
        let type_result = HashType::from_field(raw_type.as_bytes());
        proof {
            lemma_four_digits(length_field(bytes@));
        }
        match hex::decode_bytes(raw_digest_value.as_bytes()) {
            Some(hash_bytes) => {
                match number_of(raw_digest_len.as_bytes()) {
                    Some(hash_bytes_len) => {
                        if hash_bytes_len == hash_bytes.len() {
                            Ok(
                                Self {
                                    hash_type: type_result,
                                    digest_length: hash_bytes_len,
                                    digest_value: hash_bytes,
                                },
                            )
                        } else {
                            Err(
                                HashError::DigestLengthMissmatch {
                                    length: hash_bytes_len,
                                    digest: hash_bytes,
                                },
                            )
                        }
                    },
                    None => {
                        Err(HashError::DigestLength { raw_digest_length: raw_digest_len.to_owned() })
                    },
                }
            },
            None => Err(HashError::InvalidDigest { hex_digest: raw_digest_value.to_owned() }),
        }
    }

    /// The digest of `hash_type` with the bytes `digest_value`.
    pub fn with_digest(hash_type: HashType, digest_value: Vec<u8>) -> (digest: Self)
        ensures
            digest@ == DigestView::of(hash_type, digest_value@),
            digest@.wf(),
    {
        Self { hash_type, digest_length: digest_value.len(), digest_value }
    }

    /// The text of the digest.
    pub fn to_string(&self) -> (text: String)
        ensures
            text@ == text_of(canonical(self@)),
    {
        let mut text = self.hash_type.to_string();
        let mut length: Vec<u8> = Vec::new();
        push_padded(self.digest_length as u64, 4, &mut length);
        let digest = hex::encode_bytes(self.digest_value.as_slice());
        proof {
            lemma_padded(self.digest_length as nat, 4);
            hex::lemma_encode_digits(self.digest_value@);
        }
        text.append(digits_string(length.as_slice()).as_str());
        text.append(digits_string(digest.as_slice()).as_str());
        assert(text@ =~= text_of(canonical(self@)));
        text
    }
}

/// Whether `byte` is one of the bytes that continue a UTF-8 character.
fn is_continuation(byte: u8) -> (continues: bool)
    ensures
        continues == is_continuation_byte(byte),
{
    0x80 <= byte && byte <= 0xbf
}

} // verus!
