//! The text of a hash, as bytes: two digits for the algorithm, four for the
//! length of the digest in bytes, then the digest in hexadecimal.

use crate::decimal::{number, padded};
use crate::hex;
use crate::types::{HashErrorView, HashType};
use vstd::prelude::*;
use vstd::utf8::is_continuation_byte;

verus! {

/// A digest: the algorithm, the digest's bytes, and their declared number.
pub struct DigestView {
    pub hash_type: HashType,
    pub digest_length: nat,
    pub digest_value: Seq<u8>,
}

impl DigestView {
    /// Whether the declared length is the length of the digest.
    pub open spec fn wf(self) -> bool {
        self.digest_length == self.digest_value.len()
    }

    /// The digest of `hash_type` with the bytes `digest_value`.
    pub open spec fn of(hash_type: HashType, digest_value: Seq<u8>) -> DigestView {
        DigestView { hash_type, digest_length: digest_value.len(), digest_value }
    }
}

/// The text of a digest. The length field has four digits, and more where the
/// length is above 9999.
pub open spec fn canonical(digest: DigestView) -> Seq<u8> {
    digest.hash_type.code() + padded(digest.digest_length, 4) + hex::encode(digest.digest_value)
}

/// Whether `text` can be cut after its second and after its sixth byte: it
/// has six bytes or more, and neither cut falls inside a UTF-8 character.
pub open spec fn header_splits(text: Seq<u8>) -> bool {
    &&& text.len() >= 6
    &&& !is_continuation_byte(text[2])
    &&& text.len() > 6 ==> !is_continuation_byte(text[6])
}

/// The type field of `text`.
pub open spec fn type_field(text: Seq<u8>) -> Seq<u8> {
    text.subrange(0, 2)
}

/// The length field of `text`.
pub open spec fn length_field(text: Seq<u8>) -> Seq<u8> {
    text.subrange(2, 6)
}

/// The digest part of `text`.
pub open spec fn digest_field(text: Seq<u8>) -> Seq<u8> {
    text.subrange(6, text.len() as int)
}

/// The digest that `text` holds, or why it holds none.
///
/// The digest part is looked at first, then the length field, then whether
/// the two agree. The type field never fails: see [`HashType::of_field`].
pub open spec fn decode(text: Seq<u8>) -> Result<DigestView, HashErrorView> {
    if !header_splits(text) {
        Err(HashErrorView::Undefined)
    } else {
        match hex::decode(digest_field(text)) {
            None => Err(HashErrorView::InvalidDigest { hex_digest: digest_field(text) }),
            Some(digest) => match number(length_field(text)) {
                None => Err(
                    HashErrorView::DigestLength { raw_digest_length: length_field(text) },
                ),
                Some(length) => if length == digest.len() {
                    Ok(
                        DigestView {
                            hash_type: HashType::of_field(type_field(text)),
                            digest_length: length,
                            digest_value: digest,
                        },
                    )
                } else {
                    Err(HashErrorView::DigestLengthMissmatch { length, digest })
                },
            },
        }
    }
}

} // verus!
