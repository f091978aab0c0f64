//! What holds of the format as a whole.

use crate::decimal::{lemma_four_digits, lemma_padded, lemma_pow10, number, padded};
use crate::digest::produced;
use crate::fingerprint::{
    fingerprint, le_value, lemma_le_value_below, lemma_le_value_zeros, pow256, window,
};
use crate::handle::{digest_verifies, parsed, text_verifies, DispnetHashView};
use crate::hex;
use crate::primitives::argon2_verified;
use crate::text::{is_digits, lemma_text_bytes};
use crate::types::{HashErrorView, HashType};
use crate::wire::{
    canonical, decode, digest_field, header_splits, length_field, type_field, DigestView,
};
use vstd::prelude::*;
use vstd::utf8::{decode_utf8, encode_utf8, valid_utf8};

verus! {

/// The text of a digest of at most 9999 declared bytes is six bytes of header
/// and two for each byte of the digest, all of them decimal digits or letters
/// from `a` to `f`, and its three fields are the code of the algorithm, the
/// declared length in four digits, and the digest in hexadecimal.
pub proof fn lemma_canonical_layout(digest: DigestView)
    requires
        digest.digest_length <= 9999,
    ensures
        canonical(digest).len() == 6 + 2 * digest.digest_value.len(),
        is_digits(canonical(digest)),
        header_splits(canonical(digest)),
        type_field(canonical(digest)) == digest.hash_type.code(),
        length_field(canonical(digest)) == padded(digest.digest_length, 4),
        digest_field(canonical(digest)) == hex::encode(digest.digest_value),
{
    let text = canonical(digest);
    let code = digest.hash_type.code();
    let length = padded(digest.digest_length, 4);
    let body = hex::encode(digest.digest_value);
    digest.hash_type.lemma_code_names();
    lemma_padded(digest.hash_type.number(), 2);
    lemma_padded(digest.digest_length, 4);
    lemma_pow10();
    hex::lemma_encode_digits(digest.digest_value);
    assert(length.len() == 4);
    assert forall|i: int| 0 <= i < text.len() implies hex::is_digit(#[trigger] text[i]) by {
        if i < 2 {
            assert(text[i] == code[i]);
        } else if i < 6 {
            assert(text[i] == length[i - 2]);
        } else {
            assert(text[i] == body[i - 6]);
        }
    }
    assert(type_field(text) =~= code);
    assert(length_field(text) =~= length);
    assert(digest_field(text) =~= body);
}

/// Reading the text of a digest gives the digest back, field for field,
/// where its declared length is the length of its bytes; where the two
/// differ, reading fails on the difference.
///
/// This holds of digests of at most 9999 declared bytes: a longer length
/// does not fit the length field.
pub proof fn lemma_decode_canonical(digest: DigestView)
    requires
        digest.digest_length <= 9999,
    ensures
        digest.wf() ==> decode(canonical(digest)) == Ok::<DigestView, HashErrorView>(digest),
        !digest.wf() ==> decode(canonical(digest)) == Err::<DigestView, HashErrorView>(
            HashErrorView::DigestLengthMissmatch {
                length: digest.digest_length,
                digest: digest.digest_value,
            },
        ),
{
    lemma_canonical_layout(digest);
    digest.hash_type.lemma_code_names();
    lemma_padded(digest.digest_length, 4);
    hex::lemma_decode_encode(digest.digest_value);
}

/// Reading the text of a hash gives the hash back, field for field.
///
/// This holds of hashes of at most 9999 bytes of digest.
pub proof fn lemma_parse_text(hash: DispnetHashView)
    requires
        hash.wf(),
        hash.digest_length <= 9999,
    ensures
        parsed(encode_utf8(hash.value)) == Ok::<DispnetHashView, HashErrorView>(hash),
{
    let digest = hash.digest();
    lemma_canonical_layout(digest);
    lemma_decode_canonical(digest);
    lemma_text_bytes(canonical(digest));
}

/// The digests of Blake3 and of CRC depend on the input alone, and so do the
/// hashes made of them, text included: the salt does not count.
pub proof fn lemma_input_alone(
    hash_type: HashType,
    input: Seq<u8>,
    first_salt: Seq<u8>,
    second_salt: Seq<u8>,
)
    requires
        hash_type != HashType::Argon2,
    ensures
        produced(hash_type, input, first_salt) == produced(hash_type, input, second_salt),
        DispnetHashView::of(produced(hash_type, input, first_salt)) == DispnetHashView::of(
            produced(hash_type, input, second_salt),
        ),
{
}

/// In a text that holds a hash, the length field spells the number of bytes
/// that the digest part stands for.
///
/// That number is at most 9999, the most that four digits spell.
pub proof fn lemma_declared_length(text: Seq<u8>)
    ensures
        decode(text) matches Ok(digest) ==> digest.wf(),
        decode(text) matches Ok(digest) ==> number(length_field(text)) == Some(
            digest.digest_length,
        ),
        decode(text) matches Ok(digest) ==> hex::decode(digest_field(text)) == Some(
            digest.digest_value,
        ),
        decode(text) matches Ok(digest) ==> digest.digest_length <= 9999,
{
    if header_splits(text) {
        lemma_four_digits(length_field(text));
    }
}

/// The text of a digest of more than 9999 declared bytes does not read back
/// as that digest: its length takes more than the four digits of the field.
pub proof fn lemma_long_digest_lost(digest: DigestView)
    requires
        digest.digest_length > 9999,
    ensures
        decode(canonical(digest)) != Ok::<DigestView, HashErrorView>(digest),
{
    lemma_declared_length(canonical(digest));
}

/// A text whose length field spells one number and whose digest part stands
/// for another number of bytes is refused with both.
pub proof fn lemma_length_mismatch(text: Seq<u8>)
    requires
        header_splits(text),
        hex::decode(digest_field(text)) is Some,
        number(length_field(text)) is Some,
        number(length_field(text)).unwrap() != hex::decode(digest_field(text)).unwrap().len(),
    ensures
        decode(text) == Err::<DigestView, HashErrorView>(
            HashErrorView::DigestLengthMissmatch {
                length: number(length_field(text)).unwrap(),
                digest: hex::decode(digest_field(text)).unwrap(),
            },
        ),
{
}

/// A text whose digest part has an odd number of bytes is refused for its
/// digest, whatever its other fields say.
pub proof fn lemma_odd_digest(text: Seq<u8>)
    requires
        header_splits(text),
        text.len() % 2 == 1,
    ensures
        decode(text) == Err::<DigestView, HashErrorView>(
            HashErrorView::InvalidDigest { hex_digest: digest_field(text) },
        ),
{
    assert(digest_field(text).len() == text.len() - 6);
}

/// The fingerprint of fewer than eight bytes is their little-endian value:
/// the zero bytes that fill the window add nothing.
pub proof fn lemma_fingerprint_short(bytes: Seq<u8>)
    requires
        bytes.len() < 8,
    ensures
        window(bytes).len() == 8,
        fingerprint(bytes) == le_value(bytes),
{
    lemma_le_value_zeros(bytes, (8 - bytes.len()) as nat);
}

/// The fingerprint of eight bytes or more is that of the last eight: what
/// stands before them does not count.
pub proof fn lemma_fingerprint_long(bytes: Seq<u8>)
    requires
        bytes.len() >= 8,
    ensures
        window(bytes).len() == 8,
        fingerprint(bytes) == le_value(bytes.subrange(bytes.len() - 8, bytes.len() as int)),
        fingerprint(bytes) == fingerprint(bytes.subrange(bytes.len() - 8, bytes.len() as int)),
{
    let last = bytes.subrange(bytes.len() - 8, bytes.len() as int);
    assert(window(last) =~= last);
}

/// A fingerprint fits 64 bits.
pub proof fn lemma_fingerprint_fits(bytes: Seq<u8>)
    ensures
        fingerprint(bytes) <= u64::MAX,
{
    lemma_le_value_below(window(bytes));
    assert(pow256(8) == 0x1_0000_0000_0000_0000) by {
        reveal_with_fuel(pow256, 9);
    }
}

/// A text that holds no hash verifies against no password.
pub proof fn lemma_unreadable_text_fails(text: Seq<u8>, password: Seq<u8>)
    requires
        decode(text) is Err,
    ensures
        !text_verifies(text, password),
{
}

/// A digest verifies against a password only where it is UTF-8 text that the
/// Argon2 check finds to match: a check that fails, and one that finds no
/// match, both leave the digest unverified.
pub proof fn lemma_verifies_on_match_only(digest_value: Seq<u8>, password: Seq<u8>)
    ensures
        digest_verifies(digest_value, password) <==> valid_utf8(digest_value) && argon2_verified(
            decode_utf8(digest_value),
            password,
        ) == Some(true),
{
}

/// A digest that is no UTF-8 text verifies against no password.
pub proof fn lemma_binary_digest_fails(digest_value: Seq<u8>, password: Seq<u8>)
    requires
        !valid_utf8(digest_value),
    ensures
        !digest_verifies(digest_value, password),
{
}

} // verus!
