//! Hexadecimal text, as bytes: two digits per byte, written in lower case and
//! read in either case.

use vstd::prelude::*;

verus! {

/// The ASCII digit that stands for `value`: `0`..`9` and then `a`..`f`.
///
/// Its first ten values are the decimal digits.
pub open spec fn digit_byte(value: int) -> u8 {
    if value < 10 {
        (48 + value) as u8
    } else {
        (87 + value) as u8
    }
}

/// The value of one hexadecimal digit, in either case.
pub open spec fn digit_value(byte: u8) -> Option<int> {
    if 48 <= byte <= 57 {
        Some(byte - 48)
    } else if 97 <= byte <= 102 {
        Some(byte - 87)
    } else if 65 <= byte <= 70 {
        Some(byte - 55)
    } else {
        None
    }
}

/// Whether `byte` is a digit as [`digit_byte`] writes them: a decimal digit or
/// a lower-case letter from `a` to `f`.
pub open spec fn is_digit(byte: u8) -> bool {
    48 <= byte <= 57 || 97 <= byte <= 102
}

/// The byte that two bytes of text stand for: both are hexadecimal digits,
/// the first for the high half of the byte. Any other pair stands for none.
pub open spec fn pair_value(high: u8, low: u8) -> Option<u8> {
    match (digit_value(high), digit_value(low)) {
        (Some(h), Some(l)) => Some((16 * h + l) as u8),
        _ => None,
    }
}

/// The `i`-th pair of `text`.
pub open spec fn pair_at(text: Seq<u8>, i: int) -> Option<u8> {
    pair_value(text[2 * i], text[2 * i + 1])
}

/// The hexadecimal text of `bytes`: byte `i` gives the digits at `2 * i` (its
/// high half) and `2 * i + 1` (its low half).
pub open spec fn encode(bytes: Seq<u8>) -> Seq<u8> {
    Seq::new(
        2 * bytes.len(),
        |j: int|
            if j % 2 == 0 {
                digit_byte((bytes[j / 2] / 16) as int)
            } else {
                digit_byte((bytes[j / 2] % 16) as int)
            },
    )
}

/// Whether `text` is hexadecimal text: of even length, and made of pairs.
pub open spec fn decodable(text: Seq<u8>) -> bool {
    &&& text.len() % 2 == 0
    &&& forall|i: int| 0 <= i < text.len() / 2 ==> (#[trigger] pair_at(text, i)) is Some
}

/// The bytes that `text` stands for, one per pair, or `None` where `text` is
/// of odd length or holds a pair that is none.
pub open spec fn decode(text: Seq<u8>) -> Option<Seq<u8>> {
    if decodable(text) {
        Some(Seq::new(text.len() / 2, |i: int| pair_at(text, i).unwrap()))
    } else {
        None
    }
}

/// Computes [`digit_byte`].
pub(crate) fn digit_of(value: u8) -> (byte: u8)
    requires
        value < 16,
    ensures
        byte == digit_byte(value as int),
{
    if value < 10 {
        48 + value
    } else {
        87 + value
    }
}

/// Computes [`digit_value`], as a byte.
pub fn value_of(byte: u8) -> (value: Option<u8>)
    ensures
        match value {
            Some(v) => digit_value(byte) == Some(v as int),
            None => digit_value(byte) is None,
        },
{
    if 48 <= byte && byte <= 57 {
        Some(byte - 48)
    } else if 97 <= byte && byte <= 102 {
        Some(byte - 87)
    } else if 65 <= byte && byte <= 70 {
        Some(byte - 55)
    } else {
        None
    }
}

/// Computes [`pair_value`].
pub fn pair_of(high: u8, low: u8) -> (value: Option<u8>)
    ensures
        value == pair_value(high, low),
{
    match (value_of(high), value_of(low)) {
        (Some(h), Some(l)) => Some(16 * h + l),
        _ => None,
    }
}

/// Writes `bytes` as hexadecimal text.
pub fn encode_bytes(bytes: &[u8]) -> (text: Vec<u8>)
    ensures
        text@ == encode(bytes@),
{
    let mut text: Vec<u8> = Vec::new();
    let mut i: usize = 0;
    while i < bytes.len()
        invariant
            i <= bytes.len(),
            text@.len() == 2 * i,
            forall|j: int| 0 <= j < 2 * i ==> text@[j] == encode(bytes@)[j],
        decreases bytes.len() - i,
    {
        let byte = bytes[i];
        text.push(digit_of(byte / 16));
        text.push(digit_of(byte % 16));
        i += 1;
    }
    assert(text@ =~= encode(bytes@));
    text
}

/// Reads hexadecimal text.
pub fn decode_bytes(text: &[u8]) -> (bytes: Option<Vec<u8>>)
    ensures
        match bytes {
            Some(b) => decode(text@) == Some(b@),
            None => decode(text@) is None,
        },
{
    if text.len() % 2 != 0 {
        return None;
    }
    let count: usize = text.len() / 2;
    let mut bytes: Vec<u8> = Vec::new();
    let mut i: usize = 0;
    while i < count
        invariant
            text@.len() == 2 * count,
            2 * count <= usize::MAX,
            i <= count,
            bytes@.len() == i,
            forall|k: int| 0 <= k < i ==> pair_at(text@, k) == Some(#[trigger] bytes@[k]),
        decreases count - i,
    {
        match pair_of(text[2 * i], text[2 * i + 1]) {
            Some(byte) => {
                bytes.push(byte);
            },
            None => {
                assert(pair_at(text@, i as int) is None);
                return None;
            },
        }
        i += 1;
    }
    assert(decodable(text@)) by {
        assert forall|k: int| 0 <= k < text@.len() / 2 implies (#[trigger] pair_at(
            text@,
            k,
        )) is Some by {
            assert(pair_at(text@, k) == Some(bytes@[k]));
        }
    }
    assert(bytes@ =~= decode(text@).unwrap());
    Some(bytes)
}

/// Reading what was written gives the bytes back.
pub proof fn lemma_decode_encode(bytes: Seq<u8>)
    ensures
        decode(encode(bytes)) == Some(bytes),
{
    let text = encode(bytes);
    assert forall|i: int| 0 <= i < text.len() / 2 implies (#[trigger] pair_at(text, i)) == Some(
        bytes[i],
    ) by {
        let byte = bytes[i];
        assert((2 * i) / 2 == i && (2 * i) % 2 == 0);
        assert((2 * i + 1) / 2 == i && (2 * i + 1) % 2 == 1);
        assert(16 * (byte / 16) + byte % 16 == byte);
    }
    assert(decodable(text));
    assert(decode(text).unwrap() =~= bytes);
}

/// Hexadecimal text as it is written holds lower-case digits only.
pub proof fn lemma_encode_digits(bytes: Seq<u8>)
    ensures
        encode(bytes).len() == 2 * bytes.len(),
        forall|j: int| 0 <= j < encode(bytes).len() ==> is_digit(#[trigger] encode(bytes)[j]),
{
}

} // verus!
