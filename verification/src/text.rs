//! Text made of ASCII bytes, and the `String` that holds it.

use crate::hex::is_digit;
use vstd::prelude::*;
use vstd::string::*;
use vstd::utf8::{encode_utf8, is_ascii_chars, is_ascii_chars_encode_utf8};

verus! {

/// The characters that ASCII `bytes` spell, one per byte.
pub open spec fn text_of(bytes: Seq<u8>) -> Seq<char> {
    Seq::new(bytes.len(), |i: int| bytes[i] as char)
}

/// Whether every byte is ASCII.
pub open spec fn is_ascii_bytes(bytes: Seq<u8>) -> bool {
    forall|i: int| 0 <= i < bytes.len() ==> #[trigger] bytes[i] < 128
}

/// Whether every byte is a decimal digit or a lower-case letter from `a` to `f`.
pub open spec fn is_digits(bytes: Seq<u8>) -> bool {
    forall|i: int| 0 <= i < bytes.len() ==> is_digit(#[trigger] bytes[i])
}

/// The one-character text of a digit.
fn digit_text(byte: u8) -> (text: &'static str)
    requires
        is_digit(byte),
    ensures
        text@ == seq![byte as char],
{
    proof {
        reveal_strlit("0");
        reveal_strlit("1");
        reveal_strlit("2");
        reveal_strlit("3");
        reveal_strlit("4");
        reveal_strlit("5");
        reveal_strlit("6");
        reveal_strlit("7");
        reveal_strlit("8");
        reveal_strlit("9");
        reveal_strlit("a");
        reveal_strlit("b");
        reveal_strlit("c");
        reveal_strlit("d");
        reveal_strlit("e");
        reveal_strlit("f");
    }
    let text = match byte {
        48 => "0",
        49 => "1",
        50 => "2",
        51 => "3",
        52 => "4",
        53 => "5",
        54 => "6",
        55 => "7",
        56 => "8",
        57 => "9",
        97 => "a",
        98 => "b",
        99 => "c",
        100 => "d",
        101 => "e",
        _ => "f",
    };
    assert(text@ =~= seq![byte as char]);
    text
}

/// The `String` that spells `bytes`.
pub(crate) fn digits_string(bytes: &[u8]) -> (text: String)
    requires
        is_digits(bytes@),
    ensures
        text@ == text_of(bytes@),
{
    let mut text = String::new();
    let mut i: usize = 0;
    while i < bytes.len()
        invariant
            i <= bytes.len(),
            is_digits(bytes@),
            text@ == text_of(bytes@.take(i as int)),
        decreases bytes.len() - i,
    {
        text.append(digit_text(bytes[i]));
        assert(text@ =~= text_of(bytes@.take(i + 1)));
        i += 1;
    }
    assert(bytes@.take(i as int) =~= bytes@);
    text
}

/// The UTF-8 bytes of the text that ASCII bytes spell are those bytes.
pub proof fn lemma_text_bytes(bytes: Seq<u8>)
    requires
        is_ascii_bytes(bytes),
    ensures
        encode_utf8(text_of(bytes)) == bytes,
{
    let text = text_of(bytes);
    assert(is_ascii_chars(text)) by {
        assert forall|i: int| 0 <= i < text.len() implies '\0' <= #[trigger] text[i] <= '\u{7f}' by {
            assert(bytes[i] < 128);
        }
    }
    is_ascii_chars_encode_utf8(text);
    assert forall|i: int| 0 <= i < bytes.len() implies encode_utf8(text)[i] == bytes[i] by {
        assert(bytes[i] < 128);
        assert(text[i] as u8 == encode_utf8(text)[i]);
    }
    assert(encode_utf8(text) =~= bytes);
}

/// The UTF-8 bytes of ASCII text are ASCII, one byte to the character.
pub proof fn lemma_ascii_text(text: Seq<char>)
    requires
        is_ascii_chars(text),
    ensures
        encode_utf8(text).len() == text.len(),
        is_ascii_bytes(encode_utf8(text)),
{
    is_ascii_chars_encode_utf8(text);
    assert forall|i: int| 0 <= i < encode_utf8(text).len() implies #[trigger] encode_utf8(
        text,
    )[i] < 128 by {
        assert(text[i] as u8 == encode_utf8(text)[i]);
    }
}

} // verus!
