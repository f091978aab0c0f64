//! The algorithms, the options of a hash, and the errors of reading one.

use crate::decimal::{digits, lemma_padded, padded, push_padded};
use crate::text::{digits_string, text_of};
use vstd::prelude::*;
use vstd::string::*;
use vstd::utf8::encode_utf8;

verus! {

/// The algorithm that produced a digest.
#[derive(Debug, Clone, Copy, PartialEq, Eq, Structural)]
pub enum HashType {
    Blake3,
    CRC,
    Argon2,
}

impl HashType {
    /// The number that stands for the algorithm in a hash text.
    pub open spec fn number(self) -> nat {
        match self {
            HashType::Blake3 => 1,
            HashType::CRC => 2,
            HashType::Argon2 => 3,
        }
    }

    /// The two digits that stand for the algorithm in a hash text.
    pub open spec fn code(self) -> Seq<u8> {
        padded(self.number(), 2)
    }

    /// The algorithm that the type field of a hash text names: Argon2 and
    /// CRC where the field is their code, and Blake3 for every other field,
    /// its own code or not.
    pub open spec fn of_field(field: Seq<u8>) -> HashType {
        if field == HashType::Argon2.code() {
            HashType::Argon2
        } else if field == HashType::CRC.code() {
            HashType::CRC
        } else {
            HashType::Blake3
        }
    }

    /// The two-digit code of the algorithm, as bytes.
    pub fn code_bytes(&self) -> (code: Vec<u8>)
        ensures
            code@ == self.code(),
    {
        let number: u64 = match self {
            HashType::Argon2 => 3,
            HashType::CRC => 2,
            _ => 1,
        };
        let mut code: Vec<u8> = Vec::new();
        push_padded(number, 2, &mut code);
        assert(code@ =~= self.code());
        code
    }

    /// The two-digit code of the algorithm.
    pub fn to_string(&self) -> (text: String)
        ensures
            text@ == text_of(self.code()),
    {
        let code = self.code_bytes();
        proof {
            lemma_padded(self.number(), 2);
        }
        digits_string(code.as_slice())
    }

    /// Reads the type field of a hash text.
    pub fn from_field(field: &[u8]) -> (hash_type: HashType)
        ensures
            hash_type == HashType::of_field(field@),
    {
        proof {
            HashType::lemma_codes();
        }
        if field.len() == 2 && field[0] == 48 && field[1] == 51 {
            assert(field@ =~= HashType::Argon2.code());
            HashType::Argon2
        } else if field.len() == 2 && field[0] == 48 && field[1] == 50 {
            assert(field@ =~= HashType::CRC.code());
            HashType::CRC
        } else {
            HashType::Blake3
        }
    }

    /// The codes are `01`, `02` and `03`.
    pub proof fn lemma_codes()
        ensures
            HashType::Blake3.code() == seq![48u8, 49u8],
            HashType::CRC.code() == seq![48u8, 50u8],
            HashType::Argon2.code() == seq![48u8, 51u8],
    {
        reveal_with_fuel(digits, 2);
        assert(HashType::Blake3.code() =~= seq![48u8, 49u8]);
        assert(HashType::CRC.code() =~= seq![48u8, 50u8]);
        assert(HashType::Argon2.code() =~= seq![48u8, 51u8]);
    }

    /// The type field that is written for an algorithm names it.
    pub proof fn lemma_code_names(self)
        ensures
            self.code().len() == 2,
            HashType::of_field(self.code()) == self,
    {
        HashType::lemma_codes();
        assert(seq![48u8, 49u8][1] != seq![48u8, 50u8][1]);
        assert(seq![48u8, 49u8][1] != seq![48u8, 51u8][1]);
        assert(seq![48u8, 50u8][1] != seq![48u8, 51u8][1]);
    }
}

/// Options for making a hash.
#[derive(Debug)]
pub struct HashConfig {
    /// The salt for Argon2, in place of the built-in one.
    pub salt: Option<Box<Vec<u8>>>,
}

/// The salt that Argon2 is given where the options name none.
pub open spec fn default_salt() -> Seq<u8> {
    "A8nUz1Pkc0IZ0uJSZNnMlvdLz0T3al5Hjhg2".spec_bytes()
}

/// The salt that Argon2 is given under `config`: the one the options name,
/// else the built-in one.
pub open spec fn chosen_salt(config: Option<HashConfig>) -> Seq<u8> {
    match config {
        Some(HashConfig { salt: Some(salt) }) => salt@,
        _ => default_salt(),
    }
}

/// The built-in salt is 36 bytes long, which is a length that Argon2 takes.
pub proof fn lemma_default_salt()
    ensures
        default_salt().len() == 36,
{
    reveal_strlit("A8nUz1Pkc0IZ0uJSZNnMlvdLz0T3al5Hjhg2");
    let text = "A8nUz1Pkc0IZ0uJSZNnMlvdLz0T3al5Hjhg2";
    assert(is_ascii(text));
    is_ascii_spec_bytes(text);
}

/// Why a text is no hash.
#[derive(Debug)]
pub enum HashError {
    /// The text is too short to hold the type and length fields, or a field
    /// ends inside a character.
    Undefined,
    /// The digest is no hexadecimal text; `hex_digest` is that part of the text.
    InvalidDigest { hex_digest: String },
    /// The length field spells no number; `raw_digest_length` is the field.
    DigestLength { raw_digest_length: String },
    /// The length field spells `length`, and `digest` is not that long.
    DigestLengthMissmatch { length: usize, digest: Vec<u8> },
}

/// What a [`HashError`] holds, with text as its UTF-8 bytes.
pub enum HashErrorView {
    Undefined,
    InvalidDigest { hex_digest: Seq<u8> },
    DigestLength { raw_digest_length: Seq<u8> },
    DigestLengthMissmatch { length: nat, digest: Seq<u8> },
}

impl View for HashError {
    type V = HashErrorView;

    open spec fn view(&self) -> HashErrorView {
        match self {
            HashError::Undefined => HashErrorView::Undefined,
            HashError::InvalidDigest { hex_digest } => HashErrorView::InvalidDigest {
                hex_digest: encode_utf8(hex_digest@),
            },
            HashError::DigestLength { raw_digest_length } => HashErrorView::DigestLength {
                raw_digest_length: encode_utf8(raw_digest_length@),
            },
            HashError::DigestLengthMissmatch { length, digest } => {
                HashErrorView::DigestLengthMissmatch { length: *length as nat, digest: digest@ }
            },
        }
    }
}

} // verus!
