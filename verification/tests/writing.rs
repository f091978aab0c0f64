use dispnet_hash::decimal::{number_of, push_digits, push_padded};
use dispnet_hash::hex::{decode_bytes, encode_bytes, pair_of, value_of};
use dispnet_hash::{DispnetHash, HashError, HashType, InternalDispnetHash};

#[test]
fn type_is_written_in_two_digits() {
    assert_eq!(HashType::Blake3.to_string(), "01");
    assert_eq!(HashType::CRC.to_string(), "02");
    assert_eq!(HashType::Argon2.to_string(), "03");
    assert_eq!(HashType::Argon2.code_bytes(), b"03".to_vec());
}

#[test]
fn type_field_names_its_code_only() {
    assert_eq!(HashType::from_field(b"03"), HashType::Argon2);
    assert_eq!(HashType::from_field(b"02"), HashType::CRC);
    assert_eq!(HashType::from_field(b"01"), HashType::Blake3);
    for other in [
        &b"+3"[..], b"+2", b"3", b"2", b"003", b"0002", b"", b"7", b"x3", b"30", b"20", b" 3",
        b"3 ", b"99", b"zz",
    ] {
        assert_eq!(HashType::from_field(other), HashType::Blake3);
    }
}

#[test]
fn hex_digits_are_lower_case() {
    assert_eq!(
        encode_bytes(&[0x01, 0x23, 0x45, 0x67, 0x89, 0xab, 0xcd, 0xef]),
        b"0123456789abcdef".to_vec()
    );
    assert_eq!(DispnetHash::bytes_to_hex(&[0x00, 0x0f, 0xa0, 0xff]), "000fa0ff");
    assert_eq!(DispnetHash::bytes_to_hex(&[]), "");
    assert_eq!(encode_bytes(&[0x1b]), b"1b".to_vec());
}

#[test]
fn hex_digit_values() {
    assert_eq!(value_of(b'0'), Some(0));
    assert_eq!(value_of(b'9'), Some(9));
    assert_eq!(value_of(b'a'), Some(10));
    assert_eq!(value_of(b'f'), Some(15));
    assert_eq!(value_of(b'A'), Some(10));
    assert_eq!(value_of(b'F'), Some(15));
    for other in [b'/', b':', b'@', b'G', b'`', b'g', b'+', b' ', 0x80, 0xff] {
        assert_eq!(value_of(other), None);
    }
}

#[test]
fn hex_pairs() {
    assert_eq!(pair_of(b'7', b'4'), Some(0x74));
    assert_eq!(pair_of(b'f', b'F'), Some(0xff));
    assert_eq!(pair_of(b'0', b'0'), Some(0));
    assert_eq!(pair_of(b'+', b'a'), None);
    assert_eq!(pair_of(b'+', b'0'), None);
    assert_eq!(pair_of(b'a', b'+'), None);
    assert_eq!(pair_of(b'+', b'+'), None);
    assert_eq!(pair_of(b'-', b'1'), None);
    assert_eq!(pair_of(b' ', b'1'), None);
    assert_eq!(pair_of(b'1', b'g'), None);
}

#[test]
fn hex_text_of_odd_length_is_refused() {
    assert_eq!(DispnetHash::hex_to_bytes("7"), None);
    assert_eq!(DispnetHash::hex_to_bytes("746"), None);
    assert_eq!(DispnetHash::hex_to_bytes("\u{e9}7"), None);
    assert_eq!(decode_bytes(b"123"), None);
}

#[test]
fn hex_text_is_read_pair_by_pair() {
    assert_eq!(DispnetHash::hex_to_bytes(""), Some(vec![]));
    assert_eq!(DispnetHash::hex_to_bytes("00ff"), Some(vec![0, 255]));
    assert_eq!(DispnetHash::hex_to_bytes("DeadBEEF"), Some(vec![0xde, 0xad, 0xbe, 0xef]));
    assert_eq!(DispnetHash::hex_to_bytes("+a"), None);
    assert_eq!(DispnetHash::hex_to_bytes("+a+B"), None);
    assert_eq!(decode_bytes(b"0a+b"), None);
    assert_eq!(DispnetHash::hex_to_bytes("74zz"), None);
    assert_eq!(DispnetHash::hex_to_bytes("7 4 "), None);
    assert_eq!(DispnetHash::hex_to_bytes("\u{e9}"), None);
    assert_eq!(DispnetHash::hex_to_bytes("0x74"), None);
}

#[test]
fn hex_round_trip_of_every_byte() {
    let bytes: Vec<u8> = (0..=255).collect();
    let text = DispnetHash::bytes_to_hex(&bytes);
    assert_eq!(text.len(), 512);
    assert_eq!(DispnetHash::hex_to_bytes(&text), Some(bytes.clone()));
    assert_eq!(DispnetHash::hex_to_bytes(&text.to_uppercase()), Some(bytes));
}

#[test]
fn numbers_are_written_in_decimal() {
    let mut out = b"x".to_vec();
    push_digits(0, &mut out);
    push_digits(7, &mut out);
    push_digits(10, &mut out);
    push_digits(4294967295, &mut out);
    push_digits(u64::MAX, &mut out);
    assert_eq!(out, b"x0710429496729518446744073709551615".to_vec());
}

#[test]
fn numbers_are_padded_to_the_width() {
    let mut out = Vec::new();
    push_padded(0, 4, &mut out);
    push_padded(7, 4, &mut out);
    push_padded(32, 4, &mut out);
    push_padded(9999, 4, &mut out);
    push_padded(10000, 4, &mut out);
    push_padded(3, 2, &mut out);
    push_padded(5, 0, &mut out);
    assert_eq!(out, b"00000007003299991000003" .iter().chain(b"5").copied().collect::<Vec<u8>>());
}

#[test]
fn numbers_are_read_from_decimal() {
    assert_eq!(number_of(b"0032"), Some(32));
    assert_eq!(number_of(b"0000"), Some(0));
    assert_eq!(number_of(b"9999"), Some(9999));
    assert_eq!(number_of(b"+012"), None);
    assert_eq!(number_of(b"+1"), None);
    assert_eq!(number_of(b"7"), Some(7));
    assert_eq!(number_of(b""), None);
    assert_eq!(number_of(b"+"), None);
    assert_eq!(number_of(b"-1"), None);
    assert_eq!(number_of(b"++1"), None);
    assert_eq!(number_of(b"1+"), None);
    assert_eq!(number_of(b"12a4"), None);
    assert_eq!(number_of(b" 123"), None);
    assert_eq!(number_of(b"999999999999999999999999999999"), None);
    assert_eq!(number_of(usize::MAX.to_string().as_bytes()), Some(usize::MAX));
}

#[test]
fn digest_text_is_code_length_and_hex() {
    let digest = InternalDispnetHash::with_digest(HashType::CRC, b"1".to_vec());
    assert_eq!(digest.digest_length, 1);
    assert_eq!(digest.to_string(), "02000131");
    let empty = InternalDispnetHash::with_digest(HashType::Argon2, Vec::new());
    assert_eq!(empty.to_string(), "030000");
    let wide = InternalDispnetHash::with_digest(HashType::Blake3, vec![0xab; 1234]);
    let text = wide.to_string();
    assert_eq!(&text[..6], "011234");
    assert_eq!(text.len(), 6 + 2 * 1234);
}

#[test]
fn declared_length_is_what_is_written() {
    let digest = InternalDispnetHash {
        hash_type: HashType::CRC,
        digest_length: 5,
        digest_value: b"1".to_vec(),
    };
    assert_eq!(digest.to_string(), "02000531");
    let hash = DispnetHash::from_digest(digest);
    assert_eq!(hash.digest_length, 5);
    assert_eq!(hash.to_string(), "02000531");
    assert!(matches!(
        DispnetHash::parse("02000531"),
        Err(HashError::DigestLengthMissmatch { length: 5, .. })
    ));
}

#[test]
fn hash_of_digest_holds_text_and_fingerprint() {
    let hash = DispnetHash::from_digest(InternalDispnetHash::with_digest(
        HashType::Argon2,
        vec![1, 2, 3, 4, 5, 6, 7, 8, 9],
    ));
    assert_eq!(hash.hash_type, HashType::Argon2);
    assert_eq!(hash.digest_length, 9);
    assert_eq!(hash.digest_value, vec![1, 2, 3, 4, 5, 6, 7, 8, 9]);
    assert_eq!(hash.digest_encoded, 0x0908_0706_0504_0302);
    assert_eq!(hash.to_string(), "030009010203040506070809");
}

#[test]
fn text_reads_back_field_for_field() {
    for hash_type in [HashType::Blake3, HashType::CRC, HashType::Argon2] {
        for length in [0usize, 1, 7, 8, 9, 255, 9999] {
            let bytes: Vec<u8> = (0..length).map(|i| (i * 7 + 3) as u8).collect();
            let hash =
                DispnetHash::from_digest(InternalDispnetHash::with_digest(hash_type, bytes));
            let back = DispnetHash::parse(&hash.to_string()).unwrap();
            assert_eq!(back.hash_type, hash.hash_type);
            assert_eq!(back.digest_length, hash.digest_length);
            assert_eq!(back.digest_value, hash.digest_value);
            assert_eq!(back.digest_encoded, hash.digest_encoded);
            assert_eq!(back.to_string(), hash.to_string());
            assert_eq!(back, hash);
        }
    }
}

#[test]
fn digest_of_ten_thousand_bytes_does_not_read_back() {
    let hash = DispnetHash::from_digest(InternalDispnetHash::with_digest(
        HashType::Blake3,
        vec![0x11; 10000],
    ));
    let text = hash.to_string();
    assert_eq!(&text[..9], "011000011");
    assert_eq!(text.len(), 7 + 20000);
    assert!(matches!(DispnetHash::parse(&text), Err(HashError::InvalidDigest { .. })));
}

#[test]
fn hashes_are_equal_by_text() {
    let first = DispnetHash::parse("010003ABCDEF").unwrap();
    let second = DispnetHash::parse("990003abCDef").unwrap();
    assert_eq!(first, second);
    assert_eq!(first, "010003abcdef".to_owned());
    assert_ne!(first, "010003ABCDEF".to_owned());
    let other = DispnetHash::parse("020003abcdef").unwrap();
    assert_ne!(first, other);
    let mut altered = DispnetHash::parse("010003abcdef").unwrap();
    altered.digest_length = 7;
    altered.digest_encoded = 1;
    assert_eq!(first, altered);
}

#[test]
fn hash_hands_out_what_it_holds() {
    let hash = DispnetHash::parse("0200023132").unwrap();
    assert_eq!(hash.hash_type(), HashType::CRC);
    assert_eq!(hash.digest_length(), 2);
    assert_eq!(hash.digest_value(), b"12");
    assert_eq!(hash.digest_encoded(), 0x3231);
    assert_eq!(hash.to_string(), "0200023132");
}
