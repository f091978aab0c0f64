use dispnet_hash::{DispnetHash, HashError, HashType, InternalDispnetHash};

fn read(text: &str) -> DispnetHash {
    DispnetHash::parse(text).unwrap()
}

#[test]
fn short_text_is_undefined() {
    for text in ["", "0", "01", "010", "0100", "01000"] {
        assert!(matches!(DispnetHash::parse(text), Err(HashError::Undefined)));
    }
}

#[test]
fn field_cut_inside_a_character_is_undefined() {
    assert!(matches!(DispnetHash::parse("0\u{e9}000"), Err(HashError::Undefined)));
    assert!(matches!(DispnetHash::parse("0\u{e9}00061"), Err(HashError::Undefined)));
    assert!(matches!(DispnetHash::parse("01000\u{e9}"), Err(HashError::Undefined)));
    assert!(matches!(DispnetHash::parse("01000\u{e9}6"), Err(HashError::Undefined)));
}

#[test]
fn header_alone_is_the_empty_digest() {
    let hash = read("010000");
    assert_eq!(hash.hash_type, HashType::Blake3);
    assert_eq!(hash.digest_length, 0);
    assert_eq!(hash.digest_value, Vec::<u8>::new());
    assert_eq!(hash.digest_encoded, 0);
    assert_eq!(hash.to_string(), "010000");
}

#[test]
fn odd_digest_is_invalid() {
    match DispnetHash::parse("010001abc") {
        Err(HashError::InvalidDigest { hex_digest }) => assert_eq!(hex_digest, "abc"),
        other => panic!("{:?}", other),
    }
    match DispnetHash::parse("0100016") {
        Err(HashError::InvalidDigest { hex_digest }) => assert_eq!(hex_digest, "6"),
        other => panic!("{:?}", other),
    }
}

#[test]
fn digest_of_other_characters_is_invalid() {
    match DispnetHash::parse("010001zz") {
        Err(HashError::InvalidDigest { hex_digest }) => assert_eq!(hex_digest, "zz"),
        other => panic!("{:?}", other),
    }
    match DispnetHash::parse("010001\u{e9}") {
        Err(HashError::InvalidDigest { hex_digest }) => assert_eq!(hex_digest, "\u{e9}"),
        other => panic!("{:?}", other),
    }
    match DispnetHash::parse("01000261 1") {
        Err(HashError::InvalidDigest { hex_digest }) => assert_eq!(hex_digest, "61 1"),
        other => panic!("{:?}", other),
    }
}

#[test]
fn length_that_is_no_number_is_refused() {
    match DispnetHash::parse("01xx0161") {
        Err(HashError::DigestLength { raw_digest_length }) => {
            assert_eq!(raw_digest_length, "xx01")
        }
        other => panic!("{:?}", other),
    }
    for field in ["-001", " 001", "1 00", "00+1", "+   ", "+001", "0x01", "1e00", "001 "] {
        let text = format!("01{}61", field);
        match DispnetHash::parse(&text) {
            Err(HashError::DigestLength { raw_digest_length }) => {
                assert_eq!(raw_digest_length, field)
            }
            other => panic!("{:?}", other),
        }
    }
}

#[test]
fn length_that_differs_is_a_mismatch() {
    match DispnetHash::parse("01000261") {
        Err(HashError::DigestLengthMissmatch { length, digest }) => {
            assert_eq!(length, 2);
            assert_eq!(digest, vec![0x61]);
        }
        other => panic!("{:?}", other),
    }
    match DispnetHash::parse("0100006162") {
        Err(HashError::DigestLengthMissmatch { length, digest }) => {
            assert_eq!(length, 0);
            assert_eq!(digest, vec![0x61, 0x62]);
        }
        other => panic!("{:?}", other),
    }
    match DispnetHash::parse("019999") {
        Err(HashError::DigestLengthMissmatch { length, digest }) => {
            assert_eq!(length, 9999);
            assert_eq!(digest, Vec::<u8>::new());
        }
        other => panic!("{:?}", other),
    }
}

#[test]
fn digest_is_looked_at_before_length() {
    assert!(matches!(DispnetHash::parse("01xxxx6"), Err(HashError::InvalidDigest { .. })));
    assert!(matches!(DispnetHash::parse("01xxxx61"), Err(HashError::DigestLength { .. })));
}

#[test]
fn corrupting_one_of_length_and_digest_is_a_mismatch() {
    let whole = "02001032323538363632303830";
    assert!(DispnetHash::parse(whole).is_ok());
    let shorter_length = "02000932323538363632303830";
    assert!(matches!(
        DispnetHash::parse(shorter_length),
        Err(HashError::DigestLengthMissmatch { length: 9, .. })
    ));
    let shorter_digest = "020010323235383636323038";
    match DispnetHash::parse(shorter_digest) {
        Err(HashError::DigestLengthMissmatch { length, digest }) => {
            assert_eq!(length, 10);
            assert_eq!(digest, b"225866208".to_vec());
        }
        other => panic!("{:?}", other),
    }
}

#[test]
fn type_field_names_the_algorithm() {
    assert_eq!(read("01000161").hash_type, HashType::Blake3);
    assert_eq!(read("02000161").hash_type, HashType::CRC);
    assert_eq!(read("03000161").hash_type, HashType::Argon2);
}

#[test]
fn unknown_type_field_reads_as_blake3() {
    for field in [
        "00", "04", "10", "30", "99", "zz", "3 ", " 3", "-3", "++", "3+", "+3", "+2", "\u{e9}",
    ] {
        let text = format!("{}000161", field);
        let hash = read(&text);
        assert_eq!(hash.hash_type, HashType::Blake3);
        assert_eq!(hash.to_string(), "01000161");
    }
}

#[test]
fn length_with_a_plus_is_refused() {
    match DispnetHash::parse("01+00161") {
        Err(HashError::DigestLength { raw_digest_length }) => {
            assert_eq!(raw_digest_length, "+001")
        }
        other => panic!("{:?}", other),
    }
}

#[test]
fn digest_is_read_in_either_case() {
    let hash = read("010003ABcdEf");
    assert_eq!(hash.digest_value, vec![0xab, 0xcd, 0xef]);
    assert_eq!(hash.to_string(), "010003abcdef");
}

#[test]
fn digest_pair_with_a_plus_is_invalid() {
    match DispnetHash::parse("010001+a") {
        Err(HashError::InvalidDigest { hex_digest }) => assert_eq!(hex_digest, "+a"),
        other => panic!("{:?}", other),
    }
    match DispnetHash::parse("010002+f+0") {
        Err(HashError::InvalidDigest { hex_digest }) => assert_eq!(hex_digest, "+f+0"),
        other => panic!("{:?}", other),
    }
}

#[test]
fn read_hash_has_fingerprint_of_digest() {
    let hash = read("0100090102030405060708ff");
    assert_eq!(hash.digest_length, 9);
    assert_eq!(hash.digest_encoded, 0xff08_0706_0504_0302);
    let short = read("01000161");
    assert_eq!(short.digest_encoded, 97);
}

#[test]
fn from_str_reads_as_parse_does() {
    let hash = "02000131".parse::<DispnetHash>().unwrap();
    assert_eq!(hash.hash_type, HashType::CRC);
    assert_eq!(hash.digest_value, b"1".to_vec());
    assert!(matches!("0200013".parse::<DispnetHash>(), Err(HashError::InvalidDigest { .. })));
    assert!(matches!("02".parse::<DispnetHash>(), Err(HashError::Undefined)));
}

#[test]
fn digest_reads_as_hash_does() {
    let digest = InternalDispnetHash::parse("03000261 62".replace(' ', "").as_str()).unwrap();
    assert_eq!(digest.hash_type, HashType::Argon2);
    assert_eq!(digest.digest_length, 2);
    assert_eq!(digest.digest_value, b"ab".to_vec());
    assert!(matches!(InternalDispnetHash::parse("0300"), Err(HashError::Undefined)));
    assert!(matches!(
        InternalDispnetHash::parse("03000361"),
        Err(HashError::DigestLengthMissmatch { length: 3, .. })
    ));
}
