use turnstile::hexstr::{decode, encode, HexError};

#[test]
fn encode_is_lowercase_two_digits_per_byte() {
    assert_eq!(encode(&[]), "");
    assert_eq!(encode(&[0x00, 0x0f, 0xab, 0xff]), "000fabff");
}

#[test]
fn decode_accepts_both_cases_and_round_trips() {
    assert_eq!(decode("cafeBABE"), Ok(vec![0xca, 0xfe, 0xba, 0xbe]));
    let bytes = [1u8, 2, 3, 254, 255];
    assert_eq!(decode(&encode(&bytes)), Ok(bytes.to_vec()));
    assert_eq!(decode(""), Ok(vec![]));
}

#[test]
fn decode_errors_match_the_hex_crate() {
    assert_eq!(decode("123"), Err(HexError::OddLength));
    assert_eq!(decode("12g4"), Err(HexError::InvalidHexCharacter { c: 'g', index: 2 }));
    assert_eq!(decode("not-hex!"), Err(HexError::InvalidHexCharacter { c: 'n', index: 0 }));
    // Decoding is byte-wise: a two-byte character is reported by its first byte.
    assert_eq!(decode("aé"), Err(HexError::OddLength));
    assert_eq!(decode("aaé"), Err(HexError::InvalidHexCharacter { c: '\u{c3}', index: 2 }));
    for (s, expected) in [("123", hex::decode("123")), ("12g4", hex::decode("12g4")), ("ab", hex::decode("ab"))] {
        assert_eq!(decode(s).is_ok(), expected.is_ok());
    }
}
