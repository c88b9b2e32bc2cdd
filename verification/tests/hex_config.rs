use ohttp_client::base16::{decode, HexError};
use ohttp_client::config::KeyConfiguration;

#[test]
fn hex_two_zeros_is_one_zero_byte() {
    let config = KeyConfiguration::from_hex("00").unwrap();
    assert_eq!(config.as_bytes(), &[0x00u8][..]);
}

#[test]
fn hex_single_digit_is_odd_length() {
    assert_eq!(KeyConfiguration::from_hex("0"), Err(HexError::OddLength));
}

#[test]
fn hex_non_digit_is_refused() {
    assert_eq!(
        KeyConfiguration::from_hex("0g"),
        Err(HexError::InvalidCharacter { index: 1, byte: b'g' })
    );
    assert!(KeyConfiguration::from_hex("zz").is_err());
    assert!(KeyConfiguration::from_hex("00 1").is_err());
}

#[test]
fn hex_empty_text_is_empty_configuration() {
    let config = KeyConfiguration::from_hex("").unwrap();
    assert_eq!(config.as_bytes().len(), 0);
}

#[test]
fn hex_accepts_both_cases() {
    let config = KeyConfiguration::from_hex("0aF1dE9b").unwrap();
    assert_eq!(config.as_bytes(), &[0x0au8, 0xf1, 0xde, 0x9b][..]);
}

#[test]
fn hex_high_digit_comes_first() {
    assert_eq!(decode(b"10"), Ok(vec![0x10u8]));
    assert_eq!(decode(b"01"), Ok(vec![0x01u8]));
    assert_eq!(decode(b"ff00"), Ok(vec![0xffu8, 0x00]));
}

#[test]
fn hex_odd_length_is_reported_before_any_character() {
    assert_eq!(decode(b"zzz"), Err(HexError::OddLength));
    assert_eq!(decode(b"g"), Err(HexError::OddLength));
}

#[test]
fn hex_first_bad_character_is_reported() {
    assert_eq!(decode(b"00x0y0"), Err(HexError::InvalidCharacter { index: 2, byte: b'x' }));
    assert_eq!(decode(b"0/"), Err(HexError::InvalidCharacter { index: 1, byte: b'/' }));
    assert_eq!(decode(b":0"), Err(HexError::InvalidCharacter { index: 0, byte: b':' }));
    assert_eq!(decode(b"@A"), Err(HexError::InvalidCharacter { index: 0, byte: b'@' }));
    assert_eq!(decode(b"Gg"), Err(HexError::InvalidCharacter { index: 0, byte: b'G' }));
    assert_eq!(decode(b"a`"), Err(HexError::InvalidCharacter { index: 1, byte: b'`' }));
}

#[test]
fn hex_non_ascii_text_is_refused_by_its_bytes() {
    // Two bytes in UTF-8, neither of them a digit.
    assert_eq!(
        KeyConfiguration::from_hex("\u{e9}"),
        Err(HexError::InvalidCharacter { index: 0, byte: 0xc3 })
    );
}

#[test]
fn configuration_keeps_its_bytes() {
    let config = KeyConfiguration::from_bytes(vec![1, 2, 3]);
    assert_eq!(config.as_bytes(), &[1u8, 2, 3][..]);
    assert_eq!(config, KeyConfiguration::from_hex("010203").unwrap());
}
