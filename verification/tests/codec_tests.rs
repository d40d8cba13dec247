use runner2::codec::{decode_byte, decode_byte_array, encode_byte};
use runner2::config::{read_encoded_string, LauncherData};
use runner2::error::Error;

/// The encoding transform used to build test blocks: invert, then rotate
/// left by one bit.
fn encode_byte_local(b: u8) -> u8 {
    let inverted = !b;
    (inverted << 1) | ((inverted >> 7) & 1)
}

#[test]
fn test_decode_byte_array() {
    let test_str = b"test";
    let mut input = Vec::new();
    for &b in test_str {
        input.push(encode_byte_local(b));
        input.push(0);
    }
    let decoded = decode_byte_array(&input);
    assert_eq!(decoded, b"test");
}

#[test]
fn test_read_encoded_string() {
    let test_str = b"test";
    let mut data = Vec::new();

    // Length: number of bytes * 2 (each byte is followed by a zero)
    data.extend_from_slice(&((test_str.len() * 2) as u32).to_le_bytes());

    // Encode test string
    for &b in test_str {
        data.push(encode_byte_local(b));
        data.push(0);
    }

    let result = read_encoded_string(&data, 0).unwrap();
    assert_eq!(result.0, "test");
    assert_eq!(result.1, data.len());
}

#[test]
fn test_byte_transform_round_trips_every_value() {
    for b in 0..=255u8 {
        assert_eq!(decode_byte(encode_byte(b)), b);
        assert_eq!(encode_byte(decode_byte(b)), b);
    }
}

#[test]
fn test_encode_byte_matches_expected_bits() {
    // 't' is 0x74; inverted 0x8B; rotated left 0x17.
    assert_eq!(encode_byte(0x74), 0x17);
    assert_eq!(decode_byte(0x17), 0x74);
}

#[test]
fn test_decode_byte_array_drops_odd_trailing_byte() {
    let input = vec![encode_byte_local(b'a'), 0, encode_byte_local(b'b')];
    let decoded = decode_byte_array(&input);
    assert_eq!(decoded, b"a");
}

#[test]
fn test_read_encoded_string_truncated_is_io_error() {
    // Announces 8 bytes but holds only 2.
    let data = vec![8, 0, 0, 0, 23, 0];
    let err = read_encoded_string(&data, 0).unwrap_err();
    assert!(matches!(err, Error::Io(_)));
}

#[test]
fn test_read_encoded_string_empty_block_is_dat_error() {
    let data = vec![0, 0, 0, 0];
    let err = read_encoded_string(&data, 0).unwrap_err();
    assert!(matches!(err, Error::DatFile(_)));
}

#[test]
fn test_read_encoded_string_invalid_utf8_is_dat_error() {
    // 0xFF is not valid UTF-8 on its own.
    let data = vec![2, 0, 0, 0, encode_byte_local(0xFF), 0];
    let err = read_encoded_string(&data, 0).unwrap_err();
    assert!(matches!(err, Error::DatFile(_)));
}

fn encoded_field(s: &[u8]) -> Vec<u8> {
    let mut block = Vec::new();
    for &b in s {
        block.push(encode_byte_local(b));
        block.push(0);
    }
    let mut out = (block.len() as u32).to_le_bytes().to_vec();
    out.extend_from_slice(&block);
    out
}

#[test]
fn test_from_binary_reads_both_secrets() {
    let mut data = encoded_field(b"secret1");
    data.extend_from_slice(&encoded_field(b"app secret!!"));
    let parsed = LauncherData::from_binary(&data).unwrap();
    assert_eq!(parsed.patcher_secret, "secret1");
    assert_eq!(parsed.app_secret, "app secret!!");
    assert!(parsed.app_display_name.is_none());
    assert!(parsed.app_author.is_none());
    assert!(parsed.app_identifier.is_none());
}

#[test]
fn test_from_binary_missing_second_field() {
    let data = encoded_field(b"secret1");
    let err = LauncherData::from_binary(&data).unwrap_err();
    assert!(matches!(err, Error::Io(_)));
}

#[test]
fn test_from_json_reads_document() {
    let json = r#"{"patcher_secret": "ps", "app_secret": "as12", "app_author": null}"#;
    let mut data = vec![46, 98, 76, 97];
    data.extend_from_slice(&encoded_field(json.as_bytes()));
    let parsed = LauncherData::from_json(&data).unwrap();
    assert_eq!(parsed.patcher_secret, "ps");
    assert_eq!(parsed.app_secret, "as12");
    assert!(parsed.app_display_name.is_none());
    assert!(parsed.app_author.is_none());
    assert!(parsed.app_identifier.is_none());
}

#[test]
fn test_from_json_keeps_optional_fields() {
    let json = r#"{"patcher_secret": "p", "app_secret": "a", "app_display_name": "Game"}"#;
    let mut data = vec![46, 98, 76, 97];
    data.extend_from_slice(&encoded_field(json.as_bytes()));
    let parsed = LauncherData::from_json(&data).unwrap();
    assert_eq!(parsed.app_display_name.as_deref(), Some("Game"));
}

#[test]
fn test_from_json_bad_magic() {
    let json = r#"{"patcher_secret": "p", "app_secret": "a"}"#;
    let mut data = vec![1, 2, 3, 4];
    data.extend_from_slice(&encoded_field(json.as_bytes()));
    let err = LauncherData::from_json(&data).unwrap_err();
    assert!(matches!(err, Error::DatFile(_)));
}

#[test]
fn test_from_json_malformed_document() {
    let mut data = vec![46, 98, 76, 97];
    data.extend_from_slice(&encoded_field(b"not json"));
    let err = LauncherData::from_json(&data).unwrap_err();
    assert!(matches!(err, Error::Json(_)));
}

#[test]
fn test_from_json_missing_app_secret() {
    let mut data = vec![46, 98, 76, 97];
    data.extend_from_slice(&encoded_field(br#"{"patcher_secret": "p"}"#));
    let err = LauncherData::from_json(&data).unwrap_err();
    assert!(matches!(err, Error::Json(_)));
}
