use runner2::secret::encode_secret;

#[test]
fn test_secret_encoding() {
    let test_secret = "test123";
    let encoded = encode_secret(test_secret);
    assert!(!encoded.is_empty());
}

#[test]
fn test_secret_encoding_exact_value() {
    // UTF-16 little-endian layout of "test123", each byte inverted and
    // rotated left, then base64.
    assert_eq!(encode_secret("test123"), "F/81/xn/F/+d/5v/mf8=");
}

#[test]
fn test_secret_encoding_empty_input() {
    assert_eq!(encode_secret(""), "");
}

#[test]
fn test_secret_encoding_differs_from_plain_base64() {
    // The transform must change the bytes before base64: encoding "AA"
    // must not equal the base64 of its UTF-16 bytes.
    let encoded = encode_secret("AA");
    assert_ne!(encoded, "QQBBAA==");
}
