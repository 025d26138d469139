use steam_totp::codec::{decode_base64, DecodeError};

#[test]
fn decodes_known_values() {
    assert_eq!(decode_base64(b"TWFu"), Ok(vec![77u8, 97, 110]));
    assert_eq!(decode_base64(b"TWE="), Ok(vec![77u8, 97]));
    assert_eq!(decode_base64(b"TQ=="), Ok(vec![77u8]));
    assert_eq!(decode_base64(b""), Ok(vec![]));
    assert_eq!(decode_base64(b"AAAA"), Ok(vec![0u8, 0, 0]));
    assert_eq!(decode_base64(b"////"), Ok(vec![255u8, 255, 255]));
}

#[test]
fn decodes_reference_secret() {
    let key = decode_base64(b"zvIayp3JPvtvX/QGHqsmvwYuqpc=").expect("valid secret");
    assert_eq!(key.len(), 20);
    assert_eq!(key[0], 0xce);
    assert_eq!(key[19], 0x97);
}

#[test]
fn rejects_foreign_characters() {
    assert_eq!(decode_base64(b"a!bc"), Err(DecodeError::InvalidBase64));
    assert_eq!(decode_base64(b"****"), Err(DecodeError::InvalidBase64));
    assert_eq!(decode_base64(b"TWFu\n"), Err(DecodeError::InvalidBase64));
    assert_eq!(decode_base64(b"=AAA"), Err(DecodeError::InvalidBase64));
}

#[test]
fn rejects_bad_length_and_padding() {
    assert_eq!(decode_base64(b"TQ="), Err(DecodeError::InvalidBase64));
    assert_eq!(decode_base64(b"TWFuA"), Err(DecodeError::InvalidBase64));
    assert_eq!(decode_base64(b"T==="), Err(DecodeError::InvalidBase64));
    assert_eq!(decode_base64(b"===="), Err(DecodeError::InvalidBase64));
    assert_eq!(decode_base64(b"TW=u"), Err(DecodeError::InvalidBase64));
}

#[test]
fn decoding_is_idempotent() {
    let first = decode_base64(b"zvIayp3JPvtvX/QGHqsmvwYuqpc=").expect("valid secret");
    let second = decode_base64(b"zvIayp3JPvtvX/QGHqsmvwYuqpc=").expect("valid secret");
    assert_eq!(first, second);
}

#[test]
fn error_message_is_fixed() {
    assert_eq!(DecodeError::InvalidBase64.message(), "secret is not valid base64");
}
