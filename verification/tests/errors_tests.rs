use mempool_watcher::errors::{RequestError, TxHashDecodeError};
use mempool_watcher::hash::tx_hash;

fn json_error() -> serde_json::Error {
    serde_json::from_str::<serde_json::Value>("{").unwrap_err()
}

#[test]
fn json_error_becomes_a_deserialization_error() {
    let error = RequestError::from(json_error());
    assert!(matches!(error, RequestError::JsonDeserializationError(_)));
}

#[test]
fn json_error_keeps_its_text() {
    let error = RequestError::from(json_error());
    assert_eq!(error.message(), format!("{}", json_error()));
    assert!(!error.message().is_empty());
}

#[test]
fn base64_error_becomes_a_b64_decode_error() {
    let error = TxHashDecodeError::from(base64::DecodeError::InvalidLength);
    assert!(matches!(
        error,
        TxHashDecodeError::B64DecodeError(base64::DecodeError::InvalidLength)
    ));
    assert_eq!(error.message(), format!("{}", base64::DecodeError::InvalidLength));
}

#[test]
fn utf8_error_becomes_a_string_from_utf8_error() {
    let inner = String::from_utf8(vec![0xff, 0xfe]).unwrap_err();
    let text = format!("{}", inner);
    let error = TxHashDecodeError::from(inner);
    assert!(matches!(error, TxHashDecodeError::StringFromUtf8Error(_)));
    assert_eq!(error.message(), text);
}

#[test]
fn malformed_blob_reports_the_decoder_error() {
    let error = tx_hash("a").unwrap_err();
    assert!(matches!(
        error,
        TxHashDecodeError::B64DecodeError(base64::DecodeError::InvalidLength)
    ));
}

#[test]
fn blob_with_a_foreign_character_reports_the_byte() {
    let error = tx_hash("aGVs!G8=").unwrap_err();
    assert!(matches!(
        error,
        TxHashDecodeError::B64DecodeError(base64::DecodeError::InvalidByte(4, b'!'))
    ));
}
