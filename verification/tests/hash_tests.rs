use mempool_watcher::errors::TxHashDecodeError;
use mempool_watcher::hash::{hash_bytes, hash_decoded, to_upper_hex, tx_hash};

#[test]
fn upper_hex_of_two_bytes() {
    assert_eq!(to_upper_hex(&[0xbe, 0xef]), "BEEF");
}

#[test]
fn upper_hex_of_nothing_is_empty() {
    assert_eq!(to_upper_hex(&[]), "");
}

#[test]
fn upper_hex_keeps_leading_zero_digits() {
    assert_eq!(to_upper_hex(&[0x00, 0x0a, 0xf0, 0xff]), "000AF0FF");
}

#[test]
fn hash_of_hello_bytes() {
    assert_eq!(
        hash_bytes(b"hello"),
        "2CF24DBA5FB0A30E26E83B2AC5B9E29E1B161E5C1FA7425E73043362938B9824"
    );
}

#[test]
fn hash_of_a_base64_blob() {
    assert_eq!(
        tx_hash("aGVsbG8=").unwrap(),
        "2CF24DBA5FB0A30E26E83B2AC5B9E29E1B161E5C1FA7425E73043362938B9824"
    );
}

#[test]
fn hash_of_the_empty_blob() {
    assert_eq!(
        tx_hash("").unwrap(),
        "E3B0C44298FC1C149AFBF4C8996FB92427AE41E4649B934CA495991B7852B855"
    );
}

#[test]
fn hash_of_a_malformed_blob_fails() {
    assert!(tx_hash("not base64!").is_err());
}

#[test]
fn hash_of_a_blob_with_padding_and_without() {
    assert_eq!(
        tx_hash("dHgtdGhyZWU=").unwrap(),
        "7C0072580893CF6008AC67B410AD58B2DA000EE37D3A6B538BFEA9A085B4A91C"
    );
    assert_eq!(
        tx_hash("dHgtdHdv").unwrap(),
        "B45B8C135A6AA07FB2039F6C3FD21FA4C548CCDE6FA2AAB3477516BDC8C8EBDD"
    );
}

#[test]
fn hash_is_sixty_four_upper_case_digits() {
    let hash = tx_hash("dHgtb25l").unwrap();
    assert_eq!(hash.len(), 64);
    assert!(hash.chars().all(|c| c.is_ascii_digit() || ('A'..='F').contains(&c)));
}

#[test]
fn hash_of_decoded_bytes() {
    assert_eq!(
        hash_decoded(Ok(b"tx-one".to_vec())).unwrap(),
        "81BEAD00720F68C81DB776CB728A19AE6EB1670B24F0343354C7D1C507AD336A"
    );
}

#[test]
fn hash_of_a_failed_decoding_is_that_failure() {
    let error = hash_decoded(Err(base64::DecodeError::InvalidLastSymbol(3, b'x'))).unwrap_err();
    assert!(matches!(
        error,
        TxHashDecodeError::B64DecodeError(base64::DecodeError::InvalidLastSymbol(3, b'x'))
    ));
}

#[test]
fn hash_of_a_blob_with_trailing_bits_fails() {
    assert!(matches!(
        tx_hash("aGVsbG9=").unwrap_err(),
        TxHashDecodeError::B64DecodeError(base64::DecodeError::InvalidLastSymbol(6, b'9'))
    ));
}
