//! The identifier of a pending blob: the SHA-256 digest of the bytes that the
//! blob encodes in base64, written in upper-case hexadecimal.

use crate::errors::TxHashDecodeError;
use sha2::Digest;
use vstd::string::StringSliceAdditionalSpecFns;
use vstd::prelude::*;

verus! {

/// The bytes that `text` encodes in standard base64 with padding, or `None`
/// where `text` is no such encoding.
pub uninterp spec fn base64_decoding(text: Seq<char>) -> Option<Seq<u8>>;

/// The SHA-256 digest of `data`.
pub uninterp spec fn sha256_digest(data: Seq<u8>) -> Seq<u8>;

/// The length of `text` in bytes.
///
/// Trusted: `str::len` of the standard library, which keeps every string
/// within `isize::MAX` bytes.
#[verifier::external_body]
fn byte_len(text: &str) -> (n: usize)
    ensures
        n == text.spec_bytes().len(),
        n <= isize::MAX,
{
    text.len()
}

/// Decodes `text` from standard base64.
///
/// Trusted: `base64::decode`. Its result is a function of the text alone,
/// named `base64_decoding`. The call panics only where the length of the text
/// plus seven overflows, which the precondition excludes.
#[verifier::external_body]
fn base64_decode(text: &str) -> (decoded: Result<Vec<u8>, base64::DecodeError>)
    requires
        text.spec_bytes().len() + 7 <= usize::MAX,
    ensures
        match decoded {
            Ok(bytes) => base64_decoding(text@) == Some(bytes@),
            Err(_) => base64_decoding(text@).is_none(),
        },
{
    base64::decode(text)
}

/// Computes the SHA-256 digest of `data`.
///
/// Trusted: `Sha256::digest` of `sha2`. Its result is a function of the data
/// alone, named `sha256_digest`.
#[verifier::external_body]
fn sha256(data: &[u8]) -> (digest: Vec<u8>)
    ensures
        digest@ == sha256_digest(data@),
{
    sha2::Sha256::digest(data).to_vec()
}

/// Appends a character to a string.
///
/// Trusted: `String::push` of the standard library.
#[verifier::external_body]
fn push_char(text: &mut String, c: char)
    ensures
        final(text)@ == old(text)@.push(c),
{
    text.push(c)
}

/// The upper-case hexadecimal digit of a number below sixteen.
pub open spec fn hex_digit(nibble: int) -> char {
    seq!['0', '1', '2', '3', '4', '5', '6', '7', '8', '9', 'A', 'B', 'C', 'D', 'E', 'F'][nibble]
}

/// The bytes written in upper-case hexadecimal: two digits for each byte,
/// the high half first.
pub open spec fn upper_hex(bytes: Seq<u8>) -> Seq<char> {
    Seq::new(
        2 * bytes.len(),
        |i: int|
            if i % 2 == 0 {
                hex_digit(bytes[i / 2] as int / 16)
            } else {
                hex_digit(bytes[i / 2] as int % 16)
            },
    )
}

/// The identifier of a blob: the digest of the bytes that it encodes, in
/// upper-case hexadecimal; `None` where the blob is not valid base64.
pub open spec fn tx_hash_of(blob: Seq<char>) -> Option<Seq<char>> {
    match base64_decoding(blob) {
        Some(bytes) => Some(upper_hex(sha256_digest(bytes))),
        None => None,
    }
}

/// The upper-case hexadecimal digit of `nibble`.
fn hex_char(nibble: u8) -> (c: char)
    requires
        nibble < 16,
    ensures
        c == hex_digit(nibble as int),
{
    match nibble {
        0 => '0',
        1 => '1',
        2 => '2',
        3 => '3',
        4 => '4',
        5 => '5',
        6 => '6',
        7 => '7',
        8 => '8',
        9 => '9',
        10 => 'A',
        11 => 'B',
        12 => 'C',
        13 => 'D',
        14 => 'E',
        _ => 'F',
    }
}

/// Writes `bytes` in upper-case hexadecimal.
pub fn to_upper_hex(bytes: &[u8]) -> (text: String)
    ensures
        text@ == upper_hex(bytes@),
{
    let mut text = String::new();
    let mut i: usize = 0;
    while i < bytes.len()
        invariant
            i <= bytes.len(),
            text@ == upper_hex(bytes@.take(i as int)),
        decreases bytes.len() - i,
    {
        let byte = bytes[i];
        push_char(&mut text, hex_char(byte / 16));
        push_char(&mut text, hex_char(byte % 16));
        i += 1;
    }
    text
}

/// The identifier of the transaction whose bytes are `bytes`.
pub fn hash_bytes(bytes: &[u8]) -> (hash: String)
    ensures
        hash@ == upper_hex(sha256_digest(bytes@)),
{
    let digest = sha256(bytes);
    to_upper_hex(digest.as_slice())
}

/// The identifier of a pending blob, given what decoding the blob gave.
pub fn hash_decoded(decoded: Result<Vec<u8>, base64::DecodeError>) -> (hash: Result<
    String,
    TxHashDecodeError,
>)
    ensures
        match decoded {
            Ok(bytes) => hash.is_ok() && hash.unwrap()@ == upper_hex(sha256_digest(bytes@)),
            Err(err) => hash == Err::<String, TxHashDecodeError>(
                TxHashDecodeError::B64DecodeError(err),
            ),
        },
{
    match decoded {
        Ok(bytes) => Ok(hash_bytes(bytes.as_slice())),
        Err(err) => Err(TxHashDecodeError::B64DecodeError(err)),
    }
}

/// The identifier of the pending blob `tx_string`.
///
/// Fails exactly where the blob is not valid base64.
pub fn tx_hash(tx_string: &str) -> (hash: Result<String, TxHashDecodeError>)
    ensures
        match tx_hash_of(tx_string@) {
            Some(expected) => hash.is_ok() && hash.unwrap()@ == expected,
            None => hash matches Err(TxHashDecodeError::B64DecodeError(_)),
        },
{
    // No string is longer than `isize::MAX` bytes, so the decoder's length
    // arithmetic cannot overflow.
    let _bytes = byte_len(tx_string);
    hash_decoded(base64_decode(tx_string))
}

} // verus!
