//! What can go wrong when the node is asked, and when an identifier is computed.

use vstd::prelude::*;

verus! {

/// A failed HTTP request, as `reqwest` reports it.
#[verifier::external_type_specification]
#[verifier::external_body]
pub struct ExHttpError(reqwest::Error);

/// A failed JSON conversion, as `serde_json` reports it.
#[verifier::external_type_specification]
#[verifier::external_body]
pub struct ExJsonError(serde_json::Error);

/// Text that is not valid base64, as `base64` reports it.
#[verifier::external_type_specification]
#[verifier::external_body]
pub struct ExBase64Error(base64::DecodeError);

/// Bytes that are not valid UTF-8, as the standard library reports it.
#[verifier::external_type_specification]
#[verifier::external_body]
pub struct ExUtf8Error(std::string::FromUtf8Error);

/// The text of an HTTP failure.
///
/// Trusted: the `Display` impl of `reqwest::Error`. Nothing is claimed of the text.
#[verifier::external_body]
fn http_error_text(err: &reqwest::Error) -> (text: String) {
    format!("{}", err)
}

/// The text of a JSON failure.
///
/// Trusted: the `Display` impl of `serde_json::Error`. Nothing is claimed of the text.
#[verifier::external_body]
fn json_error_text(err: &serde_json::Error) -> (text: String) {
    format!("{}", err)
}

/// The text of a base64 failure.
///
/// Trusted: the `Display` impl of `base64::DecodeError`. Nothing is claimed of the text.
#[verifier::external_body]
fn base64_error_text(err: &base64::DecodeError) -> (text: String) {
    format!("{}", err)
}

/// The text of a UTF-8 failure.
///
/// Trusted: the `Display` impl of `FromUtf8Error`. Nothing is claimed of the text.
#[verifier::external_body]
fn utf8_error_text(err: &std::string::FromUtf8Error) -> (text: String) {
    format!("{}", err)
}

/// A request to the node that failed.
#[derive(Debug)]
pub enum RequestError {
    /// The node could not be reached or answered with a failure.
    HttpError(reqwest::Error),
    /// The answer did not have the expected shape.
    JsonDeserializationError(serde_json::Error),
}

impl From<reqwest::Error> for RequestError {
    fn from(err: reqwest::Error) -> (error: Self) {
        RequestError::HttpError(err)
    }
}

impl vstd::std_specs::convert::FromSpecImpl<reqwest::Error> for RequestError {
    open spec fn obeys_from_spec() -> bool {
        true
    }

    open spec fn from_spec(err: reqwest::Error) -> Self {
        RequestError::HttpError(err)
    }
}

impl From<serde_json::Error> for RequestError {
    fn from(err: serde_json::Error) -> (error: Self) {
        RequestError::JsonDeserializationError(err)
    }
}

impl vstd::std_specs::convert::FromSpecImpl<serde_json::Error> for RequestError {
    open spec fn obeys_from_spec() -> bool {
        true
    }

    open spec fn from_spec(err: serde_json::Error) -> Self {
        RequestError::JsonDeserializationError(err)
    }
}

impl RequestError {
    /// The text of the failure, as the crate that reported it words it.
    pub fn message(&self) -> (text: String) {
        match self {
            RequestError::HttpError(err) => http_error_text(err),
            RequestError::JsonDeserializationError(err) => json_error_text(err),
        }
    }
}

/// A pending blob whose identifier could not be computed.
#[derive(Debug)]
pub enum TxHashDecodeError {
    /// The blob is not valid base64.
    B64DecodeError(base64::DecodeError),
    /// The blob does not hold valid UTF-8.
    StringFromUtf8Error(std::string::FromUtf8Error),
}

impl From<base64::DecodeError> for TxHashDecodeError {
    fn from(err: base64::DecodeError) -> (error: Self) {
        TxHashDecodeError::B64DecodeError(err)
    }
}

impl vstd::std_specs::convert::FromSpecImpl<base64::DecodeError> for TxHashDecodeError {
    open spec fn obeys_from_spec() -> bool {
        true
    }

    open spec fn from_spec(err: base64::DecodeError) -> Self {
        TxHashDecodeError::B64DecodeError(err)
    }
}

impl From<std::string::FromUtf8Error> for TxHashDecodeError {
    fn from(err: std::string::FromUtf8Error) -> (error: Self) {
        TxHashDecodeError::StringFromUtf8Error(err)
    }
}

impl vstd::std_specs::convert::FromSpecImpl<std::string::FromUtf8Error> for TxHashDecodeError {
    open spec fn obeys_from_spec() -> bool {
        true
    }

    open spec fn from_spec(err: std::string::FromUtf8Error) -> Self {
        TxHashDecodeError::StringFromUtf8Error(err)
    }
}

impl TxHashDecodeError {
    /// The text of the failure, as the crate that reported it words it.
    pub fn message(&self) -> (text: String) {
        match self {
            TxHashDecodeError::B64DecodeError(err) => base64_error_text(err),
            TxHashDecodeError::StringFromUtf8Error(err) => utf8_error_text(err),
        }
    }
}

} // verus!
