//! The structured form of a transaction, as the node's decoder gives it.
//!
//! The watcher forwards these values unchanged and reads none of their fields.

use vstd::prelude::*;

verus! {

/// A JSON value of any shape, as `serde_json` holds it.
#[verifier::external_type_specification]
#[verifier::external_body]
pub struct ExJsonValue(serde_json::Value);

/// Copies a JSON value. Nothing is claimed of the copy.
pub assume_specification[ <serde_json::Value as Clone>::clone ](
    value: &serde_json::Value,
) -> (copy: serde_json::Value)
;

/// A decoded transaction.
#[derive(Clone, Debug, PartialEq)]
pub struct Tx {
    pub msg: Vec<Msg>,
    pub fee: Fee,
    pub signatures: Vec<Signature>,
    pub memo: String,
    pub timeout_height: String,
}

/// One message of a transaction: its type tag and a payload whose shape depends on the type.
#[derive(Clone, Debug, PartialEq)]
pub struct Msg {
    pub type_: String,
    pub value: serde_json::Value,
}

/// What the sender offers to pay, and the gas limit.
#[derive(Clone, Debug, PartialEq)]
pub struct Fee {
    pub amount: Vec<Coin>,
    pub gas: String,
}

/// An amount of one denomination.
#[derive(Clone, Debug, PartialEq)]
pub struct Coin {
    pub denom: String,
    pub amount: String,
}

/// A signature with the public key that made it.
#[derive(Clone, Debug, PartialEq)]
pub struct Signature {
    pub pub_key: PubKey,
    pub signature: String,
}

/// A public key: its type tag and its encoded value.
#[derive(Clone, Debug, PartialEq)]
pub struct PubKey {
    pub type_: String,
    pub value: String,
}

} // verus!
