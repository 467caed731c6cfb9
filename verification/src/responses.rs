//! The shapes of the node's answers.

use crate::tx::Tx;
use vstd::prelude::*;

verus! {

/// The body of the answer to a listing of the pending pool.
#[derive(Clone, Debug)]
pub struct Result {
    /// The pending blobs, each in base64.
    pub txs: Vec<String>,
}

/// The answer to a listing of the pending pool.
#[derive(Clone, Debug)]
pub struct UnconfirmedTxsResponse {
    pub result: Result,
}

/// The answer to a request to decode a blob.
#[derive(Clone, Debug)]
pub struct DecodeTxResponse {
    pub result: Tx,
}

} // verus!
