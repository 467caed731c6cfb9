//! The node as a source of transactions: where to ask it, and how the
//! identifier of a pending blob is computed.

use crate::errors::TxHashDecodeError;
use crate::hash::{tx_hash, tx_hash_of};
use vstd::prelude::*;
use vstd::string::StringExecFns;

verus! {

/// The path and query, below the RPC address, that list the pending pool.
pub open spec fn unconfirmed_txs_path() -> Seq<char> {
    "/unconfirmed_txs?limit=1000000000000"@
}

/// The path, below the LCD address, that decodes a blob.
pub open spec fn decode_tx_path() -> Seq<char> {
    "/txs/decode"@
}

/// The addresses of a node.
#[derive(Clone, Debug)]
pub struct Terra {
    rpc_url: String,
    lcd_url: String,
}

impl Terra {
    /// The address of the node's RPC endpoint.
    pub closed spec fn rpc(&self) -> Seq<char> {
        self.rpc_url@
    }

    /// The address of the node's LCD endpoint.
    pub closed spec fn lcd(&self) -> Seq<char> {
        self.lcd_url@
    }

    /// The node with the RPC endpoint `rpc_url` and the LCD endpoint `lcd_url`.
    pub fn new(rpc_url: String, lcd_url: String) -> (terra: Terra)
        ensures
            terra.rpc() == rpc_url@,
            terra.lcd() == lcd_url@,
    {
        Terra { rpc_url, lcd_url }
    }

    /// The address that lists the pending pool.
    pub fn unconfirmed_txs_url(&self) -> (url: String)
        ensures
            url@ == self.rpc() + unconfirmed_txs_path(),
    {
        self.rpc_url.clone().concat("/unconfirmed_txs?limit=1000000000000")
    }

    /// The address that decodes a blob.
    pub fn decode_tx_url(&self) -> (url: String)
        ensures
            url@ == self.lcd() + decode_tx_path(),
    {
        self.lcd_url.clone().concat("/txs/decode")
    }

    /// The identifier of the pending blob `tx_string`.
    ///
    /// Fails exactly where the blob is not valid base64.
    pub fn get_tx_hash(&self, tx_string: &str) -> (hash: Result<String, TxHashDecodeError>)
        ensures
            match tx_hash_of(tx_string@) {
                Some(expected) => hash.is_ok() && hash.unwrap()@ == expected,
                None => hash matches Err(TxHashDecodeError::B64DecodeError(_)),
            },
    {
        tx_hash(tx_string)
    }
}

} // verus!
