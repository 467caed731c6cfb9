//! A transaction as it was seen in the pending pool.

use crate::tx::Tx;
use vstd::prelude::*;

verus! {

/// A point of the system clock of the standard library.
#[verifier::external_type_specification]
#[verifier::external_body]
pub struct ExSystemTime(std::time::SystemTime);

/// The present point of the system clock.
///
/// Trusted: `SystemTime::now` of the standard library. Nothing is claimed of
/// the point that it returns.
#[verifier::external_body]
fn system_now() -> (now: std::time::SystemTime) {
    std::time::SystemTime::now()
}

/// A decoded transaction with its identifier and the time at which it was seen.
pub struct MempoolItem {
    pub timestamp: std::time::SystemTime,
    pub tx: Tx,
    pub tx_hash: String,
}

impl MempoolItem {
    /// The item for `tx` with the identifier `tx_hash`, seen now.
    pub fn new(tx: Tx, tx_hash: String) -> (item: MempoolItem)
        ensures
            item.tx == tx,
            item.tx_hash == tx_hash,
    {
        MempoolItem { timestamp: system_now(), tx, tx_hash }
    }
}

} // verus!
