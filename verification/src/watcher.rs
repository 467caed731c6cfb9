//! The polling cycle of the watcher.
//!
//! One cycle lists the pending blobs, computes their identifiers, drops those
//! that were surfaced within the time to live, has the rest decoded,
//! publishes what was decoded and remembers what was delivered. Listing and
//! decoding are requests to the node and are made by the caller: the watcher
//! takes their results and decides what follows.

use crate::cache::{
    after_lookup, age_secs, expired_keys, law_age_is_monotonic, live, lookup, swept, Cache, Stamped,
};
use crate::channel::{
    extended, grown, lemma_extended_twice, lemma_offered_extends, offered_to_all, Subscribers,
};
use crate::errors::RequestError;
use crate::hash::tx_hash_of;
use crate::strmap::{distinct_keys, has_key, lemma_model_at, model, StrMap};
use crate::terra::Terra;
use crate::tx::Tx;
use tokio::sync::mpsc::UnboundedReceiver;
use vstd::prelude::*;

verus! {

/// The seconds between two cycles.
pub const INTERVAL_SECS: u64 = 1;

/// The seconds for which a surfaced transaction is remembered.
pub const TTL_SECS: u64 = 30;

/// The pending blobs by identifier: each blob whose identifier can be
/// computed stands under it, a later blob in place of an earlier one with the
/// same identifier.
pub open spec fn hashed(blobs: Seq<String>) -> Map<Seq<char>, String>
    decreases blobs.len(),
{
    if blobs.len() == 0 {
        Map::empty()
    } else {
        let earlier = hashed(blobs.drop_last());
        match tx_hash_of(blobs.last()@) {
            Some(hash) => earlier.insert(hash, blobs.last()),
            None => earlier,
        }
    }
}

/// The items that came with a value, by key: a later item in place of an
/// earlier one with the same key.
pub open spec fn collected<V>(items: Seq<Option<(String, V)>>) -> Map<Seq<char>, V>
    decreases items.len(),
{
    if items.len() == 0 {
        Map::empty()
    } else {
        let earlier = collected(items.drop_last());
        match items.last() {
            Some((key, value)) => earlier.insert(key@, value),
            None => earlier,
        }
    }
}

/// The item came with a value under the key `key`.
pub open spec fn keyed<V>(item: Option<(String, V)>, key: Seq<char>) -> bool {
    item matches Some((k, _)) && k@ == key
}

/// The part of `raw` that is still to be surfaced at `now`: the entries
/// whose identifier has no live entry in `cache`.
pub open spec fn unseen<V>(
    cache: Map<Seq<char>, Stamped>,
    raw: Map<Seq<char>, V>,
    now: u128,
    ttl_seconds: u64,
) -> Map<Seq<char>, V> {
    Map::new(
        |hash: Seq<char>| raw.contains_key(hash) && lookup(cache, hash, now, ttl_seconds).is_none(),
        |hash: Seq<char>| raw[hash],
    )
}

/// The store after each of `hashes` was looked up at `now`: the entries
/// under them that had expired are gone.
pub open spec fn after_lookups(
    cache: Map<Seq<char>, Stamped>,
    hashes: Set<Seq<char>>,
    now: u128,
    ttl_seconds: u64,
) -> Map<Seq<char>, Stamped> {
    Map::new(
        |hash: Seq<char>|
            cache.contains_key(hash) && !(hashes.contains(hash) && !live(
                cache[hash].at,
                now,
                ttl_seconds,
            )),
        |hash: Seq<char>| cache[hash],
    )
}

/// The identifiers that `outcome` reports as delivered.
pub open spec fn delivered_in(outcome: Map<Seq<char>, bool>) -> Set<Seq<char>> {
    Set::new(|hash: Seq<char>| outcome.contains_key(hash) && outcome[hash])
}

/// The store after the transactions `txs` were published at `now`: those
/// whose identifier is in `delivered` are stored with that stamp, and the
/// rest of the store is as it was.
pub open spec fn published(
    cache: Map<Seq<char>, Stamped>,
    txs: Map<Seq<char>, Tx>,
    delivered: Set<Seq<char>>,
    now: u128,
) -> Map<Seq<char>, Stamped> {
    Map::new(
        |hash: Seq<char>|
            cache.contains_key(hash) || (txs.contains_key(hash) && delivered.contains(hash)),
        |hash: Seq<char>|
            if txs.contains_key(hash) && delivered.contains(hash) {
                Stamped { at: now, tx: txs[hash] }
            } else {
                cache[hash]
            },
    )
}

/// The blobs to decode after a listing at `now`: of a listing that
/// succeeded, the blobs whose identifier can be computed and has no live
/// entry in `cache`; of a listing that failed, nothing.
pub open spec fn pending_after(
    cache: Map<Seq<char>, Stamped>,
    listing: Result<Vec<String>, RequestError>,
    now: u128,
    ttl_seconds: u64,
) -> Map<Seq<char>, String> {
    match listing {
        Ok(blobs) => unseen(cache, hashed(blobs@), now, ttl_seconds),
        Err(_) => Map::empty(),
    }
}

/// The store after a listing at `now`: after a listing that succeeded, the
/// expired entries under the identifiers of the listed blobs are gone; after
/// one that failed, the store is as it was.
pub open spec fn store_after_listing(
    cache: Map<Seq<char>, Stamped>,
    listing: Result<Vec<String>, RequestError>,
    now: u128,
    ttl_seconds: u64,
) -> Map<Seq<char>, Stamped> {
    match listing {
        Ok(blobs) => after_lookups(cache, hashed(blobs@).dom(), now, ttl_seconds),
        Err(_) => cache,
    }
}

/// The store at the end of a cycle in which `txs` were decoded, those in
/// `delivered` reached a subscriber at `now`, and the store was swept at
/// `now`.
pub open spec fn store_after_cycle(
    cache: Map<Seq<char>, Stamped>,
    txs: Map<Seq<char>, Tx>,
    delivered: Set<Seq<char>>,
    now: u128,
    ttl_seconds: u64,
) -> Map<Seq<char>, Stamped> {
    swept(published(cache, txs, delivered, now), now, ttl_seconds)
}

/// What the second half of a cycle did.
#[derive(Debug)]
pub struct CycleReport {
    /// For the identifier of each decoded transaction, whether the
    /// transaction was delivered to a subscriber.
    pub outcome: StrMap<bool>,
    /// The number of expired entries that the sweep removed from the store.
    pub removed: usize,
}

/// What came back from the work that the watcher asked for.
#[derive(Debug)]
pub enum Event {
    /// The pause between two cycles is over, or the watcher has just started.
    Woke,
    /// The node answered the listing of its pending pool, or could not.
    Listed(Result<Vec<String>, RequestError>),
    /// The node answered the decoding of the pending blobs: for each blob
    /// its identifier with the transaction, or nothing where decoding
    /// failed, in the order in which the answers arrived.
    Decoded(Vec<Option<(String, Tx)>>),
}

/// The work that the watcher asks for next.
#[derive(Debug)]
pub enum Action {
    /// List the node's pending pool.
    List,
    /// Decode these blobs, given by identifier.
    Decode(StrMap<String>),
    /// The cycle is over: pause for so many seconds. The report says what
    /// the cycle did.
    Sleep(u64, CycleReport),
}

/// A step at `now` that takes `event` asks for `action`, turns the store
/// `before` into `after` and the subscribers' backlogs `backlogs_before` into
/// `backlogs_after`.
pub open spec fn steps_to(
    before: Map<Seq<char>, Stamped>,
    ttl_seconds: u64,
    backlogs_before: Seq<Seq<Tx>>,
    event: Event,
    now: u128,
    action: Action,
    after: Map<Seq<char>, Stamped>,
    backlogs_after: Seq<Seq<Tx>>,
) -> bool {
    match event {
        Event::Woke => action is List && after == before && backlogs_after == backlogs_before,
        Event::Listed(Ok(blobs)) => {
            &&& action matches Action::Decode(pending)
            &&& pending@ == unseen(before, hashed(blobs@), now, ttl_seconds)
            &&& after == after_lookups(before, hashed(blobs@).dom(), now, ttl_seconds)
            &&& backlogs_after == backlogs_before
        },
        Event::Listed(Err(_)) => {
            &&& action matches Action::Sleep(secs, report)
            &&& secs == INTERVAL_SECS
            &&& report.outcome@ == Map::<Seq<char>, bool>::empty()
            &&& report.removed == expired_keys(before, now, ttl_seconds).len()
            &&& after == swept(before, now, ttl_seconds)
            &&& backlogs_after == backlogs_before
        },
        Event::Decoded(items) => {
            &&& action matches Action::Sleep(secs, report)
            &&& secs == INTERVAL_SECS
            &&& report.outcome@.dom() == collected(items@).dom()
            &&& extended(backlogs_before, backlogs_after)
            &&& backlogs_before.len() == 0 ==> delivered_in(report.outcome@) == Set::<
                Seq<char>,
            >::empty()
            &&& report.removed == expired_keys(
                published(before, collected(items@), delivered_in(report.outcome@), now),
                now,
                ttl_seconds,
            ).len()
            &&& after == store_after_cycle(
                before,
                collected(items@),
                delivered_in(report.outcome@),
                now,
                ttl_seconds,
            )
        },
    }
}

/// The watcher: the node that it asks, the store of what it has surfaced,
/// and its subscribers.
#[derive(Debug)]
pub struct Watcher {
    terra: Terra,
    cache: Cache,
    subscribers: Subscribers,
}

impl Watcher {
    /// The store of surfaced transactions.
    pub closed spec fn store(&self) -> Map<Seq<char>, Stamped> {
        self.cache@
    }

    /// The time to live of the store, in seconds.
    pub closed spec fn ttl(&self) -> u64 {
        self.cache.ttl()
    }

    /// For each subscriber, the transactions that its channel has accepted
    /// since it was attached, in the order in which they were published.
    pub closed spec fn backlogs(&self) -> Seq<Seq<Tx>> {
        self.subscribers.backlogs()
    }

    /// The number of subscribers attached so far.
    pub open spec fn subscriber_count(&self) -> nat {
        self.backlogs().len()
    }

    /// The node that the watcher asks.
    pub closed spec fn node(&self) -> Terra {
        self.terra
    }

    /// A watcher of the node with the RPC endpoint `rpc_url` and the LCD
    /// endpoint `lcd_url`, with nothing surfaced yet and no subscriber.
    pub fn new(rpc_url: String, lcd_url: String) -> (watcher: Watcher)
        ensures
            watcher.store() == Map::<Seq<char>, Stamped>::empty(),
            watcher.ttl() == TTL_SECS,
            watcher.backlogs() == Seq::<Seq<Tx>>::empty(),
            watcher.node().rpc() == rpc_url@,
            watcher.node().lcd() == lcd_url@,
    {
        Watcher {
            terra: Terra::new(rpc_url, lcd_url),
            cache: Cache::new(TTL_SECS),
            subscribers: Subscribers::new(),
        }
    }

    /// The node that the watcher asks.
    pub fn terra(&self) -> (terra: &Terra)
        ensures
            *terra == self.node(),
    {
        &self.terra
    }

    /// The store of surfaced transactions.
    pub fn cache(&self) -> (cache: &Cache)
        ensures
            cache@ == self.store(),
            cache.ttl() == self.ttl(),
    {
        &self.cache
    }

    /// Attaches a subscriber and returns the handle from which it reads the
    /// transactions that are published from now on.
    pub fn subscribe(&mut self) -> (receiver: UnboundedReceiver<Tx>)
        ensures
            final(self).backlogs() == old(self).backlogs().push(Seq::empty()),
            final(self).store() == old(self).store(),
            final(self).ttl() == old(self).ttl(),
            final(self).node() == old(self).node(),
    {
        self.subscribers.subscribe()
    }

    /// Computes the identifier of each pending blob and returns the blobs by
    /// identifier. A blob whose identifier cannot be computed is left out.
    pub fn get_tx_hashes(&self, tx_strings: Vec<String>) -> (raw_txs: StrMap<String>)
        ensures
            raw_txs@ == hashed(tx_strings@),
    {
        let ghost all = tx_strings@;
        let mut raw_txs: StrMap<String> = StrMap::new();
        for blob in it: tx_strings
            invariant
                it.seq() == all,
                raw_txs@ == hashed(all.take(it.index() as int)),
        {
            proof {
                let done = it.index() as int;
                assert(all.take(done + 1).drop_last() =~= all.take(done));
            }
            match self.terra.get_tx_hash(blob.as_str()) {
                Ok(tx_hash) => {
                    raw_txs.insert(tx_hash, blob);
                },
                Err(_) => {},
            }
        }
        assert(all.take(all.len() as int) =~= all);
        raw_txs
    }

    /// Gathers the transactions that were decoded, by identifier. Each item
    /// is what decoding one pending blob gave: the identifier with the
    /// transaction, or nothing where decoding failed.
    pub fn get_decoded_txs(&self, items: Vec<Option<(String, Tx)>>) -> (txs: StrMap<Tx>)
        ensures
            txs@ == collected(items@),
    {
        let ghost all = items@;
        let mut txs: StrMap<Tx> = StrMap::new();
        for item in it: items
            invariant
                it.seq() == all,
                txs@ == collected(all.take(it.index() as int)),
        {
            proof {
                let done = it.index() as int;
                assert(all.take(done + 1).drop_last() =~= all.take(done));
            }
            match item {
                Some((tx_hash, tx)) => {
                    txs.insert(tx_hash, tx);
                },
                None => {},
            }
        }
        assert(all.take(all.len() as int) =~= all);
        txs
    }

    /// Drops from `raw_txs` the blobs whose identifier has a live entry in
    /// the store at `now` and returns the rest. The entries that the lookups
    /// found expired are removed from the store.
    pub fn retain_unseen_at(&mut self, raw_txs: StrMap<String>, now: u128) -> (pending: StrMap<
        String,
    >)
        ensures
            pending@ == unseen(old(self).store(), raw_txs@, now, old(self).ttl()),
            final(self).store() == after_lookups(
                old(self).store(),
                raw_txs@.dom(),
                now,
                old(self).ttl(),
            ),
            final(self).ttl() == old(self).ttl(),
            final(self).backlogs() == old(self).backlogs(),
            final(self).node() == old(self).node(),
    {
        let ghost raw = raw_txs@;
        let ghost before = self.cache@;
        let ghost ttl = self.cache.ttl();
        let mut rest = raw_txs;
        let mut pending: StrMap<String> = StrMap::new();
        loop
            invariant
                self.cache.ttl() == ttl,
                forall|k: Seq<char>| #[trigger]
                    rest@.contains_key(k) ==> raw.contains_key(k) && rest@[k] == raw[k],
                forall|k: Seq<char>| #[trigger]
                    pending@.contains_key(k) <==> raw.contains_key(k) && !rest@.contains_key(k)
                        && lookup(before, k, now, ttl).is_none(),
                forall|k: Seq<char>| #[trigger] pending@.contains_key(k) ==> pending@[k] == raw[k],
                self.cache@ == after_lookups(before, raw.dom().difference(rest@.dom()), now, ttl),
                self.subscribers == old(self).subscribers,
                self.terra == old(self).terra,
            ensures
                rest@ == Map::<Seq<char>, String>::empty(),
            decreases rest@.dom().len(),
        {
            let ghost looked = raw.dom().difference(rest@.dom());
            let ghost cache_now = self.cache@;
            match rest.pop() {
                Some((tx_hash, blob)) => {
                    proof {
                        // No lookup has touched the entry under this identifier yet.
                        assert(!looked.contains(tx_hash@));
                        assert(after_lookup(cache_now, tx_hash@, now, ttl) =~= after_lookups(
                            before,
                            raw.dom().difference(rest@.dom()),
                            now,
                            ttl,
                        ));
                    }
                    if self.cache.get_at(tx_hash.as_str(), now).is_none() {
                        pending.push_new(tx_hash, blob);
                    }
                },
                None => {
                    break ;
                },
            }
        }
        pending
    }

    /// Remembers `tx` under `tx_hash` with the stamp `now` where at least one
    /// subscriber accepted it, and leaves the store as it is where none did.
    pub fn record_at(&mut self, tx_hash: String, tx: Tx, accepted: usize, now: u128) -> (delivered:
        bool)
        ensures
            delivered == (accepted > 0),
            final(self).store() == if accepted > 0 {
                old(self).store().insert(tx_hash@, (Stamped { at: now, tx }))
            } else {
                old(self).store()
            },
            final(self).ttl() == old(self).ttl(),
            final(self).backlogs() == old(self).backlogs(),
            final(self).node() == old(self).node(),
    {
        if accepted > 0 {
            self.cache.set_at(tx_hash, tx, now);
            true
        } else {
            false
        }
    }

    /// Publishes `tx` to the subscribers at `now`: a copy is offered to each
    /// of them, and where at least one accepts it, `tx` is remembered under
    /// `tx_hash` with the stamp `now`. Where none accepts it, or there is no
    /// subscriber, the store stays as it is.
    pub fn publish_one_at(&mut self, tx_hash: String, tx: Tx, now: u128) -> (delivered: bool)
        ensures
            offered_to_all(old(self).backlogs(), final(self).backlogs(), tx),
            delivered == (grown(old(self).backlogs(), final(self).backlogs()) > 0),
            old(self).subscriber_count() == 0 ==> !delivered,
            final(self).store() == if delivered {
                old(self).store().insert(tx_hash@, (Stamped { at: now, tx }))
            } else {
                old(self).store()
            },
            final(self).ttl() == old(self).ttl(),
            final(self).node() == old(self).node(),
    {
        let accepted = self.subscribers.publish(&tx);
        self.record_at(tx_hash, tx, accepted, now)
    }

    /// Publishes each of `txs` to the subscribers, in the order in which
    /// they were gathered, and remembers, with the stamp `now`, those that at
    /// least one subscriber accepted. Returns for each identifier whether its
    /// transaction was delivered. Every subscriber keeps what its channel had
    /// accepted before.
    pub fn publish_at(&mut self, txs: StrMap<Tx>, now: u128) -> (outcome: StrMap<bool>)
        ensures
            outcome@.dom() == txs@.dom(),
            final(self).store() == published(
                old(self).store(),
                txs@,
                delivered_in(outcome@),
                now,
            ),
            extended(old(self).backlogs(), final(self).backlogs()),
            old(self).subscriber_count() == 0 ==> delivered_in(outcome@) == Set::<
                Seq<char>,
            >::empty(),
            final(self).ttl() == old(self).ttl(),
            final(self).node() == old(self).node(),
    {
        let ghost all = txs@;
        let ghost before = self.store();
        let entries = txs.into_entries();
        let ghost list = entries@;
        let mut outcome: StrMap<bool> = StrMap::new();
        for entry in it: entries
            invariant
                it.seq() == list,
                distinct_keys(list),
                model(list) == all,
                self.ttl() == old(self).ttl(),
                self.node() == old(self).node(),
                extended(old(self).backlogs(), self.backlogs()),
                forall|k: Seq<char>| #[trigger]
                    outcome@.contains_key(k) <==> has_key(list.take(it.index() as int), k),
                self.store() == published(before, all, delivered_in(outcome@), now),
                self.subscriber_count() == 0 ==> delivered_in(outcome@) == Set::<
                    Seq<char>,
                >::empty(),
        {
            let ghost done = it.index() as int;
            let ghost outcome_now = outcome@;
            let ghost backlogs_now = self.backlogs();
            let (tx_hash, tx) = entry;
            proof {
                lemma_model_at(list, done);
                // No earlier entry has this identifier.
                assert(!has_key(list.take(done), tx_hash@)) by {
                    if has_key(list.take(done), tx_hash@) {
                        let j = choose|j: int|
                            0 <= j < done && #[trigger] list.take(done)[j].0@ == tx_hash@;
                        assert(list[j].0@ == list[done].0@);
                    }
                }
            }
            let key = tx_hash.clone();
            let delivered = self.publish_one_at(tx_hash, tx, now);
            outcome.push_new(key, delivered);
            proof {
                lemma_offered_extends(backlogs_now, self.backlogs(), tx);
                lemma_extended_twice(old(self).backlogs(), backlogs_now, self.backlogs());
                assert forall|k: Seq<char>| #[trigger]
                    outcome@.contains_key(k) <==> has_key(list.take(done + 1), k) by {
                    if has_key(list.take(done), k) {
                        let j = choose|j: int|
                            0 <= j < done && #[trigger] list.take(done)[j].0@ == k;
                        assert(list.take(done + 1)[j].0@ == k);
                    }
                    if k == key@ {
                        assert(list.take(done + 1)[done].0@ == k);
                    }
                    if has_key(list.take(done + 1), k) && k != key@ {
                        let j = choose|j: int|
                            0 <= j < done + 1 && #[trigger] list.take(done + 1)[j].0@ == k;
                        assert(list.take(done)[j].0@ == k);
                    }
                }
                assert(delivered_in(outcome@) =~= if delivered {
                    delivered_in(outcome_now).insert(key@)
                } else {
                    delivered_in(outcome_now)
                });
                assert(self.store() =~= published(before, all, delivered_in(outcome@), now));
            }
        }
        proof {
            assert(list.take(list.len() as int) =~= list);
            assert(outcome@.dom() =~= all.dom());
        }
        outcome
    }

    /// The present reading of the clock of the store.
    pub fn now(&self) -> (now: u128) {
        self.cache.now()
    }

    /// Removes from the store every entry that is not live at `now` and
    /// returns how many entries it removed.
    pub fn sweep_at(&mut self, now: u128) -> (removed: usize)
        ensures
            final(self).store() == swept(old(self).store(), now, old(self).ttl()),
            removed == expired_keys(old(self).store(), now, old(self).ttl()).len(),
            final(self).ttl() == old(self).ttl(),
            final(self).backlogs() == old(self).backlogs(),
            final(self).node() == old(self).node(),
    {
        self.cache.clear_expired_at(now)
    }

    /// The first half of a cycle, at `now`: takes the result of listing the
    /// pending pool and returns the blobs to decode, by identifier. After a
    /// listing that failed there is nothing to decode and the store is
    /// untouched.
    pub fn begin_cycle_at(&mut self, listing: Result<Vec<String>, RequestError>, now: u128) -> (pending:
        StrMap<String>)
        ensures
            pending@ == pending_after(old(self).store(), listing, now, old(self).ttl()),
            final(self).store() == store_after_listing(
                old(self).store(),
                listing,
                now,
                old(self).ttl(),
            ),
            final(self).ttl() == old(self).ttl(),
            final(self).backlogs() == old(self).backlogs(),
            final(self).node() == old(self).node(),
    {
        match listing {
            Ok(tx_strings) => {
                let raw_txs = self.get_tx_hashes(tx_strings);
                self.retain_unseen_at(raw_txs, now)
            },
            Err(_) => StrMap::new(),
        }
    }

    /// The first half of a cycle, at the present reading of the clock.
    pub fn begin_cycle(&mut self, listing: Result<Vec<String>, RequestError>) -> (pending: StrMap<
        String,
    >)
        ensures
            exists|now: u128|
                pending@ == #[trigger] pending_after(
                    old(self).store(),
                    listing,
                    now,
                    old(self).ttl(),
                ) && final(self).store() == store_after_listing(
                    old(self).store(),
                    listing,
                    now,
                    old(self).ttl(),
                ),
            final(self).ttl() == old(self).ttl(),
            final(self).backlogs() == old(self).backlogs(),
            final(self).node() == old(self).node(),
    {
        let now = self.now();
        self.begin_cycle_at(listing, now)
    }

    /// The second half of a cycle, at `now`: takes what decoding the pending
    /// blobs gave, publishes each decoded transaction, remembers those that
    /// were delivered, and sweeps the store.
    pub fn finish_cycle_at(&mut self, items: Vec<Option<(String, Tx)>>, now: u128) -> (report:
        CycleReport)
        ensures
            report.outcome@.dom() == collected(items@).dom(),
            final(self).store() == store_after_cycle(
                old(self).store(),
                collected(items@),
                delivered_in(report.outcome@),
                now,
                old(self).ttl(),
            ),
            report.removed == expired_keys(
                published(old(self).store(), collected(items@), delivered_in(report.outcome@), now),
                now,
                old(self).ttl(),
            ).len(),
            old(self).subscriber_count() == 0 ==> delivered_in(report.outcome@) == Set::<
                Seq<char>,
            >::empty(),
            final(self).ttl() == old(self).ttl(),
            extended(old(self).backlogs(), final(self).backlogs()),
            final(self).node() == old(self).node(),
    {
        let txs = self.get_decoded_txs(items);
        let outcome = self.publish_at(txs, now);
        let removed = self.sweep_at(now);
        CycleReport { outcome, removed }
    }

    /// The second half of a cycle, at the present reading of the clock.
    pub fn finish_cycle(&mut self, items: Vec<Option<(String, Tx)>>) -> (report: CycleReport)
        ensures
            report.outcome@.dom() == collected(items@).dom(),
            exists|now: u128|
                final(self).store() == #[trigger] store_after_cycle(
                    old(self).store(),
                    collected(items@),
                    delivered_in(report.outcome@),
                    now,
                    old(self).ttl(),
                ),
            old(self).subscriber_count() == 0 ==> delivered_in(report.outcome@) == Set::<
                Seq<char>,
            >::empty(),
            final(self).ttl() == old(self).ttl(),
            extended(old(self).backlogs(), final(self).backlogs()),
            final(self).node() == old(self).node(),
    {
        let now = self.now();
        self.finish_cycle_at(items, now)
    }

    /// One step of the watcher at `now`: takes what came back from the work
    /// that it asked for and says what to do next.
    ///
    /// After a pause the pool is listed. A listing that succeeded is followed
    /// by the decoding of the blobs that are still to be surfaced; one that
    /// failed ends the cycle: the store is swept and the watcher pauses. What
    /// was decoded is published and remembered, the store is swept and the
    /// watcher pauses.
    pub fn step_at(&mut self, event: Event, now: u128) -> (action: Action)
        ensures
            steps_to(
                old(self).store(),
                old(self).ttl(),
                old(self).backlogs(),
                event,
                now,
                action,
                final(self).store(),
                final(self).backlogs(),
            ),
            final(self).ttl() == old(self).ttl(),
            final(self).node() == old(self).node(),
    {
        match event {
            Event::Woke => Action::List,
            Event::Listed(Ok(tx_strings)) => Action::Decode(self.begin_cycle_at(Ok(tx_strings), now)),
            Event::Listed(Err(_)) => {
                let removed = self.sweep_at(now);
                Action::Sleep(INTERVAL_SECS, CycleReport { outcome: StrMap::new(), removed })
            },
            Event::Decoded(items) => Action::Sleep(INTERVAL_SECS, self.finish_cycle_at(items, now)),
        }
    }

    /// One step of the watcher at the present reading of the clock.
    pub fn step(&mut self, event: Event) -> (action: Action)
        ensures
            exists|now: u128| #[trigger]
                steps_to(
                    old(self).store(),
                    old(self).ttl(),
                    old(self).backlogs(),
                    event,
                    now,
                    action,
                    final(self).store(),
                    final(self).backlogs(),
                ),
            final(self).ttl() == old(self).ttl(),
            final(self).node() == old(self).node(),
    {
        let now = self.now();
        self.step_at(event, now)
    }
}

/// An identifier stands in the listing's map exactly where some listed blob
/// has it, and the blob that stands under it has that identifier.
pub proof fn law_hashed_holds_the_listed_identifiers(blobs: Seq<String>, hash: Seq<char>)
    ensures
        hashed(blobs).contains_key(hash) <==> exists|i: int|
            0 <= i < blobs.len() && tx_hash_of(#[trigger] blobs[i]@) == Some(hash),
        hashed(blobs).contains_key(hash) ==> tx_hash_of(hashed(blobs)[hash]@) == Some(hash),
    decreases blobs.len(),
{
    if blobs.len() > 0 {
        let earlier = blobs.drop_last();
        law_hashed_holds_the_listed_identifiers(earlier, hash);
        if hashed(blobs).contains_key(hash) && tx_hash_of(blobs.last()@) != Some(hash) {
            let i = choose|i: int|
                0 <= i < earlier.len() && tx_hash_of(#[trigger] earlier[i]@) == Some(hash);
            assert(tx_hash_of(blobs[i]@) == Some(hash));
        }
        if exists|i: int| 0 <= i < blobs.len() && tx_hash_of(#[trigger] blobs[i]@) == Some(hash) {
            let i = choose|i: int|
                0 <= i < blobs.len() && tx_hash_of(#[trigger] blobs[i]@) == Some(hash);
            if i < earlier.len() {
                assert(tx_hash_of(earlier[i]@) == Some(hash));
            }
        }
    }
}

/// Where a blob is the last of the listed blobs with its identifier, it is
/// the one that stands under that identifier.
pub proof fn law_hashed_keeps_the_last_blob(blobs: Seq<String>, i: int, hash: Seq<char>)
    requires
        0 <= i < blobs.len(),
        tx_hash_of(blobs[i]@) == Some(hash),
        forall|j: int| i < j < blobs.len() ==> tx_hash_of(#[trigger] blobs[j]@) != Some(hash),
    ensures
        hashed(blobs).contains_key(hash),
        hashed(blobs)[hash] == blobs[i],
    decreases blobs.len(),
{
    if i < blobs.len() - 1 {
        let earlier = blobs.drop_last();
        assert(tx_hash_of(blobs[blobs.len() - 1]@) != Some(hash));
        assert forall|j: int| i < j < earlier.len() implies tx_hash_of(
            #[trigger] earlier[j]@,
        ) != Some(hash) by {
            assert(tx_hash_of(blobs[j]@) != Some(hash));
        }
        law_hashed_keeps_the_last_blob(earlier, i, hash);
    }
}

/// A key stands in the gathered map exactly where some item has it.
pub proof fn law_collected_holds_the_item_keys<V>(items: Seq<Option<(String, V)>>, key: Seq<char>)
    ensures
        collected(items).contains_key(key) <==> exists|i: int|
            0 <= i < items.len() && #[trigger] keyed(items[i], key),
    decreases items.len(),
{
    if items.len() > 0 {
        let earlier = items.drop_last();
        law_collected_holds_the_item_keys(earlier, key);
        if collected(items).contains_key(key) && !keyed(items.last(), key) {
            let i = choose|i: int| 0 <= i < earlier.len() && #[trigger] keyed(earlier[i], key);
            assert(keyed(items[i], key));
        }
        if exists|i: int| 0 <= i < items.len() && #[trigger] keyed(items[i], key) {
            let i = choose|i: int| 0 <= i < items.len() && #[trigger] keyed(items[i], key);
            if i < earlier.len() {
                assert(keyed(earlier[i], key));
            } else {
                assert(keyed(items.last(), key));
            }
        }
    }
}

/// Where an item is the last of the items with its key, its value is the one
/// that stands under that key.
pub proof fn law_collected_keeps_the_last_item<V>(items: Seq<Option<(String, V)>>, i: int)
    requires
        0 <= i < items.len(),
        items[i].is_some(),
        forall|j: int| i < j < items.len() ==> !#[trigger] keyed(items[j], items[i].unwrap().0@),
    ensures
        collected(items).contains_key(items[i].unwrap().0@),
        collected(items)[items[i].unwrap().0@] == items[i].unwrap().1,
    decreases items.len(),
{
    if i < items.len() - 1 {
        let earlier = items.drop_last();
        assert(!keyed(items[items.len() - 1], items[i].unwrap().0@));
        assert forall|j: int| i < j < earlier.len() implies !#[trigger] keyed(
            earlier[j],
            earlier[i].unwrap().0@,
        ) by {
            assert(!keyed(items[j], items[i].unwrap().0@));
        }
        law_collected_keeps_the_last_item(earlier, i);
    }
}

/// After a listing that failed nothing is decoded or published, and the
/// store is as it was.
pub proof fn law_failed_listing_skips_the_cycle(
    cache: Map<Seq<char>, Stamped>,
    listing: Result<Vec<String>, RequestError>,
    now: u128,
    ttl_seconds: u64,
)
    requires
        listing.is_err(),
    ensures
        pending_after(cache, listing, now, ttl_seconds) == Map::<Seq<char>, String>::empty(),
        store_after_listing(cache, listing, now, ttl_seconds) == cache,
{
}

/// What was surfaced in one cycle is not surfaced again in the next.
///
/// The first cycle lists `blobs` at `listed`, every blob that it selects is
/// decoded (`txs`), every transaction is delivered at `sent`, and the store
/// is swept at `swept_at`. Where the same blobs are listed again at `next`,
/// less than the time to live after the first listing, and no entry that was
/// live under one of their identifiers at the first listing has expired by
/// then, there is nothing to decode or publish in the second cycle.
pub proof fn law_surfaced_transactions_are_not_repeated(
    cache: Map<Seq<char>, Stamped>,
    blobs: Seq<String>,
    txs: Map<Seq<char>, Tx>,
    listed: u128,
    sent: u128,
    swept_at: u128,
    next: u128,
    ttl_seconds: u64,
)
    requires
        listed <= sent <= swept_at <= next,
        live(listed, next, ttl_seconds),
        txs.dom() == unseen(cache, hashed(blobs), listed, ttl_seconds).dom(),
        forall|hash: Seq<char>|
            hashed(blobs).contains_key(hash) && cache.contains_key(hash) && live(
                cache[hash].at,
                listed,
                ttl_seconds,
            ) ==> live(#[trigger] cache[hash].at, next, ttl_seconds),
    ensures
        ({
            let filtered = after_lookups(cache, hashed(blobs).dom(), listed, ttl_seconds);
            let surfaced = published(filtered, txs, txs.dom(), sent);
            let kept = swept(surfaced, swept_at, ttl_seconds);
            unseen(kept, hashed(blobs), next, ttl_seconds) == Map::<Seq<char>, String>::empty()
        }),
{
    let raw = hashed(blobs);
    let filtered = after_lookups(cache, raw.dom(), listed, ttl_seconds);
    let surfaced = published(filtered, txs, txs.dom(), sent);
    let kept = swept(surfaced, swept_at, ttl_seconds);
    assert forall|hash: Seq<char>| raw.contains_key(hash) implies lookup(
        kept,
        hash,
        next,
        ttl_seconds,
    ).is_some() by {
        if txs.contains_key(hash) {
            // Stamped at `sent`: younger at `next` than the first listing is.
            law_age_is_monotonic(sent, swept_at, next);
            assert(age_secs(sent, next) <= age_secs(listed, next));
            assert(kept.contains_key(hash) && kept[hash].at == sent);
        } else {
            // Filtered in the first cycle: live then, and still live at `next`.
            law_age_is_monotonic(cache[hash].at, swept_at, next);
            assert(kept.contains_key(hash) && kept[hash] == cache[hash]);
        }
    }
    assert(unseen(kept, raw, next, ttl_seconds) =~= Map::<Seq<char>, String>::empty());
}

/// What was selected in a cycle and not delivered is tried again in the next.
///
/// The first cycle lists `blobs` at `listed` and selects the identifier
/// `hash`; its transaction either is not decoded (it is not among `txs`) or
/// is not delivered (it is not in `delivered`). Then, whatever became of the
/// other transactions, the store holds no entry under `hash` at the end of
/// the cycle, and a cycle that lists the same blobs at any later time selects
/// `hash` again, with the same blob.
pub proof fn law_undelivered_transactions_are_retried(
    cache: Map<Seq<char>, Stamped>,
    blobs: Seq<String>,
    txs: Map<Seq<char>, Tx>,
    delivered: Set<Seq<char>>,
    hash: Seq<char>,
    listed: u128,
    sent: u128,
    swept_at: u128,
    next: u128,
    ttl_seconds: u64,
)
    requires
        unseen(cache, hashed(blobs), listed, ttl_seconds).contains_key(hash),
        !(txs.contains_key(hash) && delivered.contains(hash)),
    ensures
        ({
            let filtered = after_lookups(cache, hashed(blobs).dom(), listed, ttl_seconds);
            let surfaced = published(filtered, txs, delivered, sent);
            let kept = swept(surfaced, swept_at, ttl_seconds);
            let again = unseen(kept, hashed(blobs), next, ttl_seconds);
            &&& !surfaced.contains_key(hash)
            &&& !kept.contains_key(hash)
            &&& lookup(kept, hash, next, ttl_seconds).is_none()
            &&& again.contains_key(hash)
            &&& again[hash] == hashed(blobs)[hash]
        }),
{
}

/// A cycle changes the store only under the identifiers that it selected:
/// an entry under any other identifier leaves the store only by expiring.
pub proof fn law_cycle_keeps_the_live_entries(
    cache: Map<Seq<char>, Stamped>,
    blobs: Seq<String>,
    txs: Map<Seq<char>, Tx>,
    delivered: Set<Seq<char>>,
    hash: Seq<char>,
    listed: u128,
    sent: u128,
    swept_at: u128,
    ttl_seconds: u64,
)
    requires
        listed <= swept_at,
        cache.contains_key(hash),
        live(cache[hash].at, swept_at, ttl_seconds),
        !(txs.contains_key(hash) && delivered.contains(hash)),
    ensures
        ({
            let filtered = after_lookups(cache, hashed(blobs).dom(), listed, ttl_seconds);
            let surfaced = published(filtered, txs, delivered, sent);
            let kept = swept(surfaced, swept_at, ttl_seconds);
            kept.contains_key(hash) && kept[hash] == cache[hash]
        }),
{
    law_age_is_monotonic(cache[hash].at, listed, swept_at);
}

} // verus!
