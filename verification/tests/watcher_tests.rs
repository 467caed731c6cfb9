use mempool_watcher::cache::NANOS_PER_SEC;
use mempool_watcher::errors::RequestError;
use mempool_watcher::tx::{Fee, Tx};
use mempool_watcher::watcher::{Action, Event, INTERVAL_SECS, TTL_SECS};
use mempool_watcher::Watcher;

const B1: &str = "dHgtb25l";
const H1: &str = "81BEAD00720F68C81DB776CB728A19AE6EB1670B24F0343354C7D1C507AD336A";
const B2: &str = "dHgtdHdv";
const H2: &str = "B45B8C135A6AA07FB2039F6C3FD21FA4C548CCDE6FA2AAB3477516BDC8C8EBDD";

fn tx_with_memo(memo: &str) -> Tx {
    Tx {
        msg: vec![],
        fee: Fee { amount: vec![], gas: String::new() },
        signatures: vec![],
        memo: memo.to_string(),
        timeout_height: String::new(),
    }
}

fn watcher() -> Watcher {
    Watcher::new("http://rpc".to_string(), "http://lcd".to_string())
}

fn blobs(list: &[&str]) -> Vec<String> {
    list.iter().map(|blob| blob.to_string()).collect()
}

fn failed_listing() -> Result<Vec<String>, RequestError> {
    let error = serde_json::from_str::<serde_json::Value>("{").unwrap_err();
    Err(RequestError::from(error))
}

fn sorted_entries<V: Ord>(map: mempool_watcher::strmap::StrMap<V>) -> Vec<(String, V)> {
    let mut entries = map.into_entries();
    entries.sort();
    entries
}

#[test]
fn new_watcher_has_an_empty_store_and_the_given_node() {
    let watcher = watcher();
    assert_eq!(watcher.cache().len(), 0);
    assert_eq!(watcher.cache().ttl_seconds(), 30);
    assert_eq!(TTL_SECS, 30);
    assert_eq!(INTERVAL_SECS, 1);
    assert_eq!(watcher.terra().decode_tx_url(), "http://lcd/txs/decode");
    assert_eq!(
        watcher.terra().unconfirmed_txs_url(),
        "http://rpc/unconfirmed_txs?limit=1000000000000"
    );
}

#[test]
fn identifiers_are_computed_for_each_blob() {
    let raw = watcher().get_tx_hashes(blobs(&[B1, B2]));
    assert_eq!(
        sorted_entries(raw),
        vec![(H1.to_string(), B1.to_string()), (H2.to_string(), B2.to_string())]
    );
}

#[test]
fn blob_without_identifier_is_dropped() {
    let raw = watcher().get_tx_hashes(blobs(&["not base64!", B2, "a"]));
    assert_eq!(sorted_entries(raw), vec![(H2.to_string(), B2.to_string())]);
}

#[test]
fn repeated_blob_is_listed_once() {
    let raw = watcher().get_tx_hashes(blobs(&[B1, B2, B1]));
    assert_eq!(raw.len(), 2);
    assert_eq!(raw.get(H1), Some(&B1.to_string()));
}

#[test]
fn no_blobs_give_no_identifiers() {
    assert!(watcher().get_tx_hashes(vec![]).is_empty());
}

#[test]
fn decoded_transactions_are_gathered_by_identifier() {
    let txs = watcher().get_decoded_txs(vec![
        Some((H1.to_string(), tx_with_memo("one"))),
        None,
        Some((H2.to_string(), tx_with_memo("two"))),
    ]);
    assert_eq!(txs.len(), 2);
    assert_eq!(txs.get(H1), Some(&tx_with_memo("one")));
    assert_eq!(txs.get(H2), Some(&tx_with_memo("two")));
}

#[test]
fn later_decoded_transaction_replaces_an_earlier_one() {
    let txs = watcher().get_decoded_txs(vec![
        Some((H1.to_string(), tx_with_memo("first"))),
        Some((H1.to_string(), tx_with_memo("second"))),
    ]);
    assert_eq!(txs.len(), 1);
    assert_eq!(txs.get(H1), Some(&tx_with_memo("second")));
}

#[test]
fn record_remembers_only_what_was_accepted() {
    let mut watcher = watcher();
    assert!(!watcher.record_at(H1.to_string(), tx_with_memo("one"), 0, 5));
    assert!(!watcher.cache().contains_key(H1));
    assert!(watcher.record_at(H1.to_string(), tx_with_memo("one"), 1, 5));
    assert_eq!(watcher.cache().peek(H1), Some(&tx_with_memo("one")));
    assert!(watcher.record_at(H2.to_string(), tx_with_memo("two"), 3, 5));
    assert_eq!(watcher.cache().len(), 2);
}

#[test]
fn retain_unseen_drops_what_is_live_and_purges_what_expired() {
    let mut watcher = watcher();
    watcher.record_at(H1.to_string(), tx_with_memo("one"), 1, 0);
    watcher.record_at(H2.to_string(), tx_with_memo("two"), 1, 20 * NANOS_PER_SEC);
    watcher.record_at("other".to_string(), tx_with_memo("three"), 1, 0);
    let raw = watcher.get_tx_hashes(blobs(&[B1, B2]));
    let pending = watcher.retain_unseen_at(raw, 35 * NANOS_PER_SEC);
    assert_eq!(sorted_entries(pending), vec![(H1.to_string(), B1.to_string())]);
    assert!(!watcher.cache().contains_key(H1));
    assert!(watcher.cache().contains_key(H2));
    assert!(watcher.cache().contains_key("other"));
}

#[test]
fn sweep_removes_what_expired_without_a_lookup() {
    let mut watcher = watcher();
    watcher.record_at(H1.to_string(), tx_with_memo("one"), 1, 0);
    watcher.record_at(H2.to_string(), tx_with_memo("two"), 1, 20 * NANOS_PER_SEC);
    assert_eq!(watcher.sweep_at(29 * NANOS_PER_SEC), 0);
    assert_eq!(watcher.sweep_at(30 * NANOS_PER_SEC), 1);
    assert!(!watcher.cache().contains_key(H1));
    assert!(watcher.cache().contains_key(H2));
    assert_eq!(watcher.sweep_at(30 * NANOS_PER_SEC), 0);
}

#[test]
fn unchanged_pool_is_not_surfaced_twice() {
    let mut watcher = watcher();
    let mut receiver = watcher.subscribe();
    let pending = watcher.begin_cycle_at(Ok(blobs(&[B1, B2])), 0);
    assert_eq!(pending.len(), 2);
    let report = watcher.finish_cycle_at(
        vec![
            Some((H1.to_string(), tx_with_memo("one"))),
            Some((H2.to_string(), tx_with_memo("two"))),
        ],
        0,
    );
    assert_eq!(report.outcome.get(H1), Some(&true));
    assert_eq!(report.outcome.get(H2), Some(&true));
    assert!(receiver.try_recv().is_ok());
    assert!(receiver.try_recv().is_ok());

    let pending = watcher.begin_cycle_at(Ok(blobs(&[B1, B2])), NANOS_PER_SEC);
    assert!(pending.is_empty());
    let report = watcher.finish_cycle_at(vec![], NANOS_PER_SEC);
    assert!(report.outcome.is_empty());
    assert!(receiver.try_recv().is_err());
}

#[test]
fn undelivered_transaction_is_not_remembered_and_is_retried() {
    let mut watcher = watcher();
    let pending = watcher.begin_cycle_at(Ok(blobs(&[B1])), 0);
    assert_eq!(sorted_entries(pending), vec![(H1.to_string(), B1.to_string())]);
    let report = watcher.finish_cycle_at(vec![Some((H1.to_string(), tx_with_memo("one")))], 0);
    assert_eq!(report.outcome.get(H1), Some(&false));
    assert!(!watcher.cache().contains_key(H1));

    let pending = watcher.begin_cycle_at(Ok(blobs(&[B1])), NANOS_PER_SEC);
    assert_eq!(sorted_entries(pending), vec![(H1.to_string(), B1.to_string())]);
    let mut receiver = watcher.subscribe();
    let report = watcher.finish_cycle_at(
        vec![Some((H1.to_string(), tx_with_memo("one")))],
        NANOS_PER_SEC,
    );
    assert_eq!(report.outcome.get(H1), Some(&true));
    assert_eq!(receiver.try_recv().unwrap(), tx_with_memo("one"));
    assert!(watcher.cache().contains_key(H1));
}

#[test]
fn transaction_sent_to_a_closed_subscriber_is_retried() {
    let mut watcher = watcher();
    let receiver = watcher.subscribe();
    drop(receiver);
    watcher.begin_cycle_at(Ok(blobs(&[B1])), 0);
    let report = watcher.finish_cycle_at(vec![Some((H1.to_string(), tx_with_memo("one")))], 0);
    assert_eq!(report.outcome.get(H1), Some(&false));
    assert!(!watcher.cache().contains_key(H1));
    let pending = watcher.begin_cycle_at(Ok(blobs(&[B1])), 2 * NANOS_PER_SEC);
    assert!(pending.contains_key(H1));
}

#[test]
fn surfaced_transaction_is_filtered_until_it_expires() {
    let mut watcher = watcher();
    let mut receiver = watcher.subscribe();
    let pending = watcher.begin_cycle_at(Ok(blobs(&[B1])), 0);
    assert_eq!(sorted_entries(pending), vec![(H1.to_string(), B1.to_string())]);
    let report = watcher.finish_cycle_at(vec![Some((H1.to_string(), tx_with_memo("one")))], 0);
    assert_eq!(report.outcome.get(H1), Some(&true));
    assert_eq!(report.removed, 0);
    assert_eq!(receiver.try_recv().unwrap(), tx_with_memo("one"));
    assert!(watcher.cache().contains_key(H1));

    let pending = watcher.begin_cycle_at(Ok(blobs(&[B1])), 2 * NANOS_PER_SEC);
    assert!(pending.is_empty());
    let report = watcher.finish_cycle_at(vec![], 2 * NANOS_PER_SEC);
    assert!(report.outcome.is_empty());
    assert!(receiver.try_recv().is_err());
    assert!(watcher.cache().contains_key(H1));

    let pending = watcher.begin_cycle_at(Ok(blobs(&[B1])), 31 * NANOS_PER_SEC);
    assert_eq!(sorted_entries(pending), vec![(H1.to_string(), B1.to_string())]);
    assert!(!watcher.cache().contains_key(H1));
}

#[test]
fn failed_listing_skips_the_cycle() {
    let mut watcher = watcher();
    let mut receiver = watcher.subscribe();
    watcher.begin_cycle_at(Ok(blobs(&[B1])), 0);
    watcher.finish_cycle_at(vec![Some((H1.to_string(), tx_with_memo("one")))], 0);
    assert!(receiver.try_recv().is_ok());

    let pending = watcher.begin_cycle_at(failed_listing(), 2 * NANOS_PER_SEC);
    assert!(pending.is_empty());
    let report = watcher.finish_cycle_at(vec![], 2 * NANOS_PER_SEC);
    assert!(report.outcome.is_empty());
    assert_eq!(report.removed, 0);
    assert!(receiver.try_recv().is_err());
    assert!(watcher.cache().contains_key(H1));

    let pending = watcher.begin_cycle_at(Ok(blobs(&[B1, B2])), 3 * NANOS_PER_SEC);
    assert_eq!(sorted_entries(pending), vec![(H2.to_string(), B2.to_string())]);
}

#[test]
fn failed_listing_leaves_expired_entries_to_the_sweep() {
    let mut watcher = watcher();
    watcher.record_at(H1.to_string(), tx_with_memo("one"), 1, 0);
    let pending = watcher.begin_cycle_at(failed_listing(), 40 * NANOS_PER_SEC);
    assert!(pending.is_empty());
    assert!(watcher.cache().contains_key(H1));
    let report = watcher.finish_cycle_at(vec![], 40 * NANOS_PER_SEC);
    assert_eq!(report.removed, 1);
    assert!(!watcher.cache().contains_key(H1));
}

#[test]
fn failed_decode_drops_only_that_transaction() {
    let mut watcher = watcher();
    let mut receiver = watcher.subscribe();
    let pending = watcher.begin_cycle_at(Ok(blobs(&[B1, B2])), 0);
    assert_eq!(pending.len(), 2);
    let report =
        watcher.finish_cycle_at(vec![Some((H1.to_string(), tx_with_memo("one"))), None], 0);
    assert_eq!(report.outcome.len(), 1);
    assert_eq!(report.outcome.get(H1), Some(&true));
    assert_eq!(receiver.try_recv().unwrap(), tx_with_memo("one"));
    assert!(receiver.try_recv().is_err());
    assert!(watcher.cache().contains_key(H1));
    assert!(!watcher.cache().contains_key(H2));

    let pending = watcher.begin_cycle_at(Ok(blobs(&[B1, B2])), NANOS_PER_SEC);
    assert_eq!(sorted_entries(pending), vec![(H2.to_string(), B2.to_string())]);
}

#[test]
fn cycle_with_the_clock_surfaces_once() {
    let mut watcher = watcher();
    let mut receiver = watcher.subscribe();
    let pending = watcher.begin_cycle(Ok(blobs(&[B1])));
    assert_eq!(sorted_entries(pending), vec![(H1.to_string(), B1.to_string())]);
    let report = watcher.finish_cycle(vec![Some((H1.to_string(), tx_with_memo("one")))]);
    assert_eq!(report.outcome.get(H1), Some(&true));
    assert_eq!(receiver.try_recv().unwrap(), tx_with_memo("one"));
    let pending = watcher.begin_cycle(Ok(blobs(&[B1])));
    assert!(pending.is_empty());
    assert!(watcher.now() <= watcher.now());
}

#[test]
fn every_subscriber_attached_before_a_publish_receives_it() {
    let mut watcher = watcher();
    let mut first = watcher.subscribe();
    let mut second = watcher.subscribe();
    watcher.begin_cycle_at(Ok(blobs(&[B1])), 0);
    watcher.finish_cycle_at(vec![Some((H1.to_string(), tx_with_memo("one")))], 0);
    let mut late = watcher.subscribe();
    assert_eq!(first.try_recv().unwrap(), tx_with_memo("one"));
    assert_eq!(second.try_recv().unwrap(), tx_with_memo("one"));
    assert!(late.try_recv().is_err());

    watcher.begin_cycle_at(Ok(blobs(&[B2])), NANOS_PER_SEC);
    watcher.finish_cycle_at(vec![Some((H2.to_string(), tx_with_memo("two")))], NANOS_PER_SEC);
    assert_eq!(late.try_recv().unwrap(), tx_with_memo("two"));
    assert_eq!(second.try_recv().unwrap(), tx_with_memo("two"));
    assert_eq!(first.try_recv().unwrap(), tx_with_memo("two"));
    assert!(first.try_recv().is_err());
}

#[test]
fn step_after_a_pause_asks_for_a_listing() {
    let mut watcher = watcher();
    assert!(matches!(watcher.step_at(Event::Woke, 0), Action::List));
    assert!(matches!(watcher.step(Event::Woke), Action::List));
    assert_eq!(watcher.cache().len(), 0);
}

#[test]
fn step_after_a_listing_asks_to_decode_what_is_new() {
    let mut watcher = watcher();
    watcher.record_at(H1.to_string(), tx_with_memo("one"), 1, 0);
    match watcher.step_at(Event::Listed(Ok(blobs(&[B1, B2]))), NANOS_PER_SEC) {
        Action::Decode(pending) => {
            assert_eq!(sorted_entries(pending), vec![(H2.to_string(), B2.to_string())]);
        }
        other => panic!("expected a request to decode, got {:?}", other),
    }
}

#[test]
fn step_after_an_empty_listing_asks_to_decode_nothing() {
    let mut watcher = watcher();
    match watcher.step_at(Event::Listed(Ok(vec![])), 0) {
        Action::Decode(pending) => assert!(pending.is_empty()),
        other => panic!("expected a request to decode, got {:?}", other),
    }
}

#[test]
fn step_after_a_failed_listing_sweeps_and_pauses() {
    let mut watcher = watcher();
    watcher.record_at(H1.to_string(), tx_with_memo("one"), 1, 0);
    watcher.record_at(H2.to_string(), tx_with_memo("two"), 1, 20 * NANOS_PER_SEC);
    match watcher.step_at(Event::Listed(failed_listing()), 31 * NANOS_PER_SEC) {
        Action::Sleep(secs, report) => {
            assert_eq!(secs, 1);
            assert!(report.outcome.is_empty());
            assert_eq!(report.removed, 1);
        }
        other => panic!("expected a pause, got {:?}", other),
    }
    assert!(!watcher.cache().contains_key(H1));
    assert!(watcher.cache().contains_key(H2));
}

#[test]
fn step_after_decoding_publishes_remembers_and_pauses() {
    let mut watcher = watcher();
    let mut receiver = watcher.subscribe();
    let decoded = vec![Some((H1.to_string(), tx_with_memo("one"))), None];
    match watcher.step_at(Event::Decoded(decoded), 0) {
        Action::Sleep(secs, report) => {
            assert_eq!(secs, 1);
            assert_eq!(report.outcome.len(), 1);
            assert_eq!(report.outcome.get(H1), Some(&true));
            assert_eq!(report.removed, 0);
        }
        other => panic!("expected a pause, got {:?}", other),
    }
    assert_eq!(receiver.try_recv().unwrap(), tx_with_memo("one"));
    assert_eq!(watcher.cache().peek(H1), Some(&tx_with_memo("one")));
}

#[test]
fn steps_run_a_whole_cycle_with_the_clock() {
    let mut watcher = watcher();
    let mut receiver = watcher.subscribe();
    assert!(matches!(watcher.step(Event::Woke), Action::List));
    let pending = match watcher.step(Event::Listed(Ok(blobs(&[B1])))) {
        Action::Decode(pending) => pending,
        other => panic!("expected a request to decode, got {:?}", other),
    };
    let decoded = pending
        .into_entries()
        .into_iter()
        .map(|(tx_hash, _)| Some((tx_hash, tx_with_memo("one"))))
        .collect();
    assert!(matches!(watcher.step(Event::Decoded(decoded)), Action::Sleep(1, _)));
    assert_eq!(receiver.try_recv().unwrap(), tx_with_memo("one"));
    match watcher.step(Event::Listed(Ok(blobs(&[B1])))) {
        Action::Decode(pending) => assert!(pending.is_empty()),
        other => panic!("expected a request to decode, got {:?}", other),
    }
    assert!(matches!(watcher.step(Event::Listed(failed_listing())), Action::Sleep(1, _)));
    assert!(watcher.cache().contains_key(H1));
}

#[test]
fn publish_one_without_subscribers_is_not_delivered() {
    let mut watcher = watcher();
    assert!(!watcher.publish_one_at(H1.to_string(), tx_with_memo("one"), 0));
    assert!(!watcher.cache().contains_key(H1));
}

#[test]
fn publish_one_is_delivered_and_remembered() {
    let mut watcher = watcher();
    let mut receiver = watcher.subscribe();
    assert!(watcher.publish_one_at(H1.to_string(), tx_with_memo("one"), 3));
    assert_eq!(receiver.try_recv().unwrap(), tx_with_memo("one"));
    assert_eq!(watcher.cache().peek(H1), Some(&tx_with_memo("one")));
    assert!(watcher.cache().status_at(H1, 3 + 30 * NANOS_PER_SEC - 1) == mempool_watcher::cache::Status::Found);
    assert!(watcher.cache().status_at(H1, 3 + 30 * NANOS_PER_SEC) == mempool_watcher::cache::Status::Expired);
}

#[test]
fn publish_one_counts_as_delivered_when_one_of_two_subscribers_is_left() {
    let mut watcher = watcher();
    let gone = watcher.subscribe();
    let mut here = watcher.subscribe();
    drop(gone);
    assert!(watcher.publish_one_at(H1.to_string(), tx_with_memo("one"), 0));
    assert_eq!(here.try_recv().unwrap(), tx_with_memo("one"));
    assert!(watcher.cache().contains_key(H1));
}

#[test]
fn watcher_can_be_written_out_for_debugging() {
    let mut watcher = watcher();
    let receiver = watcher.subscribe();
    let text = format!("{:?}", watcher);
    assert!(text.contains("Watcher"));
    assert!(text.contains("http://rpc"));
    drop(receiver);
}

#[test]
fn transactions_are_published_in_the_order_in_which_they_were_decoded() {
    let mut watcher = watcher();
    let mut receiver = watcher.subscribe();
    watcher.finish_cycle_at(
        vec![
            Some((H2.to_string(), tx_with_memo("two"))),
            Some((H1.to_string(), tx_with_memo("one"))),
            Some(("H3".to_string(), tx_with_memo("three"))),
        ],
        0,
    );
    assert_eq!(receiver.try_recv().unwrap(), tx_with_memo("two"));
    assert_eq!(receiver.try_recv().unwrap(), tx_with_memo("one"));
    assert_eq!(receiver.try_recv().unwrap(), tx_with_memo("three"));
    assert!(receiver.try_recv().is_err());
}
