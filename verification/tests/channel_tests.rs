use mempool_watcher::channel::Subscribers;
use mempool_watcher::tx::{Coin, Fee, Msg, PubKey, Signature, Tx};

fn full_tx() -> Tx {
    Tx {
        msg: vec![Msg {
            type_: "bank/MsgSend".to_string(),
            value: serde_json::Value::String("payload".to_string()),
        }],
        fee: Fee {
            amount: vec![Coin { denom: "uluna".to_string(), amount: "15".to_string() }],
            gas: "200000".to_string(),
        },
        signatures: vec![Signature {
            pub_key: PubKey { type_: "secp256k1".to_string(), value: "A1".to_string() },
            signature: "c2ln".to_string(),
        }],
        memo: "memo".to_string(),
        timeout_height: "0".to_string(),
    }
}

#[test]
fn publish_without_subscribers_reaches_nobody() {
    let mut subscribers = Subscribers::new();
    assert_eq!(subscribers.len(), 0);
    assert_eq!(subscribers.publish(&full_tx()), 0);
}

#[test]
fn publish_reaches_each_subscriber_with_its_own_copy() {
    let mut subscribers = Subscribers::new();
    let mut first = subscribers.subscribe();
    let mut second = subscribers.subscribe();
    assert_eq!(subscribers.len(), 2);
    assert_eq!(subscribers.publish(&full_tx()), 2);
    assert_eq!(first.try_recv().unwrap(), full_tx());
    assert_eq!(second.try_recv().unwrap(), full_tx());
    assert!(first.try_recv().is_err());
    assert!(second.try_recv().is_err());
}

#[test]
fn subscriber_attached_after_a_publish_misses_it() {
    let mut subscribers = Subscribers::new();
    let mut early = subscribers.subscribe();
    assert_eq!(subscribers.publish(&full_tx()), 1);
    let mut late = subscribers.subscribe();
    assert_eq!(early.try_recv().unwrap(), full_tx());
    assert!(late.try_recv().is_err());
}

#[test]
fn closed_subscriber_is_not_counted() {
    let mut subscribers = Subscribers::new();
    let gone = subscribers.subscribe();
    let mut here = subscribers.subscribe();
    drop(gone);
    assert_eq!(subscribers.publish(&full_tx()), 1);
    assert_eq!(here.try_recv().unwrap(), full_tx());
}

#[test]
fn slow_subscriber_keeps_its_backlog_in_order() {
    let mut subscribers = Subscribers::new();
    let mut slow = subscribers.subscribe();
    let mut fast = subscribers.subscribe();
    let mut first = full_tx();
    first.memo = "first".to_string();
    let mut second = full_tx();
    second.memo = "second".to_string();
    subscribers.publish(&first);
    assert_eq!(fast.try_recv().unwrap(), first);
    subscribers.publish(&second);
    assert_eq!(fast.try_recv().unwrap(), second);
    assert_eq!(slow.try_recv().unwrap(), first);
    assert_eq!(slow.try_recv().unwrap(), second);
}
