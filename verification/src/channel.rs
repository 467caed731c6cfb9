//! The subscribers of the watcher and the delivery of a transaction to them.
//!
//! Each subscriber has a channel of its own with an unbounded backlog, so
//! that none waits for another. A subscriber receives what is published
//! after it was attached, and nothing from before.
//!
//! What each subscriber's channel has accepted is kept as a ghost record,
//! the subscriber's backlog, so that the contracts can say who was offered
//! what.

use crate::tx::Tx;
use tokio::sync::mpsc::{UnboundedReceiver, UnboundedSender};
use vstd::prelude::*;

verus! {

/// The sending half of an unbounded channel of `tokio`.
#[verifier::external_type_specification]
#[verifier::external_body]
#[verifier::reject_recursive_types(T)]
pub struct ExUnboundedSender<T>(UnboundedSender<T>);

/// The receiving half of an unbounded channel of `tokio`.
#[verifier::external_type_specification]
#[verifier::external_body]
#[verifier::reject_recursive_types(T)]
pub struct ExUnboundedReceiver<T>(UnboundedReceiver<T>);

/// The formatter of the standard library.
#[verifier::external_type_specification]
#[verifier::external_body]
pub struct ExFormatter<'a>(core::fmt::Formatter<'a>);

/// The failure of a formatter of the standard library.
#[verifier::external_type_specification]
#[verifier::external_body]
pub struct ExFmtError(core::fmt::Error);

/// A new channel for transactions.
///
/// Trusted: `unbounded_channel` of `tokio`. Nothing is claimed of the two halves.
#[verifier::external_body]
fn open_channel() -> (halves: (UnboundedSender<Tx>, UnboundedReceiver<Tx>)) {
    tokio::sync::mpsc::unbounded_channel()
}

/// Sends `tx` into a channel and hands it back where the channel refused it.
///
/// Trusted: `UnboundedSender::send` of `tokio`, which never waits. It refuses
/// a message when the receiving half was closed or dropped, and the error
/// that it returns holds the message that was passed in. Whether it accepts
/// depends on the receiver, so nothing is claimed of that.
#[verifier::external_body]
fn send_to(sender: &UnboundedSender<Tx>, tx: Tx) -> (refused: Option<Tx>)
    ensures
        refused matches Some(back) ==> back == tx,
{
    match sender.send(tx) {
        Ok(()) => None,
        Err(err) => Some(err.0),
    }
}

/// The backlog `after` is the backlog `before`, or `before` with a copy of
/// `tx` at its end.
pub open spec fn offered(before: Seq<Tx>, after: Seq<Tx>, tx: Tx) -> bool {
    after == before || (after.len() == before.len() + 1 && after.drop_last() == before && cloned(
        tx,
        after.last(),
    ))
}

/// Every backlog of `before` was offered `tx`, and `after` is what came of it.
pub open spec fn offered_to_all(before: Seq<Seq<Tx>>, after: Seq<Seq<Tx>>, tx: Tx) -> bool {
    &&& after.len() == before.len()
    &&& forall|i: int| 0 <= i < before.len() ==> offered(before[i], #[trigger] after[i], tx)
}

/// The backlogs `after` are those of `before`, each with what it held and
/// possibly more at its end.
pub open spec fn extended(before: Seq<Seq<Tx>>, after: Seq<Seq<Tx>>) -> bool {
    &&& after.len() == before.len()
    &&& forall|i: int| 0 <= i < before.len() ==> before[i].is_prefix_of(#[trigger] after[i])
}

/// How many of the backlogs in `after` are longer than they are in `before`.
pub open spec fn grown(before: Seq<Seq<Tx>>, after: Seq<Seq<Tx>>) -> nat
    decreases before.len(),
{
    if before.len() == 0 || after.len() != before.len() {
        0
    } else {
        grown(before.drop_last(), after.drop_last()) + if after.last().len() > before.last().len() {
            1nat
        } else {
            0nat
        }
    }
}

/// The subscribers attached to a watcher, in the order in which they were
/// attached.
pub struct Subscribers {
    senders: Vec<UnboundedSender<Tx>>,
    accepted: Ghost<Seq<Seq<Tx>>>,
}

impl core::fmt::Debug for Subscribers {
    /// Writes the sending halves of the subscribers' channels.
    ///
    /// Trusted: the `Debug` impl of `Vec`. Nothing is claimed of what is written.
    #[verifier::external_body]
    fn fmt(&self, f: &mut core::fmt::Formatter<'_>) -> (done: core::fmt::Result) {
        self.senders.fmt(f)
    }
}

impl Subscribers {
    #[verifier::type_invariant]
    spec fn one_backlog_each(&self) -> bool {
        self.accepted@.len() == self.senders@.len()
    }

    /// For each subscriber, the transactions that its channel has accepted
    /// since it was attached, in the order in which they were published.
    pub closed spec fn backlogs(&self) -> Seq<Seq<Tx>> {
        self.accepted@
    }

    /// The number of subscribers attached so far.
    pub open spec fn count(&self) -> nat {
        self.backlogs().len()
    }

    /// No subscriber.
    pub fn new() -> (subscribers: Subscribers)
        ensures
            subscribers.backlogs() == Seq::<Seq<Tx>>::empty(),
    {
        Subscribers { senders: Vec::new(), accepted: Ghost(Seq::empty()) }
    }

    /// The number of subscribers attached so far.
    pub fn len(&self) -> (n: usize)
        ensures
            n == self.count(),
    {
        proof {
            use_type_invariant(self);
        }
        self.senders.len()
    }

    /// Attaches a subscriber and returns the handle from which it reads what
    /// is published from now on. Its backlog starts empty: it holds nothing
    /// of what was published before.
    pub fn subscribe(&mut self) -> (receiver: UnboundedReceiver<Tx>)
        ensures
            final(self).backlogs() == old(self).backlogs().push(Seq::empty()),
    {
        let (sender, receiver) = open_channel();
        let mut taken = Subscribers::new();
        std::mem::swap(self, &mut taken);
        proof {
            use_type_invariant(&taken);
        }
        let Subscribers { mut senders, accepted } = taken;
        senders.push(sender);
        *self = Subscribers { senders, accepted: Ghost(accepted@.push(Seq::empty())) };
        receiver
    }

    /// Offers a copy of `tx` to every subscriber and returns how many of
    /// them accepted it. The backlog of each subscriber that accepted grows
    /// by the copy; the others stay as they were.
    pub fn publish(&mut self, tx: &Tx) -> (accepted: usize)
        ensures
            offered_to_all(old(self).backlogs(), final(self).backlogs(), *tx),
            accepted == grown(old(self).backlogs(), final(self).backlogs()),
            accepted <= old(self).count(),
    {
        let mut taken = Subscribers::new();
        std::mem::swap(self, &mut taken);
        proof {
            use_type_invariant(&taken);
        }
        let Subscribers { senders, accepted: record } = taken;
        let ghost before = record@;
        let ghost mut backlogs = record@;
        let mut accepted: usize = 0;
        let mut i: usize = 0;
        while i < senders.len()
            invariant
                i <= senders.len(),
                before.len() == senders.len(),
                backlogs.len() == before.len(),
                forall|j: int| 0 <= j < i ==> offered(before[j], #[trigger] backlogs[j], *tx),
                forall|j: int| i <= j < before.len() ==> backlogs[j] == before[j],
                accepted == grown(before.take(i as int), backlogs.take(i as int)),
                accepted <= i,
            decreases senders.len() - i,
        {
            let copy = tx.clone();
            let ghost sent = copy;
            let ghost earlier = backlogs;
            if send_to(&senders[i], copy).is_none() {
                proof {
                    backlogs = backlogs.update(i as int, backlogs[i as int].push(sent));
                    assert(backlogs[i as int].drop_last() =~= before[i as int]);
                }
                accepted += 1;
            }
            proof {
                assert(before.take(i + 1).drop_last() =~= before.take(i as int));
                assert(backlogs.take(i + 1).drop_last() =~= earlier.take(i as int));
            }
            i += 1;
        }
        proof {
            assert(before.take(i as int) =~= before);
            assert(backlogs.take(i as int) =~= backlogs);
        }
        *self = Subscribers { senders, accepted: Ghost(backlogs) };
        accepted
    }
}

/// Backlogs that were offered a transaction hold what they held before.
pub proof fn lemma_offered_extends(before: Seq<Seq<Tx>>, after: Seq<Seq<Tx>>, tx: Tx)
    requires
        offered_to_all(before, after, tx),
    ensures
        extended(before, after),
{
    assert forall|i: int| 0 <= i < before.len() implies before[i].is_prefix_of(
        #[trigger] after[i],
    ) by {}
}

/// Backlogs that grow twice hold what they held at first.
pub proof fn lemma_extended_twice(first: Seq<Seq<Tx>>, second: Seq<Seq<Tx>>, third: Seq<Seq<Tx>>)
    requires
        extended(first, second),
        extended(second, third),
    ensures
        extended(first, third),
{
    assert forall|i: int| 0 <= i < first.len() implies first[i].is_prefix_of(
        #[trigger] third[i],
    ) by {}
}

/// A transaction that was offered reached nobody exactly where every backlog
/// is as it was; and it reached no more subscribers than there are.
pub proof fn law_nothing_grown_means_nothing_changed(
    before: Seq<Seq<Tx>>,
    after: Seq<Seq<Tx>>,
    tx: Tx,
)
    requires
        offered_to_all(before, after, tx),
    ensures
        grown(before, after) == 0 <==> after == before,
        grown(before, after) <= before.len(),
    decreases before.len(),
{
    if before.len() > 0 {
        law_nothing_grown_means_nothing_changed(before.drop_last(), after.drop_last(), tx);
        assert(before =~= before.drop_last().push(before.last()));
        assert(after =~= after.drop_last().push(after.last()));
    } else {
        assert(after =~= before);
    }
}

} // verus!
