//! The store that remembers which transactions were already surfaced.
//!
//! Each entry carries the time at which it was stored. An entry whose age has
//! reached the time to live counts as absent: a lookup that meets it removes
//! it, and a sweep removes all such entries at once.
//!
//! Times are readings of the store's own monotonic clock, in nanoseconds since
//! the store was made. Each operation exists in two forms: one that takes the
//! reading as an argument, and one that reads the clock itself.

use crate::strmap::StrMap;
use crate::tx::Tx;
use vstd::prelude::*;

verus! {

/// Nanoseconds in a second.
pub const NANOS_PER_SEC: u128 = 1_000_000_000;

/// A point of the monotonic clock of the standard library.
#[verifier::external_type_specification]
#[verifier::external_body]
pub struct ExInstant(std::time::Instant);

/// The present point of the monotonic clock.
///
/// Trusted: `Instant::now` of the standard library. Nothing is claimed of the
/// point that it returns.
#[verifier::external_body]
fn clock_start() -> (origin: std::time::Instant) {
    std::time::Instant::now()
}

/// The time that has passed since `origin`.
///
/// Trusted: `Instant::elapsed` of the standard library, which returns zero
/// where the clock reads earlier than `origin`. Nothing is claimed of the
/// duration.
#[verifier::external_body]
fn clock_elapsed(origin: &std::time::Instant) -> (elapsed: std::time::Duration) {
    origin.elapsed()
}

/// The whole nanoseconds of a duration.
///
/// Trusted: `Duration::as_nanos` of the standard library. Nothing is claimed
/// of the number.
pub assume_specification[ std::time::Duration::as_nanos ](duration: &std::time::Duration) -> (nanos:
    u128)
;

/// A transaction together with the clock reading at which it was stored.
#[derive(Debug)]
pub struct Stamped {
    pub at: u128,
    pub tx: Tx,
}

impl Clone for Stamped {
    /// A copy with the same stamp.
    fn clone(&self) -> (copy: Self)
        ensures
            copy.at == self.at,
    {
        Stamped { at: self.at, tx: self.tx.clone() }
    }
}

/// What a lookup finds under a key.
#[derive(Clone, Copy, Debug, PartialEq, Eq, Structural)]
pub enum Status {
    /// No entry.
    NotFound,
    /// An entry younger than the time to live.
    Found,
    /// An entry at least as old as the time to live.
    Expired,
}

/// The whole seconds between the reading `at` and the later reading `now`;
/// zero where `now` is not later.
pub open spec fn age_secs(at: u128, now: u128) -> int {
    if now >= at {
        (now - at) / (NANOS_PER_SEC as int)
    } else {
        0
    }
}

/// An entry stored at `at` is live at `now`: its age is below `ttl_seconds`.
pub open spec fn live(at: u128, now: u128, ttl_seconds: u64) -> bool {
    age_secs(at, now) < ttl_seconds
}

/// What a lookup of `key` at `now` finds in `store`.
pub open spec fn status_of(
    store: Map<Seq<char>, Stamped>,
    key: Seq<char>,
    now: u128,
    ttl_seconds: u64,
) -> Status {
    if !store.contains_key(key) {
        Status::NotFound
    } else if live(store[key].at, now, ttl_seconds) {
        Status::Found
    } else {
        Status::Expired
    }
}

/// What a lookup of `key` at `now` returns: the transaction of a live entry.
pub open spec fn lookup(
    store: Map<Seq<char>, Stamped>,
    key: Seq<char>,
    now: u128,
    ttl_seconds: u64,
) -> Option<Tx> {
    if status_of(store, key, now, ttl_seconds) == Status::Found {
        Some(store[key].tx)
    } else {
        None
    }
}

/// The store after a lookup of `key` at `now`: an expired entry is gone.
pub open spec fn after_lookup(
    store: Map<Seq<char>, Stamped>,
    key: Seq<char>,
    now: u128,
    ttl_seconds: u64,
) -> Map<Seq<char>, Stamped> {
    if status_of(store, key, now, ttl_seconds) == Status::Expired {
        store.remove(key)
    } else {
        store
    }
}

/// The store after a sweep at `now`: the live entries, unchanged.
pub open spec fn swept(store: Map<Seq<char>, Stamped>, now: u128, ttl_seconds: u64) -> Map<
    Seq<char>,
    Stamped,
> {
    Map::new(
        |key: Seq<char>| store.contains_key(key) && live(store[key].at, now, ttl_seconds),
        |key: Seq<char>| store[key],
    )
}

/// The keys that a sweep at `now` removes: those of the entries that are not live.
pub open spec fn expired_keys(store: Map<Seq<char>, Stamped>, now: u128, ttl_seconds: u64) -> Set<
    Seq<char>,
> {
    Set::new(|key: Seq<char>| store.contains_key(key) && !live(store[key].at, now, ttl_seconds))
}

/// Whether an entry stored at `at` is live at `now`.
pub fn is_live(at: u128, now: u128, ttl_seconds: u64) -> (yes: bool)
    ensures
        yes == live(at, now, ttl_seconds),
{
    if now >= at {
        (now - at) / NANOS_PER_SEC < ttl_seconds as u128
    } else {
        0 < ttl_seconds
    }
}

/// The store of surfaced transactions, keyed by identifier.
#[derive(Debug)]
pub struct Cache {
    store: StrMap<Stamped>,
    ttl_seconds: u64,
    origin: std::time::Instant,
}

impl Clone for Cache {
    /// A store with the same clock and time to live, and with an entry of
    /// the same stamp under each key.
    fn clone(&self) -> (copy: Self)
        ensures
            copy.ttl() == self.ttl(),
            copy@.dom() == self@.dom(),
            forall|key: Seq<char>| #[trigger]
                copy@.contains_key(key) ==> copy@[key].at == self@[key].at,
    {
        Cache { store: self.store.clone(), ttl_seconds: self.ttl_seconds, origin: self.origin }
    }
}

impl View for Cache {
    type V = Map<Seq<char>, Stamped>;

    closed spec fn view(&self) -> Map<Seq<char>, Stamped> {
        self.store@
    }
}

impl Cache {
    /// The time to live, in seconds, that the store was made with.
    pub closed spec fn ttl(&self) -> u64 {
        self.ttl_seconds
    }

    /// An empty store whose entries live for `ttl_seconds` seconds.
    pub fn new(ttl_seconds: u64) -> (cache: Cache)
        ensures
            cache@ == Map::<Seq<char>, Stamped>::empty(),
            cache.ttl() == ttl_seconds,
    {
        Cache { store: StrMap::new(), ttl_seconds, origin: clock_start() }
    }

    /// The time to live in seconds.
    pub fn ttl_seconds(&self) -> (ttl: u64)
        ensures
            ttl == self.ttl(),
    {
        self.ttl_seconds
    }

    /// The present reading of the store's clock.
    pub fn now(&self) -> (now: u128) {
        clock_elapsed(&self.origin).as_nanos()
    }

    /// The number of entries that the store holds, live or not.
    pub fn len(&self) -> (n: usize)
        ensures
            self@.dom().finite(),
            n == self@.dom().len(),
    {
        self.store.len()
    }

    /// Whether the store holds an entry under `key`, live or not.
    pub fn contains_key(&self, key: &str) -> (found: bool)
        ensures
            found == self@.contains_key(key@),
    {
        self.store.contains_key(key)
    }

    /// The transaction stored under `key`, whatever its age.
    pub fn peek(&self, key: &str) -> (found: Option<&Tx>)
        ensures
            match found {
                Some(tx) => self@.contains_key(key@) && *tx == self@[key@].tx,
                None => !self@.contains_key(key@),
            },
    {
        match self.store.get(key) {
            Some(stamped) => Some(&stamped.tx),
            None => None,
        }
    }

    /// What a lookup of `key` at `now` would find. The store stays as it is.
    pub fn status_at(&self, key: &str, now: u128) -> (status: Status)
        ensures
            status == status_of(self@, key@, now, self.ttl()),
    {
        match self.store.get(key) {
            Some(stamped) => {
                if is_live(stamped.at, now, self.ttl_seconds) {
                    Status::Found
                } else {
                    Status::Expired
                }
            },
            None => Status::NotFound,
        }
    }

    /// Stores `value` under `key` with the stamp `now`, in place of any entry
    /// that was there, and hands back the transaction of that entry.
    pub fn set_at(&mut self, key: String, value: Tx, now: u128) -> (previous: Option<Tx>)
        ensures
            final(self)@ == old(self)@.insert(key@, (Stamped { at: now, tx: value })),
            final(self).ttl() == old(self).ttl(),
            previous == if old(self)@.contains_key(key@) {
                Some(old(self)@[key@].tx)
            } else {
                None
            },
    {
        match self.store.insert(key, Stamped { at: now, tx: value }) {
            Some(stamped) => Some(stamped.tx),
            None => None,
        }
    }

    /// Stores `value` under `key`, stamped with the present reading of the
    /// clock, and hands back the transaction that was stored there before.
    pub fn set(&mut self, key: String, value: Tx) -> (previous: Option<Tx>)
        ensures
            final(self)@ == old(self)@.insert(
                key@,
                (Stamped { at: final(self)@[key@].at, tx: value }),
            ),
            final(self).ttl() == old(self).ttl(),
            previous == if old(self)@.contains_key(key@) {
                Some(old(self)@[key@].tx)
            } else {
                None
            },
    {
        let now = self.now();
        self.set_at(key, value, now)
    }

    /// Looks `key` up at `now`: the transaction of a live entry is returned;
    /// an expired entry is removed and reported as absent.
    pub fn get_at(&mut self, key: &str, now: u128) -> (found: Option<&Tx>)
        ensures
            match found {
                Some(tx) => lookup(old(self)@, key@, now, old(self).ttl()) == Some(*tx),
                None => lookup(old(self)@, key@, now, old(self).ttl()).is_none(),
            },
            final(self)@ == after_lookup(old(self)@, key@, now, old(self).ttl()),
            final(self).ttl() == old(self).ttl(),
    {
        match self.status_at(key, now) {
            Status::NotFound => None,
            Status::Found => self.peek(key),
            Status::Expired => {
                self.store.remove(key);
                None
            },
        }
    }

    /// Looks `key` up at the present reading of the clock. A transaction that
    /// is returned is the one stored and the store is unchanged; otherwise
    /// the store holds no entry under `key` afterwards.
    pub fn get(&mut self, key: &str) -> (found: Option<&Tx>)
        ensures
            exists|now: u128|
                #[trigger] lookup(old(self)@, key@, now, old(self).ttl()) == (match found {
                    Some(tx) => Some(*tx),
                    None => None,
                }) && final(self)@ == after_lookup(old(self)@, key@, now, old(self).ttl()),
            match found {
                Some(tx) => old(self)@.contains_key(key@) && *tx == old(self)@[key@].tx
                    && final(self)@ == old(self)@,
                None => final(self)@ == old(self)@.remove(key@),
            },
            final(self).ttl() == old(self).ttl(),
    {
        let now = self.now();
        self.get_at(key, now)
    }

    /// Removes every entry that is not live at `now` and returns how many
    /// entries it removed.
    pub fn clear_expired_at(&mut self, now: u128) -> (removed: usize)
        ensures
            final(self)@ == swept(old(self)@, now, old(self).ttl()),
            final(self).ttl() == old(self).ttl(),
            removed == expired_keys(old(self)@, now, old(self).ttl()).len(),
            removed == old(self)@.dom().len() - final(self)@.dom().len(),
    {
        let ghost all = self@;
        let ttl_seconds = self.ttl_seconds;
        let total = self.store.len();
        let mut rest: StrMap<Stamped> = StrMap::new();
        std::mem::swap(&mut rest, &mut self.store);
        let mut kept: StrMap<Stamped> = StrMap::new();
        let mut removed: usize = 0;
        let ghost mut gone: Set<Seq<char>> = Set::empty();
        loop
            invariant
                all.dom().finite(),
                total == all.dom().len(),
                rest@.dom().finite(),
                kept@.dom().finite(),
                gone.finite(),
                forall|k: Seq<char>| #[trigger]
                    rest@.contains_key(k) ==> all.contains_key(k) && rest@[k] == all[k],
                forall|k: Seq<char>| #[trigger]
                    kept@.contains_key(k) <==> all.contains_key(k) && !rest@.contains_key(k)
                        && live(all[k].at, now, ttl_seconds),
                forall|k: Seq<char>| #[trigger] kept@.contains_key(k) ==> kept@[k] == all[k],
                forall|k: Seq<char>| #[trigger]
                    gone.contains(k) <==> all.contains_key(k) && !rest@.contains_key(k) && !live(
                        all[k].at,
                        now,
                        ttl_seconds,
                    ),
                removed == gone.len(),
                removed + kept@.dom().len() + rest@.dom().len() == total,
            ensures
                rest@ == Map::<Seq<char>, Stamped>::empty(),
            decreases rest@.dom().len(),
        {
            match rest.pop() {
                Some((key, stamped)) => {
                    if is_live(stamped.at, now, ttl_seconds) {
                        kept.push_new(key, stamped);
                    } else {
                        proof {
                            gone = gone.insert(key@);
                        }
                        removed += 1;
                    }
                },
                None => {
                    break ;
                },
            }
        }
        assert(gone =~= expired_keys(all, now, ttl_seconds));
        self.store = kept;
        removed
    }

    /// Removes every entry that is not live at the present reading of the
    /// clock and returns how many entries it removed. The entries that stay
    /// are unchanged.
    pub fn clear_expired(&mut self) -> (removed: usize)
        ensures
            exists|now: u128|
                final(self)@ == #[trigger] swept(old(self)@, now, old(self).ttl()) && removed
                    == expired_keys(old(self)@, now, old(self).ttl()).len(),
            final(self)@.submap_of(old(self)@),
            final(self).ttl() == old(self).ttl(),
            removed == old(self)@.dom().len() - final(self)@.dom().len(),
    {
        let now = self.now();
        self.clear_expired_at(now)
    }
}

/// The age of an entry never decreases as the clock advances.
pub proof fn law_age_is_monotonic(at: u128, earlier: u128, later: u128)
    requires
        earlier <= later,
    ensures
        0 <= age_secs(at, earlier) <= age_secs(at, later),
{
}

/// An entry is live exactly while fewer nanoseconds than the time to live
/// holds have passed since it was stored.
pub proof fn law_live_window(at: u128, now: u128, ttl_seconds: u64)
    requires
        at <= now,
    ensures
        live(at, now, ttl_seconds) <==> now - at < ttl_seconds * NANOS_PER_SEC,
{
}

/// A transaction stored under a key at `t` and looked up `d` nanoseconds
/// later is returned while `d` is below the time to live, and the store stays
/// as it was. From the time to live on the lookup reports it absent and
/// removes the entry, so that any later lookup finds nothing and changes
/// nothing.
pub proof fn law_lookup_after_set(
    store: Map<Seq<char>, Stamped>,
    key: Seq<char>,
    tx: Tx,
    t: u128,
    d: u128,
    later: u128,
    ttl_seconds: u64,
)
    requires
        t + d <= u128::MAX,
    ensures
        ({
            let stored = store.insert(key, Stamped { at: t, tx });
            let now = (t + d) as u128;
            let after = after_lookup(stored, key, now, ttl_seconds);
            &&& d < ttl_seconds * NANOS_PER_SEC ==> lookup(stored, key, now, ttl_seconds) == Some(tx)
                && after == stored
            &&& d >= ttl_seconds * NANOS_PER_SEC ==> lookup(stored, key, now, ttl_seconds).is_none()
                && !after.contains_key(key) && after == stored.remove(key) && lookup(
                after,
                key,
                later,
                ttl_seconds,
            ).is_none() && after_lookup(after, key, later, ttl_seconds) == after
        }),
{
}

/// A lookup leaves every other key as it was.
pub proof fn law_lookup_touches_one_key(
    store: Map<Seq<char>, Stamped>,
    key: Seq<char>,
    other: Seq<char>,
    now: u128,
    ttl_seconds: u64,
)
    requires
        other != key,
    ensures
        ({
            let after = after_lookup(store, key, now, ttl_seconds);
            &&& after.contains_key(other) == store.contains_key(other)
            &&& after.contains_key(other) ==> after[other] == store[other]
        }),
{
}

/// A sweep removes exactly the entries whose age has reached the time to
/// live, and the number it returns is their number; the entries that are
/// younger stay as they were.
pub proof fn law_sweep_removes_the_expired(
    store: Map<Seq<char>, Stamped>,
    now: u128,
    ttl_seconds: u64,
)
    requires
        store.dom().finite(),
    ensures
        ({
            let after = swept(store, now, ttl_seconds);
            let removed = expired_keys(store, now, ttl_seconds);
            &&& forall|key: Seq<char>|
                store.contains_key(key) ==> (#[trigger] after.contains_key(key) <==> age_secs(
                    store[key].at,
                    now,
                ) < ttl_seconds)
            &&& forall|key: Seq<char>| #[trigger]
                after.contains_key(key) ==> store.contains_key(key) && after[key] == store[key]
            &&& after.dom().finite()
            &&& removed.finite()
            &&& removed == store.dom().difference(after.dom())
            &&& removed.len() == store.dom().len() - after.dom().len()
        }),
{
    let after = swept(store, now, ttl_seconds);
    let removed = expired_keys(store, now, ttl_seconds);
    vstd::set_lib::lemma_len_subset(after.dom(), store.dom());
    assert(removed =~= store.dom().difference(after.dom()));
    vstd::set_lib::lemma_set_difference_len(store.dom(), after.dom());
    assert(store.dom().intersect(after.dom()) =~= after.dom());
}

/// A second sweep right after a sweep removes nothing and returns zero. The
/// same holds of a later second sweep as long as no entry that the first one
/// kept has expired in between.
pub proof fn law_second_sweep_removes_nothing(
    store: Map<Seq<char>, Stamped>,
    now: u128,
    again: u128,
    ttl_seconds: u64,
)
    requires
        forall|key: Seq<char>|
            store.contains_key(key) && live(store[key].at, now, ttl_seconds) ==> live(
                #[trigger] store[key].at,
                again,
                ttl_seconds,
            ),
    ensures
        swept(swept(store, now, ttl_seconds), now, ttl_seconds) == swept(store, now, ttl_seconds),
        expired_keys(swept(store, now, ttl_seconds), now, ttl_seconds).len() == 0,
        swept(swept(store, now, ttl_seconds), again, ttl_seconds) == swept(store, now, ttl_seconds),
        expired_keys(swept(store, now, ttl_seconds), again, ttl_seconds).len() == 0,
{
    let first = swept(store, now, ttl_seconds);
    assert(expired_keys(first, now, ttl_seconds) =~= Set::<Seq<char>>::empty());
    assert(expired_keys(first, again, ttl_seconds) =~= Set::<Seq<char>>::empty());
}

} // verus!
