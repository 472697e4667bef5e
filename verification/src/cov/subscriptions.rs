//! The table of live subscriptions.

use crate::address::SocketAddress;
use crate::number::Real;
use crate::object::identifier::{ObjectIdentifier, PropertyIdentifier};
use crate::table::Key;
use vstd::prelude::*;

verus! {

/// What identifies a subscription: the same subscriber may watch several objects,
/// and several subscribers may watch one.
///
/// The monitored property is part of the identity rather than of the subscription
/// body, because SubscribeCOVProperty lets one process watch several properties of
/// the same object at once. Keying without it would make each new property replace
/// the last, and a cancellation take the wrong one away.
#[derive(Debug, Clone, Copy, PartialEq, Eq, Structural)]
pub struct SubscriptionKey {
    /// The subscriber's process identifier.
    pub process_identifier: u32,
    /// The object being watched.
    pub monitored_object: ObjectIdentifier,
    /// A single property to watch, for SubscribeCOVProperty. `None` means the
    /// standard set for the object type, which is what plain SubscribeCOV asks for.
    pub monitored_property: Option<PropertyIdentifier>,
    /// Where the subscriber lives.
    pub address: SocketAddress,
}

impl Key for SubscriptionKey {
    fn is_same(&self, other: &SubscriptionKey) -> (same: bool) {
        let property = match (self.monitored_property, other.monitored_property) {
            (Some(a), Some(b)) => a == b,
            (None, None) => true,
            _ => false,
        };
        self.process_identifier == other.process_identifier && self.monitored_object
            == other.monitored_object && property && self.address == other.address
    }
}

/// One live COV subscription.
#[derive(Debug, Clone, Copy)]
pub struct Subscription {
    /// What identifies it.
    pub key: SubscriptionKey,
    /// Whether the subscriber wants confirmed notifications.
    pub confirmed: bool,
    /// Engine time in seconds when this expires; `None` never expires.
    pub expires_at: Option<u64>,
    /// Increment supplied with a SubscribeCOVProperty request, overriding the
    /// object's own `COV_Increment`.
    pub cov_increment: Option<Real>,
}

impl Subscription {
    /// The seconds a notification names as left.
    pub open spec fn remaining(self, now: int) -> u32 {
        match self.expires_at {
            None => 0,
            Some(expiry) => if expiry <= now {
                0
            } else if expiry - now > u32::MAX {
                u32::MAX
            } else {
                (expiry - now) as u32
            },
        }
    }

    /// Whether the subscription still runs.
    pub open spec fn lives(self, now: u64) -> bool {
        match self.expires_at {
            Some(expiry) => expiry > now,
            None => true,
        }
    }

    /// Seconds until expiry, which is what a notification reports as
    /// `time_remaining`. A subscription that never expires reports 0.
    pub fn time_remaining(&self, now_seconds: u64) -> (seconds: u32)
        ensures
            seconds == self.remaining(now_seconds as int),
    {
        match self.expires_at {
            Some(expiry) => if expiry <= now_seconds {
                0
            } else {
                let left: u64 = expiry - now_seconds;
                if left > 0xffff_ffff {
                    u32::MAX
                } else {
                    left as u32
                }
            },
            None => 0,
        }
    }

    fn is_live(&self, now_seconds: u64) -> (live: bool)
        ensures
            live == self.lives(now_seconds),
    {
        match self.expires_at {
            Some(expiry) => expiry > now_seconds,
            None => true,
        }
    }
}

/// When a subscription that is made now expires: after its lifetime, and never where it
/// has none.
pub open spec fn expiry_after(now: u64, lifetime: Option<u32>) -> Option<u64> {
    match lifetime {
        None | Some(0) => None,
        Some(seconds) => Some((now + seconds) as u64),
    }
}

/// Whether no two subscriptions share a key.
pub open spec fn distinct_keys(held: Seq<Subscription>) -> bool {
    forall|i: int, j: int|
        0 <= i < j < held.len() ==> (#[trigger] held[i]).key != (#[trigger] held[j]).key
}

/// Whether the subscription at a place has this key.
pub open spec fn is_held_at(held: Seq<Subscription>, place: int, key: SubscriptionKey) -> bool {
    0 <= place < held.len() && held[place].key == key
}

/// Whether a subscription with this key is held.
pub open spec fn is_held(held: Seq<Subscription>, key: SubscriptionKey) -> bool {
    exists|place: int| is_held_at(held, place, key)
}

/// The place of the subscription with a key.
pub open spec fn held_place(held: Seq<Subscription>, key: SubscriptionKey) -> int {
    choose|place: int| is_held_at(held, place, key)
}

/// The table after a subscription was made or renewed.
pub open spec fn subscribed(held: Seq<Subscription>, subscription: Subscription) -> Seq<
    Subscription,
> {
    if is_held(held, subscription.key) {
        held.update(held_place(held, subscription.key), subscription)
    } else {
        held.push(subscription)
    }
}

/// The table after the subscription with a key was taken away.
pub open spec fn cancelled(held: Seq<Subscription>, key: SubscriptionKey) -> Seq<Subscription> {
    if is_held(held, key) {
        held.remove(held_place(held, key))
    } else {
        held
    }
}

/// The subscriptions that still run.
pub open spec fn living(held: Seq<Subscription>, now: u64) -> Seq<Subscription> {
    held.filter(|subscription: Subscription| subscription.lives(now))
}

proof fn lemma_held_place(held: Seq<Subscription>, place: int)
    requires
        distinct_keys(held),
        0 <= place < held.len(),
    ensures
        is_held(held, held[place].key),
        held_place(held, held[place].key) == place,
{
    let key = held[place].key;
    assert(is_held_at(held, place, key));
    let found = held_place(held, key);
    if found < place {
        assert(held[found].key != held[place].key);
    }
    if place < found {
        assert(held[place].key != held[found].key);
    }
}

/// Re-subscribing is how a lifetime is renewed: the table holds the newest
/// subscription of a key once, and every other one as before.
pub proof fn law_subscribing_renews(
    held: Seq<Subscription>,
    subscription: Subscription,
    other: SubscriptionKey,
)
    requires
        distinct_keys(held),
    ensures
        distinct_keys(subscribed(held, subscription)),
        is_held(subscribed(held, subscription), subscription.key),
        subscribed(held, subscription)[held_place(
            subscribed(held, subscription),
            subscription.key,
        )] == subscription,
        is_held(held, subscription.key) ==> subscribed(held, subscription).len() == held.len(),
        !is_held(held, subscription.key) ==> subscribed(held, subscription).len() == held.len() + 1,
        other != subscription.key ==> is_held(subscribed(held, subscription), other) == is_held(
            held,
            other,
        ),
        other != subscription.key && is_held(held, other) ==> subscribed(
            held,
            subscription,
        )[held_place(subscribed(held, subscription), other)] == held[held_place(held, other)],
{
    let after = subscribed(held, subscription);
    let key = subscription.key;
    if is_held(held, key) {
        let place = held_place(held, key);
        assert(is_held_at(held, place, key));
        assert forall|i: int| 0 <= i < after.len() implies (#[trigger] after[i]).key
            == held[i].key by {}
        lemma_held_place(after, place);
        if is_held(held, other) {
            let found = held_place(held, other);
            assert(is_held_at(held, found, other));
            lemma_held_place(after, found);
        }
        if is_held(after, other) {
            let found = held_place(after, other);
            assert(is_held_at(after, found, other));
            assert(is_held_at(held, found, other));
        }
    } else {
        assert forall|i: int| 0 <= i < held.len() implies (#[trigger] held[i]).key != key by {
            if held[i].key == key {
                assert(is_held_at(held, i, key));
            }
        }
        assert forall|i: int, j: int| 0 <= i < j < after.len() implies (#[trigger] after[i]).key
            != (#[trigger] after[j]).key by {
            if j < held.len() {
                assert(held[i].key != held[j].key);
            }
        }
        lemma_held_place(after, held.len() as int);
        if is_held(held, other) {
            let found = held_place(held, other);
            assert(is_held_at(held, found, other));
            assert(after[found] == held[found]);
            lemma_held_place(after, found);
        }
        if is_held(after, other) && other != key {
            let found = held_place(after, other);
            assert(is_held_at(after, found, other));
            assert(is_held_at(held, found, other));
        }
    }
}

/// Cancelling takes away the subscription with that key, and no other.
pub proof fn law_cancelling_takes_one(
    held: Seq<Subscription>,
    key: SubscriptionKey,
    other: SubscriptionKey,
)
    requires
        distinct_keys(held),
    ensures
        distinct_keys(cancelled(held, key)),
        !is_held(cancelled(held, key), key),
        other != key ==> is_held(cancelled(held, key), other) == is_held(held, other),
        other != key && is_held(held, other) ==> cancelled(held, key)[held_place(
            cancelled(held, key),
            other,
        )] == held[held_place(held, other)],
        cancelled(cancelled(held, key), key) == cancelled(held, key),
{
    let after = cancelled(held, key);
    if is_held(held, key) {
        let place = held_place(held, key);
        assert(is_held_at(held, place, key));
        assert forall|i: int| 0 <= i < after.len() implies #[trigger] after[i] == held[if i < place {
            i
        } else {
            i + 1
        }] by {}
        assert forall|i: int| !is_held_at(after, i, key) by {
            if 0 <= i < after.len() {
                let origin = if i < place {
                    i
                } else {
                    i + 1
                };
                if i < place {
                    assert(held[origin].key != held[place].key);
                } else {
                    assert(held[place].key != held[origin].key);
                }
                assert(after[i] == held[origin]);
            }
        }
        if is_held(held, other) && other != key {
            let found = held_place(held, other);
            assert(is_held_at(held, found, other));
            let target = if found < place {
                found
            } else {
                found - 1
            };
            assert(after[target] == held[found]);
            assert(is_held_at(after, target, other));
            assert(is_held_at(after, held_place(after, other), other));
        }
        if is_held(after, other) {
            let found = held_place(after, other);
            assert(is_held_at(after, found, other));
            let origin = if found < place {
                found
            } else {
                found + 1
            };
            assert(after[found] == held[origin]);
            assert(is_held_at(held, origin, other));
        }
    }
}

/// A subscription without a lifetime outlasts every sweep, and one with a lifetime
/// is gone from the moment its time is up.
pub proof fn law_expiry_is_the_deadline(subscription: Subscription, now: u64)
    ensures
        subscription.expires_at is None ==> subscription.lives(now) && subscription.remaining(
            now as int,
        ) == 0,
        subscription.expires_at matches Some(expiry) ==> subscription.lives(now) == (now < expiry)
            && (subscription.remaining(now as int) == 0) == (now >= expiry),
{
}

/// The device's COV subscription table, shared between the request path that
/// maintains it and the reporting path that walks it.
#[derive(Clone)]
pub struct CovSubscriptions {
    subscriptions: Vec<Subscription>,
    /// The engine's clock, so a subscribe request arriving on the request path can
    /// turn a lifetime into an expiry without reading a wall clock of its own.
    now_seconds: u64,
}

impl Default for CovSubscriptions {
    fn default() -> (table: CovSubscriptions)
        ensures
            table.wf(),
            table.held() == Seq::<Subscription>::empty(),
            table.clock() == 0,
    {
        CovSubscriptions { subscriptions: Vec::new(), now_seconds: 0 }
    }
}

impl CovSubscriptions {
    /// The subscriptions held, in the order they were first made.
    pub closed spec fn held(&self) -> Seq<Subscription> {
        self.subscriptions@
    }

    /// The clock last published.
    pub closed spec fn clock(&self) -> u64 {
        self.now_seconds
    }

    /// Whether each key is held once.
    pub open spec fn wf(&self) -> bool {
        distinct_keys(self.held())
    }

    /// An empty table.
    pub fn new() -> (table: CovSubscriptions)
        ensures
            table.wf(),
            table.held() == Seq::<Subscription>::empty(),
            table.clock() == 0,
    {
        CovSubscriptions::default()
    }

    /// The engine's current time, as last published by the engine.
    pub fn now(&self) -> (seconds: u64)
        ensures
            seconds == self.clock(),
    {
        self.now_seconds
    }

    /// Publish the engine's clock for the request path to read.
    pub fn set_now(&mut self, seconds: u64)
        ensures
            final(self).clock() == seconds,
            final(self).held() == old(self).held(),
    {
        self.now_seconds = seconds;
    }

    /// Turn a requested lifetime into an expiry against the current clock.
    ///
    /// BACnet treats a lifetime of zero as "until cancelled", so it maps to no
    /// expiry rather than immediate death.
    pub fn expiry_for(&self, lifetime: Option<u32>) -> (expiry: Option<u64>)
        requires
            lifetime matches Some(seconds) ==> self.clock() + seconds <= u64::MAX,
        ensures
            expiry == match lifetime {
                None | Some(0) => None::<u64>,
                Some(seconds) => Some((self.clock() + seconds) as u64),
            },
            expiry == expiry_after(self.clock(), lifetime),
    {
        match lifetime {
            None | Some(0) => None,
            Some(seconds) => Some(self.now_seconds + seconds as u64),
        }
    }

    fn find(&self, key: &SubscriptionKey) -> (place: Option<usize>)
        requires
            self.wf(),
        ensures
            match place {
                Some(place) => place < self.held().len() && self.held()[place as int].key == *key
                    && is_held(self.held(), *key) && held_place(self.held(), *key) == place,
                None => !is_held(self.held(), *key),
            },
    {
        let mut i: usize = 0;
        while i < self.subscriptions.len()
            invariant
                i <= self.subscriptions.len(),
                self.wf(),
                forall|j: int| 0 <= j < i ==> (#[trigger] self.subscriptions@[j]).key != *key,
            decreases self.subscriptions.len() - i,
        {
            if self.subscriptions[i].key.is_same(key) {
                proof {
                    lemma_held_place(self.subscriptions@, i as int);
                }
                return Some(i);
            }
            i += 1;
        }
        None
    }

    /// Add a subscription, or renew one that already exists.
    ///
    /// Re-subscribing is how BACnet renews a lifetime, so an existing key is
    /// replaced rather than duplicated.
    pub fn subscribe(&mut self, subscription: Subscription)
        requires
            old(self).wf(),
        ensures
            final(self).wf(),
            final(self).clock() == old(self).clock(),
            final(self).held() == subscribed(old(self).held(), subscription),
    {
        proof {
            law_subscribing_renews(self.held(), subscription, subscription.key);
        }
        match self.find(&subscription.key) {
            Some(place) => {
                self.subscriptions[place] = subscription;
            },
            None => {
                self.subscriptions.push(subscription);
            },
        }
    }

    /// Remove a subscription. Returns whether one was there.
    pub fn cancel(&mut self, key: &SubscriptionKey) -> (found: bool)
        requires
            old(self).wf(),
        ensures
            final(self).wf(),
            final(self).clock() == old(self).clock(),
            final(self).held() == cancelled(old(self).held(), *key),
            found == is_held(old(self).held(), *key),
    {
        proof {
            law_cancelling_takes_one(self.held(), *key, *key);
        }
        match self.find(key) {
            Some(place) => {
                let dropped = self.subscriptions.remove(place);
                true
            },
            None => false,
        }
    }

    /// Drop everything that has expired, returning how many went.
    pub fn expire(&mut self, now_seconds: u64) -> (count: usize)
        requires
            old(self).wf(),
        ensures
            final(self).wf(),
            final(self).clock() == old(self).clock(),
            final(self).held() == living(old(self).held(), now_seconds),
            count == old(self).held().len() - final(self).held().len(),
    {
        let ghost before = self.subscriptions@;
        let ghost lives = |subscription: Subscription| subscription.lives(now_seconds);
        let mut kept: Vec<Subscription> = Vec::new();
        let mut i: usize = 0;
        proof {
            assert(before.take(0).filter(lives) =~= Seq::<Subscription>::empty()) by {
                reveal(Seq::filter);
            }
        }
        while i < self.subscriptions.len()
            invariant
                i <= self.subscriptions.len(),
                self.subscriptions@ == before,
                lives == (|subscription: Subscription| subscription.lives(now_seconds)),
                kept@ == before.take(i as int).filter(lives),
                kept@.len() <= i,
            decreases self.subscriptions.len() - i,
        {
            proof {
                let longer = before.take(i + 1);
                assert(longer.drop_last() =~= before.take(i as int));
                assert(longer.last() == before[i as int]);
                reveal(Seq::filter);
            }
            let subscription = self.subscriptions[i];
            if subscription.is_live(now_seconds) {
                kept.push(subscription);
            }
            i += 1;
        }
        proof {
            assert(before.take(before.len() as int) =~= before);
            lemma_filter_distinct(before, now_seconds);
        }
        let count: usize = self.subscriptions.len() - kept.len();
        self.subscriptions = kept;
        count
    }

    /// Every live subscription.
    pub fn all(&self) -> (all: Vec<Subscription>)
        ensures
            all@ == self.held(),
    {
        let mut all: Vec<Subscription> = Vec::new();
        let mut i: usize = 0;
        while i < self.subscriptions.len()
            invariant
                i <= self.subscriptions.len(),
                all@ == self.subscriptions@.take(i as int),
            decreases self.subscriptions.len() - i,
        {
            all.push(self.subscriptions[i]);
            proof {
                assert(self.subscriptions@.take(i + 1) =~= self.subscriptions@.take(i as int).push(
                    self.subscriptions@[i as int],
                ));
            }
            i += 1;
        }
        proof {
            assert(self.subscriptions@.take(self.subscriptions@.len() as int)
                =~= self.subscriptions@);
        }
        all
    }

    /// How many subscriptions are held.
    pub fn len(&self) -> (count: usize)
        ensures
            count == self.held().len(),
    {
        self.subscriptions.len()
    }

    /// Whether the table is empty.
    pub fn is_empty(&self) -> (empty: bool)
        ensures
            empty == (self.held().len() == 0),
    {
        self.len() == 0
    }
}

proof fn lemma_filter_distinct(held: Seq<Subscription>, now: u64)
    requires
        distinct_keys(held),
    ensures
        distinct_keys(living(held, now)),
        forall|i: int|
            0 <= i < living(held, now).len() ==> held.contains(#[trigger] living(held, now)[i]),
    decreases held.len(),
{
    reveal(Seq::filter);
    let lives = |subscription: Subscription| subscription.lives(now);
    let kept = living(held, now);
    if held.len() > 0 {
        let earlier = held.drop_last();
        let before = living(earlier, now);
        assert forall|i: int, j: int| 0 <= i < j < earlier.len() implies (
        #[trigger] earlier[i]).key != (#[trigger] earlier[j]).key by {
            assert(held[i].key != held[j].key);
        }
        lemma_filter_distinct(earlier, now);
        assert forall|i: int| 0 <= i < before.len() implies held.contains(#[trigger] before[i])
            && before[i].key != held.last().key by {
            let place = earlier.index_of(before[i]);
            assert(held[place] == before[i]);
            assert(held[place].key != held[held.len() - 1].key);
        }
        if lives(held.last()) {
            assert(kept == before.push(held.last()));
            assert forall|i: int| 0 <= i < kept.len() implies held.contains(#[trigger] kept[i]) by {
                if i < before.len() {
                    assert(kept[i] == before[i]);
                } else {
                    assert(held[held.len() - 1] == kept[i]);
                }
            }
            assert forall|i: int, j: int| 0 <= i < j < kept.len() implies (#[trigger] kept[i]).key
                != (#[trigger] kept[j]).key by {
                assert(kept[i] == before[i]);
                if j < before.len() {
                    assert(kept[j] == before[j]);
                }
            }
        } else {
            assert(kept == before);
        }
    }
}

} // verus!
