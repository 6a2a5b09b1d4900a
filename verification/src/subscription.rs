//! Stream subscriptions and the registry that keeps them across reconnects.

use vstd::prelude::*;
use vstd::string::*;
use crate::types::Symbol;

verus! {

/// Kinds of stream that an exchange offers.
#[derive(Debug, Clone, Copy, PartialEq, Eq, Structural)]
pub enum StreamType {
    Trade,
    Quote,
    OrderBook,
    Ticker,
    Kline,
    UserData,
}

/// The name of a stream kind on the wire.
pub open spec fn stream_type_name(stream_type: StreamType) -> Seq<char> {
    match stream_type {
        StreamType::Trade => "trade"@,
        StreamType::Quote => "bookTicker"@,
        StreamType::OrderBook => "depth"@,
        StreamType::Ticker => "ticker"@,
        StreamType::Kline => "kline"@,
        StreamType::UserData => "userData"@,
    }
}

impl StreamType {
    pub fn as_str(&self) -> (name: &'static str)
        ensures
            name@ == stream_type_name(*self),
    {
        match self {
            StreamType::Trade => "trade",
            StreamType::Quote => "bookTicker",
            StreamType::OrderBook => "depth",
            StreamType::Ticker => "ticker",
            StreamType::Kline => "kline",
            StreamType::UserData => "userData",
        }
    }
}

/// A request for one stream of one symbol. `interval` is set for kline
/// streams only.
#[derive(Debug, Clone)]
pub struct StreamSubscription {
    pub symbol: Symbol,
    pub stream_type: StreamType,
    pub interval: Option<String>,
}

/// The key under which a subscription is registered: symbol, stream name
/// and, where there is one, interval, joined by colons.
pub open spec fn subscription_key(subscription: StreamSubscription) -> Seq<char> {
    match subscription.interval {
        Some(interval) => subscription.symbol@ + ":"@ + stream_type_name(subscription.stream_type)
            + ":"@ + interval@,
        None => subscription.symbol@ + ":"@ + stream_type_name(subscription.stream_type),
    }
}

impl StreamSubscription {
    pub fn trade(symbol: Symbol) -> (subscription: StreamSubscription)
        ensures
            subscription == (StreamSubscription {
                symbol,
                stream_type: StreamType::Trade,
                interval: None,
            }),
    {
        StreamSubscription { symbol, stream_type: StreamType::Trade, interval: None }
    }

    pub fn quote(symbol: Symbol) -> (subscription: StreamSubscription)
        ensures
            subscription == (StreamSubscription {
                symbol,
                stream_type: StreamType::Quote,
                interval: None,
            }),
    {
        StreamSubscription { symbol, stream_type: StreamType::Quote, interval: None }
    }

    pub fn orderbook(symbol: Symbol) -> (subscription: StreamSubscription)
        ensures
            subscription == (StreamSubscription {
                symbol,
                stream_type: StreamType::OrderBook,
                interval: None,
            }),
    {
        StreamSubscription { symbol, stream_type: StreamType::OrderBook, interval: None }
    }

    pub fn ticker(symbol: Symbol) -> (subscription: StreamSubscription)
        ensures
            subscription == (StreamSubscription {
                symbol,
                stream_type: StreamType::Ticker,
                interval: None,
            }),
    {
        StreamSubscription { symbol, stream_type: StreamType::Ticker, interval: None }
    }

    pub fn kline(symbol: Symbol, interval: String) -> (subscription: StreamSubscription)
        ensures
            subscription == (StreamSubscription {
                symbol,
                stream_type: StreamType::Kline,
                interval: Some(interval),
            }),
    {
        StreamSubscription { symbol, stream_type: StreamType::Kline, interval: Some(interval) }
    }

    /// The user-data stream belongs to the account, not to a symbol: its
    /// symbol is empty.
    pub fn user_data() -> (subscription: StreamSubscription)
        ensures
            subscription.symbol@ == Seq::<char>::empty(),
            subscription.stream_type == StreamType::UserData,
            subscription.interval is None,
    {
        StreamSubscription {
            symbol: Symbol(String::new()),
            stream_type: StreamType::UserData,
            interval: None,
        }
    }

    /// A copy of the subscription.
    pub fn duplicate(&self) -> (copy: StreamSubscription)
        ensures
            copy == *self,
    {
        let interval = match &self.interval {
            Some(interval) => Some(interval.clone()),
            None => None,
        };
        StreamSubscription {
            symbol: self.symbol.duplicate(),
            stream_type: self.stream_type,
            interval,
        }
    }

    /// The key under which the subscription is registered.
    pub fn key(&self) -> (key: String)
        ensures
            key@ == subscription_key(*self),
    {
        let mut key = self.symbol.0.clone();
        key.append(":");
        key.append(self.stream_type.as_str());
        match &self.interval {
            Some(interval) => {
                key.append(":");
                key.append(interval.as_str());
            },
            None => {},
        }
        key
    }
}

/// No two subscriptions share a key.
pub open spec fn distinct_keys(entries: Seq<StreamSubscription>) -> bool {
    forall|i: int, j: int|
        0 <= i < j < entries.len() ==> subscription_key(#[trigger] entries[i]) != subscription_key(
            #[trigger] entries[j],
        )
}

/// Index of the first subscription registered under `key`, or the number of
/// subscriptions where there is none.
pub open spec fn key_position(entries: Seq<StreamSubscription>, key: Seq<char>) -> int
    decreases entries.len(),
{
    if entries.len() == 0 || subscription_key(entries[0]) == key {
        0
    } else {
        1 + key_position(entries.drop_first(), key)
    }
}

/// The subscriptions after `subscription` is registered: it takes the place
/// of the one that held its key, or the last place where its key is new.
pub open spec fn registered(
    entries: Seq<StreamSubscription>,
    subscription: StreamSubscription,
) -> Seq<StreamSubscription> {
    let at = key_position(entries, subscription_key(subscription));
    if at < entries.len() {
        entries.update(at, subscription)
    } else {
        entries.push(subscription)
    }
}

/// The subscriptions after the one with the key of `subscription` is taken
/// out; the same subscriptions where none holds that key.
pub open spec fn unregistered(
    entries: Seq<StreamSubscription>,
    subscription: StreamSubscription,
) -> Seq<StreamSubscription> {
    let at = key_position(entries, subscription_key(subscription));
    if at < entries.len() {
        entries.remove(at)
    } else {
        entries
    }
}

pub proof fn lemma_key_position(entries: Seq<StreamSubscription>, key: Seq<char>)
    ensures
        0 <= key_position(entries, key) <= entries.len(),
        forall|j: int|
            0 <= j < key_position(entries, key) ==> subscription_key(#[trigger] entries[j]) != key,
        key_position(entries, key) < entries.len() ==> subscription_key(
            entries[key_position(entries, key)],
        ) == key,
    decreases entries.len(),
{
    if entries.len() == 0 || subscription_key(entries[0]) == key {
    } else {
        let rest = entries.drop_first();
        lemma_key_position(rest, key);
        assert forall|j: int| 0 <= j < key_position(entries, key) implies subscription_key(
            #[trigger] entries[j],
        ) != key by {
            if j > 0 {
                assert(entries[j] == rest[j - 1]);
            }
        }
        if key_position(entries, key) < entries.len() {
            assert(entries[key_position(entries, key)] == rest[key_position(rest, key)]);
        }
    }
}

proof fn lemma_key_found(entries: Seq<StreamSubscription>, key: Seq<char>, at: int)
    requires
        0 <= at <= entries.len(),
        forall|j: int| 0 <= j < at ==> subscription_key(#[trigger] entries[j]) != key,
        at < entries.len() ==> subscription_key(entries[at]) == key,
    ensures
        key_position(entries, key) == at,
{
    lemma_key_position(entries, key);
    let p = key_position(entries, key);
    if p < at {
        assert(subscription_key(entries[p]) == key);
    } else if at < p {
        assert(subscription_key(entries[at]) == key);
    }
}

/// Registering and unregistering keep keys distinct.
pub proof fn lemma_registry_keeps_distinct(
    entries: Seq<StreamSubscription>,
    subscription: StreamSubscription,
)
    requires
        distinct_keys(entries),
    ensures
        distinct_keys(registered(entries, subscription)),
        distinct_keys(unregistered(entries, subscription)),
{
    let key = subscription_key(subscription);
    lemma_key_position(entries, key);
    let at = key_position(entries, key);
    let put = registered(entries, subscription);
    assert forall|i: int, j: int| 0 <= i < j < put.len() implies subscription_key(
        #[trigger] put[i],
    ) != subscription_key(#[trigger] put[j]) by {
        if at < entries.len() {
            if i == at {
                assert(subscription_key(entries[at]) != subscription_key(entries[j]));
            } else if j == at {
                assert(subscription_key(entries[i]) != subscription_key(entries[at]));
            } else {
                assert(subscription_key(entries[i]) != subscription_key(entries[j]));
            }
        } else {
            if j == entries.len() {
                assert(subscription_key(entries[i]) != key);
            } else {
                assert(subscription_key(entries[i]) != subscription_key(entries[j]));
            }
        }
    }
    let cut = unregistered(entries, subscription);
    assert forall|i: int, j: int| 0 <= i < j < cut.len() implies subscription_key(
        #[trigger] cut[i],
    ) != subscription_key(#[trigger] cut[j]) by {
        if at < entries.len() {
            let si = if i < at { i } else { i + 1 };
            let sj = if j < at { j } else { j + 1 };
            assert(cut[i] == entries[si] && cut[j] == entries[sj]);
            assert(subscription_key(entries[si]) != subscription_key(entries[sj]));
        } else {
            assert(subscription_key(entries[i]) != subscription_key(entries[j]));
        }
    }
}

/// Subscribing is idempotent by key: a subscription that is registered
/// stands in the registry once, at the place where its key first came, and
/// registering it again changes nothing.
pub proof fn law_registering_is_idempotent(
    entries: Seq<StreamSubscription>,
    subscription: StreamSubscription,
)
    requires
        distinct_keys(entries),
    ensures
        registered(registered(entries, subscription), subscription) == registered(
            entries,
            subscription,
        ),
        key_position(registered(entries, subscription), subscription_key(subscription))
            < registered(entries, subscription).len(),
        registered(entries, subscription)[key_position(
            registered(entries, subscription),
            subscription_key(subscription),
        )] == subscription,
        unregistered(registered(entries, subscription), subscription) == unregistered(
            entries,
            subscription,
        ),
{
    let key = subscription_key(subscription);
    lemma_key_position(entries, key);
    let at = key_position(entries, key);
    let once = registered(entries, subscription);
    assert(subscription_key(once[at]) == key);
    assert forall|j: int| 0 <= j < at implies subscription_key(#[trigger] once[j]) != key by {
        assert(once[j] == entries[j]);
    }
    lemma_key_found(once, key, at);
    assert(registered(once, subscription) =~= once);
    assert(unregistered(once, subscription) =~= unregistered(entries, subscription));
}

/// The subscriptions of a stream manager, in the order in which their keys
/// were first registered. No key occurs twice.
#[derive(Debug)]
pub struct SubscriptionRegistry {
    entries: Vec<StreamSubscription>,
}

impl View for SubscriptionRegistry {
    type V = Seq<StreamSubscription>;

    closed spec fn view(&self) -> Seq<StreamSubscription> {
        self.entries@
    }
}

impl SubscriptionRegistry {
    #[verifier::type_invariant]
    spec fn keys_are_distinct(self) -> bool {
        distinct_keys(self.entries@)
    }

    pub fn new() -> (registry: SubscriptionRegistry)
        ensures
            registry@ == Seq::<StreamSubscription>::empty(),
    {
        SubscriptionRegistry { entries: Vec::new() }
    }

    pub fn len(&self) -> (count: usize)
        ensures
            count == self@.len(),
            distinct_keys(self@),
    {
        proof {
            use_type_invariant(self);
        }
        self.entries.len()
    }

    /// The subscription at `index`, in registration order.
    pub fn get(&self, index: usize) -> (subscription: &StreamSubscription)
        requires
            index < self@.len(),
        ensures
            *subscription == self@[index as int],
    {
        &self.entries[index]
    }

    /// Where the subscription with `key` stands, or `len()` where none does.
    pub fn position(&self, key: &String) -> (at: usize)
        ensures
            at == key_position(self@, key@),
            at <= self@.len(),
    {
        let mut at: usize = 0;
        while at < self.entries.len()
            invariant
                at <= self.entries@.len(),
                forall|j: int| 0 <= j < at ==> subscription_key(#[trigger] self.entries@[j]) != key@,
            decreases self.entries.len() - at,
        {
            let candidate = self.entries[at].key();
            if candidate == *key {
                proof {
                    lemma_key_found(self.entries@, key@, at as int);
                }
                return at;
            }
            at += 1;
        }
        proof {
            lemma_key_found(self.entries@, key@, at as int);
        }
        at
    }

    /// Whether a subscription with the key of `subscription` is registered.
    pub fn contains(&self, subscription: &StreamSubscription) -> (present: bool)
        ensures
            present == (key_position(self@, subscription_key(*subscription)) < self@.len()),
    {
        let key = subscription.key();
        self.position(&key) < self.entries.len()
    }

    /// Registers a subscription under its key. Registering a key again
    /// replaces the subscription and keeps its place.
    pub fn insert(&mut self, subscription: StreamSubscription)
        ensures
            final(self)@ == registered(old(self)@, subscription),
            distinct_keys(final(self)@),
    {
        proof {
            use_type_invariant(&*self);
            lemma_registry_keeps_distinct(self.entries@, subscription);
        }
        let key = subscription.key();
        let at = self.position(&key);
        let mut entries: Vec<StreamSubscription> = Vec::new();
        std::mem::swap(&mut self.entries, &mut entries);
        if at < entries.len() {
            entries.set(at, subscription);
        } else {
            entries.push(subscription);
        }
        self.entries = entries;
    }

    /// Takes out the subscription that holds the key of `subscription`, if
    /// there is one. Returns whether there was.
    pub fn remove(&mut self, subscription: &StreamSubscription) -> (removed: bool)
        ensures
            final(self)@ == unregistered(old(self)@, *subscription),
            removed == (key_position(old(self)@, subscription_key(*subscription)) < old(self)@.len()),
            distinct_keys(final(self)@),
    {
        proof {
            use_type_invariant(&*self);
            lemma_registry_keeps_distinct(self.entries@, *subscription);
        }
        let key = subscription.key();
        let at = self.position(&key);
        let mut entries: Vec<StreamSubscription> = Vec::new();
        std::mem::swap(&mut self.entries, &mut entries);
        let removed = at < entries.len();
        if removed {
            entries.remove(at);
        }
        self.entries = entries;
        removed
    }
}

} // verus!
