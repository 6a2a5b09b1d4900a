//! The stream manager for Binance: its endpoints, its timing and the names
//! of its streams.

use vstd::prelude::*;
use vstd::string::*;
use crate::connection::{
    ConnectionAction, ConnectionEvent, ConnectionStatus, ControlMessage, StreamMetrics,
};
use crate::errors::ExchangeError;
use crate::subscription::{registered, StreamSubscription, StreamType};
use crate::types::{Exchange, Symbol};
use crate::websocket::{url_parses, StreamManager, WebSocketConfig, WebSocketManager};

verus! {

/// What `str::to_lowercase` makes of a text.
pub uninterp spec fn lowercase_of(text: Seq<char>) -> Seq<char>;

/// Calls `str::to_lowercase`, which gives the lowercase equivalent of a
/// text by the Unicode property Lowercase. The contract only names it.
#[verifier::external_body]
fn to_lowercase(text: &str) -> (lowered: String)
    ensures
        lowered@ == lowercase_of(text@),
{
    text.to_lowercase()
}

/// The name of a subscription's stream, given its symbol in lowercase: the
/// symbol, `@` and the kind of stream; for candles the interval as well,
/// one minute where none is set. The user-data stream has one name for
/// every symbol.
pub open spec fn stream_name(lowered: Seq<char>, subscription: StreamSubscription) -> Seq<char> {
    match subscription.stream_type {
        StreamType::Trade => lowered + "@trade"@,
        StreamType::Quote => lowered + "@bookTicker"@,
        StreamType::OrderBook => lowered + "@depth"@,
        StreamType::Ticker => lowered + "@ticker"@,
        StreamType::Kline => lowered + "@kline_"@ + (match subscription.interval {
            Some(interval) => interval@,
            None => "1m"@,
        }),
        StreamType::UserData => "userData"@,
    }
}

/// The name of a subscription's stream, given its symbol in lowercase.
pub fn stream_name_of(lowered: &str, subscription: &StreamSubscription) -> (name: String)
    ensures
        name@ == stream_name(lowered@, *subscription),
{
    let mut name = String::from_str(lowered);
    match subscription.stream_type {
        StreamType::Trade => {
            name.append("@trade");
        },
        StreamType::Quote => {
            name.append("@bookTicker");
        },
        StreamType::OrderBook => {
            name.append("@depth");
        },
        StreamType::Ticker => {
            name.append("@ticker");
        },
        StreamType::Kline => {
            name.append("@kline_");
            match &subscription.interval {
                Some(interval) => {
                    name.append(interval.as_str());
                },
                None => {
                    name.append("1m");
                },
            }
        },
        StreamType::UserData => {
            return String::from_str("userData");
        },
    }
    name
}

/// The name of the stream that a subscription asks for: the symbol is put
/// in lowercase by `str::to_lowercase`, the rest is [`stream_name_of`].
pub fn binance_stream_name(subscription: &StreamSubscription) -> (name: String)
    ensures
        name@ == stream_name(lowercase_of(subscription.symbol@), *subscription),
{
    let lowered = to_lowercase(subscription.symbol.as_str());
    stream_name_of(lowered.as_str(), subscription)
}

/// `names` joined by `/`.
pub open spec fn joined(names: Seq<String>) -> Seq<char>
    decreases names.len(),
{
    if names.len() == 0 {
        Seq::empty()
    } else if names.len() == 1 {
        names[0]@
    } else {
        joined(names.drop_last()) + "/"@ + names.last()@
    }
}

/// Endpoint of single streams.
pub open spec fn stream_endpoint(testnet: bool) -> Seq<char> {
    if testnet {
        "wss://testnet.binance.vision/ws"@
    } else {
        "wss://stream.binance.com:9443/ws"@
    }
}

/// Endpoint of combined streams.
pub open spec fn combined_endpoint(testnet: bool) -> Seq<char> {
    if testnet {
        "wss://testnet.binance.vision/stream"@
    } else {
        "wss://stream.binance.com:9443/stream"@
    }
}

/// Whether `subscription` asks for one kind of stream of a symbol: candles
/// come in minutes, and the user-data stream has no symbol.
pub open spec fn asks_for(
    subscription: StreamSubscription,
    symbol: Symbol,
    stream_type: StreamType,
) -> bool {
    &&& subscription.stream_type == stream_type
    &&& subscription.symbol@ == (if stream_type == StreamType::UserData {
        Seq::<char>::empty()
    } else {
        symbol@
    })
    &&& match subscription.interval {
        Some(interval) => stream_type == StreamType::Kline && interval@ == "1m"@,
        None => stream_type != StreamType::Kline,
    }
}

/// The subscription that asks for one kind of stream of a symbol.
pub fn subscription_for(symbol: Symbol, stream_type: StreamType) -> (subscription:
    StreamSubscription)
    ensures
        asks_for(subscription, symbol, stream_type),
{
    match stream_type {
        StreamType::Trade => StreamSubscription::trade(symbol),
        StreamType::Quote => StreamSubscription::quote(symbol),
        StreamType::OrderBook => StreamSubscription::orderbook(symbol),
        StreamType::Ticker => StreamSubscription::ticker(symbol),
        StreamType::Kline => StreamSubscription::kline(symbol, String::from_str("1m")),
        StreamType::UserData => StreamSubscription::user_data(),
    }
}

/// Whether `actions` send one subscription per symbol, in the order of the
/// symbols.
pub open spec fn sends_each(
    actions: Seq<ConnectionAction>,
    symbols: Seq<Symbol>,
    stream_type: StreamType,
) -> bool {
    &&& actions.len() == symbols.len()
    &&& forall|i: int|
        0 <= i < actions.len() ==> (#[trigger] actions[i] matches ConnectionAction::Subscribe(
            sent,
        ) && asks_for(sent, symbols[i], stream_type))
}

/// Whether `after` is what `before` becomes when one subscription per
/// symbol is registered, in the order of the symbols.
pub open spec fn covers(
    before: Seq<StreamSubscription>,
    after: Seq<StreamSubscription>,
    symbols: Seq<Symbol>,
    stream_type: StreamType,
) -> bool
    decreases symbols.len(),
{
    if symbols.len() == 0 {
        after == before
    } else {
        exists|middle: Seq<StreamSubscription>, subscription: StreamSubscription|
            #![trigger registered(middle, subscription)]
            covers(before, middle, symbols.drop_last(), stream_type) && asks_for(
                subscription,
                symbols.last(),
                stream_type,
            ) && after == registered(middle, subscription)
    }
}

/// Stream manager for Binance.
#[derive(Debug)]
pub struct BinanceWebSocketManager {
    inner: WebSocketManager,
    testnet: bool,
}

impl BinanceWebSocketManager {
    /// The manager that does the work.
    pub closed spec fn manager(&self) -> WebSocketManager {
        self.inner
    }

    pub closed spec fn testnet(&self) -> bool {
        self.testnet
    }

    /// A manager for the test network or the live one. Binance wants a ping
    /// every three minutes.
    pub fn new(testnet: bool) -> (manager: BinanceWebSocketManager)
        ensures
            manager.testnet() == testnet,
            manager.manager().config().base_url@ == stream_endpoint(testnet),
            manager.manager().config().ping_interval_ms == 180_000,
            manager.manager().config().reconnect_interval_ms == 5_000,
            manager.manager().config().max_reconnect_attempts == 10,
            manager.manager().config().message_timeout_ms == 30_000,
            manager.manager().config().buffer_size == 1000,
            manager.manager().config().enable_compression,
            manager.manager().exchange() == Exchange::Binance,
            manager.manager().subscriptions() == Seq::<StreamSubscription>::empty(),
            manager.manager().metrics() == StreamMetrics::zero(),
            manager.manager().connection() is None,
    {
        let base_url = if testnet {
            String::from_str("wss://testnet.binance.vision/ws")
        } else {
            String::from_str("wss://stream.binance.com:9443/ws")
        };
        let config = WebSocketConfig {
            base_url,
            ping_interval_ms: 180_000,
            reconnect_interval_ms: 5_000,
            max_reconnect_attempts: 10,
            message_timeout_ms: 30_000,
            buffer_size: 1000,
            enable_compression: true,
        };
        BinanceWebSocketManager { inner: WebSocketManager::new(config, Exchange::Binance), testnet }
    }

    pub fn is_testnet(&self) -> (testnet: bool)
        ensures
            testnet == self.testnet(),
    {
        self.testnet
    }

    /// The name of the stream that a subscription asks for: the symbol is
    /// put in lowercase by `str::to_lowercase`, the rest is
    /// [`stream_name_of`].
    pub fn create_binance_subscription(&self, subscription: &StreamSubscription) -> (name: String)
        ensures
            name@ == stream_name(lowercase_of(subscription.symbol@), *subscription),
    {
        binance_stream_name(subscription)
    }

    /// The URL that serves the named streams combined.
    pub fn get_combined_stream_url(&self, subscriptions: &Vec<String>) -> (url: String)
        ensures
            url@ == combined_endpoint(self.testnet()) + "?streams="@ + joined(subscriptions@),
    {
        let mut url = if self.testnet {
            String::from_str("wss://testnet.binance.vision/stream")
        } else {
            String::from_str("wss://stream.binance.com:9443/stream")
        };
        url.append("?streams=");
        let ghost head = url@;
        let mut i: usize = 0;
        proof {
            assert(subscriptions@.take(0) =~= Seq::<String>::empty());
            assert(head + joined(subscriptions@.take(0)) =~= head);
        }
        while i < subscriptions.len()
            invariant
                i <= subscriptions.len(),
                url@ == head + joined(subscriptions@.take(i as int)),
            decreases subscriptions.len() - i,
        {
            proof {
                let next = subscriptions@.take(i + 1);
                assert(next.drop_last() =~= subscriptions@.take(i as int));
                assert(next.last() == subscriptions@[i as int]);
                if i == 0 {
                    assert(joined(next) == subscriptions@[0]@);
                    assert(joined(subscriptions@.take(0)) =~= Seq::<char>::empty());
                    assert(head + joined(next) =~= url@ + subscriptions@[0]@);
                } else {
                    assert(head + joined(next) =~= url@ + "/"@ + subscriptions@[i as int]@);
                }
            }
            if i > 0 {
                url.append("/");
            }
            url.append(subscriptions[i].as_str());
            i += 1;
        }
        proof {
            assert(subscriptions@.take(i as int) =~= subscriptions@);
        }
        url
    }

    /// Starts the stream; see [`WebSocketManager::start`].
    pub fn start(&mut self) -> (started: Result<Vec<ConnectionAction>, ExchangeError>)
        ensures
            final(self).testnet() == old(self).testnet(),
            old(self).manager().start_outcome(
                &final(self).manager(),
                url_parses(old(self).manager().config().base_url@),
                started,
            ),
    {
        self.inner.start()
    }

    /// Stops the stream; see [`WebSocketManager::stop`].
    pub fn stop(&mut self) -> (actions: Vec<ConnectionAction>)
        ensures
            final(self).testnet() == old(self).testnet(),
            old(self).manager().stop_outcome(&final(self).manager(), actions@),
    {
        self.inner.stop()
    }

    /// Hands an event to the connection; see
    /// [`WebSocketManager::handle_event`].
    pub fn handle_event(&mut self, event: ConnectionEvent) -> (actions: Vec<ConnectionAction>)
        ensures
            final(self).testnet() == old(self).testnet(),
            old(self).manager().stepped(&final(self).manager(), event, actions@),
    {
        self.inner.handle_event(event)
    }

    /// Registers a subscription; see [`WebSocketManager::subscribe`].
    pub fn subscribe(&mut self, subscription: StreamSubscription) -> (sent: Result<
        Vec<ConnectionAction>,
        ExchangeError,
    >)
        ensures
            final(self).testnet() == old(self).testnet(),
            old(self).manager().command_outcome(
                &final(self).manager(),
                ControlMessage::Subscribe(subscription),
                sent,
            ),
    {
        self.inner.subscribe(subscription)
    }

    /// Takes a subscription out; see [`WebSocketManager::unsubscribe`].
    pub fn unsubscribe(&mut self, subscription: StreamSubscription) -> (sent: Result<
        Vec<ConnectionAction>,
        ExchangeError,
    >)
        ensures
            final(self).testnet() == old(self).testnet(),
            old(self).manager().command_outcome(
                &final(self).manager(),
                ControlMessage::Unsubscribe(subscription),
                sent,
            ),
    {
        self.inner.unsubscribe(subscription)
    }

    /// Subscribes to one kind of stream for each of the symbols, in order.
    ///
    /// Where the manager is not started or its connection has ended, the
    /// first subscription fails, its error is returned and nothing changes.
    /// Otherwise every symbol gets its subscription, each taking the key's
    /// place in the registry or a new last place, and the actions of all of
    /// them come back in order: one frame per symbol while the connection
    /// is up, none while it is down.
    pub fn subscribe_symbols(&mut self, symbols: Vec<Symbol>, stream_type: StreamType) -> (sent:
        Result<Vec<ConnectionAction>, ExchangeError>)
        ensures
            final(self).testnet() == old(self).testnet(),
            final(self).manager().config() == old(self).manager().config(),
            final(self).manager().metrics() == old(self).manager().metrics(),
            final(self).manager().connection() == old(self).manager().connection(),
            symbols@.len() == 0 ==> (sent matches Ok(actions) && actions@.len() == 0),
            symbols@.len() > 0 ==> (match old(self).manager().connection() {
                Some(connection) if !connection.spec_is_over() => {
                    &&& sent matches Ok(actions) && (if connection.spec_status()
                        == ConnectionStatus::Connected {
                        sends_each(actions@, symbols@, stream_type)
                    } else {
                        actions@.len() == 0
                    })
                    &&& covers(
                        old(self).manager().subscriptions(),
                        final(self).manager().subscriptions(),
                        symbols@,
                        stream_type,
                    )
                },
                _ => sent is Err && final(self).manager().subscriptions()
                    == old(self).manager().subscriptions(),
            }),
    {
        let mut actions: Vec<ConnectionAction> = Vec::new();
        let mut rest = symbols;
        let ghost all = rest@;
        let ghost mut done: int = 0;
        proof {
            assert(all.take(0) =~= Seq::<Symbol>::empty());
        }
        while rest.len() > 0
            invariant
                0 <= done <= all.len(),
                all == symbols@,
                rest@ == all.skip(done),
                self.testnet() == old(self).testnet(),
                self.manager().config() == old(self).manager().config(),
                self.manager().metrics() == old(self).manager().metrics(),
                self.manager().connection() == old(self).manager().connection(),
                done == 0 ==> self.manager().subscriptions() == old(self).manager().subscriptions(),
                done > 0 ==> (old(self).manager().connection() matches Some(connection)
                    && !connection.spec_is_over()),
                covers(
                    old(self).manager().subscriptions(),
                    self.manager().subscriptions(),
                    all.take(done),
                    stream_type,
                ),
                if self.manager().status() == ConnectionStatus::Connected {
                    sends_each(actions@, all.take(done), stream_type)
                } else {
                    actions@.len() == 0
                },
            decreases rest.len(),
        {
            let symbol = rest.remove(0);
            let subscription = subscription_for(symbol, stream_type);
            let ghost sent_before = actions@;
            match self.inner.subscribe(subscription) {
                Ok(mut more) => {
                    actions.append(&mut more);
                },
                Err(error) => {
                    return Err(error);
                },
            }
            proof {
                let next = all.take(done + 1);
                assert(next.drop_last() =~= all.take(done));
                assert(next.last() == symbol);
                assert(rest@ =~= all.skip(done + 1));
                if self.manager().status() == ConnectionStatus::Connected {
                    assert(actions@ =~= sent_before.push(ConnectionAction::Subscribe(subscription)));
                    assert forall|i: int| 0 <= i < actions@.len() implies (
                    #[trigger] actions@[i] matches ConnectionAction::Subscribe(sent) && asks_for(
                        sent,
                        next[i],
                        stream_type,
                    )) by {
                        if i < done {
                            assert(actions@[i] == sent_before[i]);
                            assert(next[i] == all.take(done)[i]);
                        }
                    }
                }
                done = done + 1;
            }
        }
        proof {
            assert(all.take(done) =~= all);
        }
        Ok(actions)
    }

    /// The last time at which no frame is overdue yet; see
    /// [`WebSocketManager::frame_deadline`].
    pub fn frame_deadline(&self) -> (deadline: Option<u64>)
        ensures
            deadline == (match self.manager().connection() {
                Some(connection) => connection.spec_frame_deadline(),
                None => None,
            }),
    {
        self.inner.frame_deadline()
    }

    pub fn get_status(&self) -> (status: ConnectionStatus)
        ensures
            status == self.manager().status(),
    {
        self.inner.get_status()
    }

    pub fn get_metrics(&self) -> (metrics: StreamMetrics)
        ensures
            metrics == self.manager().metrics(),
    {
        self.inner.get_metrics()
    }

    pub fn subscription_count(&self) -> (count: usize)
        ensures
            count == self.manager().subscriptions().len(),
    {
        self.inner.subscription_count()
    }
}

impl StreamManager for BinanceWebSocketManager {
    fn subscribe(&mut self, subscription: StreamSubscription) -> (sent: Result<
        Vec<ConnectionAction>,
        ExchangeError,
    >)
        ensures
            final(self).testnet() == old(self).testnet(),
            old(self).manager().command_outcome(
                &final(self).manager(),
                ControlMessage::Subscribe(subscription),
                sent,
            ),
    {
        BinanceWebSocketManager::subscribe(self, subscription)
    }

    fn unsubscribe(&mut self, subscription: StreamSubscription) -> (sent: Result<
        Vec<ConnectionAction>,
        ExchangeError,
    >)
        ensures
            final(self).testnet() == old(self).testnet(),
            old(self).manager().command_outcome(
                &final(self).manager(),
                ControlMessage::Unsubscribe(subscription),
                sent,
            ),
    {
        BinanceWebSocketManager::unsubscribe(self, subscription)
    }

    fn get_status(&self) -> (status: ConnectionStatus)
        ensures
            status == self.manager().status(),
    {
        BinanceWebSocketManager::get_status(self)
    }

    fn get_metrics(&self) -> (metrics: StreamMetrics)
        ensures
            metrics == self.manager().metrics(),
    {
        BinanceWebSocketManager::get_metrics(self)
    }

    fn start(&mut self) -> (started: Result<Vec<ConnectionAction>, ExchangeError>)
        ensures
            final(self).testnet() == old(self).testnet(),
            old(self).manager().start_outcome(
                &final(self).manager(),
                url_parses(old(self).manager().config().base_url@),
                started,
            ),
    {
        BinanceWebSocketManager::start(self)
    }

    fn stop(&mut self) -> (actions: Vec<ConnectionAction>)
        ensures
            final(self).testnet() == old(self).testnet(),
            old(self).manager().stop_outcome(&final(self).manager(), actions@),
    {
        BinanceWebSocketManager::stop(self)
    }
}

} // verus!
