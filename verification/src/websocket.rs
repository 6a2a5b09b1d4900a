//! The stream manager: what callers use to start and stop a stream, to
//! subscribe, and to learn how the stream is doing.
//!
//! The manager owns the subscriptions and the counters, which outlive any
//! single connection, and the state of the connection while there is one.
//! It does no I/O: calls that concern the connection return the actions
//! that the runner of the connection is to perform.

use vstd::prelude::*;
use vstd::string::*;
use crate::connection::{
    bumped, ConnectionAction, ConnectionEvent, ConnectionStatus, ControlMessage, StreamConnection,
    StreamMetrics,
};
use crate::errors::ExchangeError;
use crate::subscription::{StreamSubscription, SubscriptionRegistry};
use crate::types::{Exchange, UniversalMarketData};

verus! {

/// Whether `url::Url::parse` accepts a text as an absolute URL.
pub uninterp spec fn url_parses(text: Seq<char>) -> bool;

/// Calls `url::Url::parse` and says whether it returned a URL. The contract
/// only names the answer.
#[verifier::external_body]
fn parses_as_url(text: &str) -> (accepted: bool)
    ensures
        accepted == url_parses(text@),
{
    url::Url::parse(text).is_ok()
}

/// Settings of a stream. Times are in milliseconds.
#[derive(Debug, Clone)]
pub struct WebSocketConfig {
    pub base_url: String,
    /// Period of the keepalive ping.
    pub ping_interval_ms: u64,
    /// Wait before a reconnect.
    pub reconnect_interval_ms: u64,
    /// Failed attempts to open the transport after which the connection
    /// gives up.
    pub max_reconnect_attempts: u32,
    /// Longest wait for a frame.
    pub message_timeout_ms: u64,
    /// Events that the fan-out channel holds for a receiver that lags.
    pub buffer_size: usize,
    /// Passed through to the transport.
    pub enable_compression: bool,
}

impl Default for WebSocketConfig {
    fn default() -> (config: WebSocketConfig)
        ensures
            config.base_url@ == "wss://stream.binance.com:9443/ws"@,
            config.ping_interval_ms == 30_000,
            config.reconnect_interval_ms == 5_000,
            config.max_reconnect_attempts == 10,
            config.message_timeout_ms == 30_000,
            config.buffer_size == 1000,
            config.enable_compression,
    {
        WebSocketConfig {
            base_url: String::from_str("wss://stream.binance.com:9443/ws"),
            ping_interval_ms: 30_000,
            reconnect_interval_ms: 5_000,
            max_reconnect_attempts: 10,
            message_timeout_ms: 30_000,
            buffer_size: 1000,
            enable_compression: true,
        }
    }
}

impl WebSocketConfig {
    /// A copy of the settings.
    pub fn duplicate(&self) -> (copy: WebSocketConfig)
        ensures
            copy == *self,
    {
        WebSocketConfig {
            base_url: self.base_url.clone(),
            ping_interval_ms: self.ping_interval_ms,
            reconnect_interval_ms: self.reconnect_interval_ms,
            max_reconnect_attempts: self.max_reconnect_attempts,
            message_timeout_ms: self.message_timeout_ms,
            buffer_size: self.buffer_size,
            enable_compression: self.enable_compression,
        }
    }

    /// The error for a frame that did not arrive within the message timeout.
    pub fn timeout_error(&self) -> (error: ExchangeError)
        ensures
            error == (ExchangeError::Timeout { seconds: self.message_timeout_ms / 1000 }),
    {
        ExchangeError::Timeout { seconds: self.message_timeout_ms / 1000 }
    }
}

/// The reader of an exchange's frames: the one part of a stream that knows
/// the exchange's wire format. A manager is handed the normalizer of its
/// exchange together with each frame.
pub trait MarketDataNormalizer {
    /// Reads one raw frame: an event, nothing for a frame that carries
    /// none, or the reason why the frame cannot be read.
    fn normalize(&self, raw: &[u8]) -> Result<Option<UniversalMarketData>, ExchangeError>;

    /// Name of the exchange whose frames this normalizer reads.
    fn exchange_name(&self) -> &str;
}

/// What every stream manager offers, whatever the exchange. Calls that
/// concern the connection return the actions that its runner is to perform.
pub trait StreamManager {
    /// Registers a subscription.
    fn subscribe(&mut self, subscription: StreamSubscription) -> Result<
        Vec<ConnectionAction>,
        ExchangeError,
    >;

    /// Takes a subscription out of the registry.
    fn unsubscribe(&mut self, subscription: StreamSubscription) -> Result<
        Vec<ConnectionAction>,
        ExchangeError,
    >;

    /// The status of the connection.
    fn get_status(&self) -> ConnectionStatus;

    /// The counters of the stream.
    fn get_metrics(&self) -> StreamMetrics;

    /// Starts the stream.
    fn start(&mut self) -> Result<Vec<ConnectionAction>, ExchangeError>;

    /// Stops the stream.
    fn stop(&mut self) -> Vec<ConnectionAction>;
}

/// The event of a frame that arrived at `received_at` and was read with
/// `outcome`.
pub open spec fn frame_event(
    received_at: u64,
    outcome: Result<Option<UniversalMarketData>, ExchangeError>,
) -> ConnectionEvent {
    ConnectionEvent::Frame { received_at, outcome }
}

/// Why a start is refused, if it is.
#[derive(Debug, Clone, Copy, PartialEq, Eq, Structural)]
pub enum StartRefusal {
    AlreadyStarted,
    InvalidUrl,
    NoBuffer,
    BufferTooLarge,
}

/// Manager of one stream.
#[derive(Debug)]
pub struct WebSocketManager {
    config: WebSocketConfig,
    exchange: Exchange,
    subscriptions: SubscriptionRegistry,
    metrics: StreamMetrics,
    connection: Option<StreamConnection>,
}

impl WebSocketManager {
    pub closed spec fn config(&self) -> WebSocketConfig {
        self.config
    }

    pub closed spec fn exchange(&self) -> Exchange {
        self.exchange
    }

    /// The registered subscriptions, in registration order.
    pub closed spec fn subscriptions(&self) -> Seq<StreamSubscription> {
        self.subscriptions@
    }

    pub closed spec fn metrics(&self) -> StreamMetrics {
        self.metrics
    }

    /// The connection, from start to stop.
    pub closed spec fn connection(&self) -> Option<StreamConnection> {
        self.connection
    }

    /// The status that callers see: that of the connection, `Disconnected`
    /// while there is none.
    pub open spec fn status(&self) -> ConnectionStatus {
        match self.connection() {
            Some(connection) => connection.spec_status(),
            None => ConnectionStatus::Disconnected,
        }
    }

    /// The connection that a start creates.
    pub open spec fn fresh_connection(&self) -> StreamConnection {
        StreamConnection {
            phase: crate::connection::ConnectionPhase::Idle,
            attempts: 0,
            max_reconnect_attempts: self.config().max_reconnect_attempts,
            reconnect_interval_ms: self.config().reconnect_interval_ms,
            ping_interval_ms: self.config().ping_interval_ms,
            message_timeout_ms: self.config().message_timeout_ms,
            silent_since: None,
        }
    }

    /// Why a start would be refused: the manager is started already, the
    /// URL is not accepted, the buffer holds no event, or the buffer is
    /// larger than half the address space.
    pub open spec fn start_refusal(&self, url_accepted: bool) -> Option<StartRefusal> {
        if self.connection() is Some {
            Some(StartRefusal::AlreadyStarted)
        } else if !url_accepted {
            Some(StartRefusal::InvalidUrl)
        } else if self.config().buffer_size == 0 {
            Some(StartRefusal::NoBuffer)
        } else if self.config().buffer_size > usize::MAX / 2 {
            Some(StartRefusal::BufferTooLarge)
        } else {
            None
        }
    }

    /// Whether `after` and `actions` are what an event makes of this
    /// manager. A manager with a connection hands the event to it; in a
    /// manager without one nothing happens.
    pub open spec fn stepped(
        &self,
        after: &WebSocketManager,
        event: ConnectionEvent,
        actions: Seq<ConnectionAction>,
    ) -> bool {
        &&& after.config() == self.config()
        &&& after.exchange() == self.exchange()
        &&& match self.connection() {
            Some(connection) => {
                &&& after.connection() == Some(connection.after(event))
                &&& after.metrics() == connection.metrics_after(self.metrics(), event)
                &&& after.subscriptions() == connection.registry_after(self.subscriptions(), event)
                &&& actions == connection.actions(event, self.subscriptions())
            },
            None => {
                &&& after.connection() is None
                &&& after.metrics() == self.metrics()
                &&& after.subscriptions() == self.subscriptions()
                &&& actions == Seq::<ConnectionAction>::empty()
            },
        }
    }

    /// What a refusal says.
    pub open spec fn refusal_text(refusal: StartRefusal) -> Seq<char> {
        match refusal {
            StartRefusal::AlreadyStarted => "Stream manager already started"@,
            StartRefusal::InvalidUrl => "Invalid WebSocket URL"@,
            StartRefusal::NoBuffer => "Buffer size must be positive"@,
            StartRefusal::BufferTooLarge => "Buffer size is too large"@,
        }
    }

    /// Whether `after` and `started` are what a start makes of this
    /// manager, given whether its URL is accepted. A refused start changes
    /// nothing and fails with `InvalidRequest`. An accepted start creates
    /// the connection, which begins to open the transport: the one action
    /// is `Open`.
    pub open spec fn start_outcome(
        &self,
        after: &WebSocketManager,
        url_accepted: bool,
        started: Result<Vec<ConnectionAction>, ExchangeError>,
    ) -> bool {
        &&& after.config() == self.config()
        &&& after.exchange() == self.exchange()
        &&& after.subscriptions() == self.subscriptions()
        &&& after.metrics() == self.metrics()
        &&& match self.start_refusal(url_accepted) {
            Some(refusal) => {
                &&& after.connection() == self.connection()
                &&& started matches Err(ExchangeError::InvalidRequest { details })
                &&& details@ == Self::refusal_text(refusal)
            },
            None => {
                &&& after.connection() == Some(
                    self.fresh_connection().after(ConnectionEvent::Started),
                )
                &&& after.status() == ConnectionStatus::Connecting
                &&& started matches Ok(actions)
                &&& actions@ == seq![ConnectionAction::Open]
            },
        }
    }

    /// Whether `after` and `actions` are what a stop makes of this manager:
    /// the connection is shut down and forgotten, the status is
    /// `Disconnected` again, subscriptions and counters stay. The actions
    /// are those of the shutdown; none where the manager was not started.
    pub open spec fn stop_outcome(
        &self,
        after: &WebSocketManager,
        actions: Seq<ConnectionAction>,
    ) -> bool {
        &&& after.connection() is None
        &&& after.status() == ConnectionStatus::Disconnected
        &&& after.config() == self.config()
        &&& after.exchange() == self.exchange()
        &&& after.subscriptions() == self.subscriptions()
        &&& after.metrics() == self.metrics()
        &&& actions == (match self.connection() {
            Some(connection) => connection.actions(
                ConnectionEvent::Command(ControlMessage::Shutdown),
                self.subscriptions(),
            ),
            None => seq![],
        })
    }

    /// Whether `after` and `sent` are what a command makes of this manager.
    /// Without a connection the command fails with `Connection`, with a
    /// connection that has ended it fails with `Internal`, and nothing
    /// changes. Otherwise the connection takes the command as an event.
    pub open spec fn command_outcome(
        &self,
        after: &WebSocketManager,
        command: ControlMessage,
        sent: Result<Vec<ConnectionAction>, ExchangeError>,
    ) -> bool {
        &&& after.config() == self.config()
        &&& after.exchange() == self.exchange()
        &&& match self.connection() {
            None => {
                &&& after.connection() is None
                &&& after.metrics() == self.metrics()
                &&& after.subscriptions() == self.subscriptions()
                &&& sent matches Err(ExchangeError::Connection { message })
                &&& message@ == "Stream manager not started"@
            },
            Some(connection) => if connection.spec_is_over() {
                &&& after.connection() == self.connection()
                &&& after.metrics() == self.metrics()
                &&& after.subscriptions() == self.subscriptions()
                &&& sent matches Err(ExchangeError::Internal { message })
                &&& message@ == "Failed to send command"@
            } else {
                &&& sent matches Ok(actions)
                &&& self.stepped(after, ConnectionEvent::Command(command), actions@)
            },
        }
    }

    /// A manager that is not started, without subscriptions, with all
    /// counters at zero.
    pub fn new(config: WebSocketConfig, exchange: Exchange) -> (manager: WebSocketManager)
        ensures
            manager.config() == config,
            manager.exchange() == exchange,
            manager.subscriptions() == Seq::<StreamSubscription>::empty(),
            manager.metrics() == StreamMetrics::zero(),
            manager.connection() is None,
    {
        WebSocketManager {
            config,
            exchange,
            subscriptions: SubscriptionRegistry::new(),
            metrics: StreamMetrics::default(),
            connection: None,
        }
    }

    /// Starts the stream, given whether the URL of the configuration is
    /// accepted. A refused start changes nothing and fails with
    /// `InvalidRequest`. An accepted start creates the connection, which
    /// begins to open the transport: the one action is `Open`.
    pub fn start_with(&mut self, url_accepted: bool) -> (started: Result<
        Vec<ConnectionAction>,
        ExchangeError,
    >)
        ensures
            old(self).start_outcome(final(self), url_accepted, started),
    {
        if self.connection.is_some() {
            return Err(
                ExchangeError::InvalidRequest {
                    details: String::from_str("Stream manager already started"),
                },
            );
        }
        if !url_accepted {
            return Err(
                ExchangeError::InvalidRequest { details: String::from_str("Invalid WebSocket URL") },
            );
        }
        if self.config.buffer_size == 0 {
            return Err(
                ExchangeError::InvalidRequest {
                    details: String::from_str("Buffer size must be positive"),
                },
            );
        }
        if self.config.buffer_size > usize::MAX / 2 {
            return Err(
                ExchangeError::InvalidRequest {
                    details: String::from_str("Buffer size is too large"),
                },
            );
        }
        let mut connection = StreamConnection::new(
            self.config.max_reconnect_attempts,
            self.config.reconnect_interval_ms,
            self.config.ping_interval_ms,
            self.config.message_timeout_ms,
        );
        let actions = connection.handle(
            ConnectionEvent::Started,
            &mut self.subscriptions,
            &mut self.metrics,
        );
        self.connection = Some(connection);
        Ok(actions)
    }

    /// Starts the stream. The URL of the configuration is put to
    /// `url::Url::parse`; the rest is [`WebSocketManager::start_with`].
    pub fn start(&mut self) -> (started: Result<Vec<ConnectionAction>, ExchangeError>)
        ensures
            old(self).start_outcome(
                final(self),
                url_parses(old(self).config().base_url@),
                started,
            ),
    {
        let url_accepted = parses_as_url(self.config.base_url.as_str());
        self.start_with(url_accepted)
    }

    /// Stops the stream: the connection is shut down and forgotten, and the
    /// status is `Disconnected` again. Subscriptions and counters stay. The
    /// actions are those of the shutdown; none where the manager was not
    /// started.
    pub fn stop(&mut self) -> (actions: Vec<ConnectionAction>)
        ensures
            old(self).stop_outcome(final(self), actions@),
    {
        let actions = match self.connection {
            Some(mut connection) => connection.handle(
                ConnectionEvent::Command(ControlMessage::Shutdown),
                &mut self.subscriptions,
                &mut self.metrics,
            ),
            None => Vec::new(),
        };
        self.connection = None;
        actions
    }

    /// Hands an event to the connection and returns what the runner is to
    /// do. Without a connection nothing happens.
    pub fn handle_event(&mut self, event: ConnectionEvent) -> (actions: Vec<ConnectionAction>)
        ensures
            old(self).stepped(final(self), event, actions@),
    {
        match self.connection {
            Some(mut connection) => {
                let actions = connection.handle(event, &mut self.subscriptions, &mut self.metrics);
                self.connection = Some(connection);
                actions
            },
            None => Vec::new(),
        }
    }

    /// Puts a raw frame that arrived at `received_at` through the
    /// normalizer and hands the outcome to the connection as a `Frame`
    /// event. What the normalizer answers is its own affair: the contract
    /// holds for whatever it answers.
    pub fn handle_frame<N: MarketDataNormalizer>(
        &mut self,
        normalizer: &N,
        raw: &[u8],
        received_at: u64,
    ) -> (actions: Vec<ConnectionAction>)
        ensures
            exists|outcome: Result<Option<UniversalMarketData>, ExchangeError>|
                old(self).stepped(
                    final(self),
                    #[trigger] frame_event(received_at, outcome),
                    actions@,
                ),
    {
        let outcome = normalizer.normalize(raw);
        let ghost seen = outcome;
        let actions = self.handle_event(ConnectionEvent::Frame { received_at, outcome });
        proof {
            assert(old(self).stepped(&*self, frame_event(received_at, seen), actions@));
        }
        actions
    }

    /// Hands a command to the connection. Fails with `Connection` where the
    /// manager is not started and with `Internal` where the connection has
    /// ended; nothing changes then.
    fn command(&mut self, command: ControlMessage) -> (sent: Result<
        Vec<ConnectionAction>,
        ExchangeError,
    >)
        ensures
            old(self).command_outcome(final(self), command, sent),
    {
        match self.connection {
            None => Err(
                ExchangeError::Connection {
                    message: String::from_str("Stream manager not started"),
                },
            ),
            Some(mut connection) => {
                if connection.is_over() {
                    return Err(
                        ExchangeError::Internal {
                            message: String::from_str("Failed to send command"),
                        },
                    );
                }
                let actions = connection.handle(
                    ConnectionEvent::Command(command),
                    &mut self.subscriptions,
                    &mut self.metrics,
                );
                self.connection = Some(connection);
                Ok(actions)
            },
        }
    }

    /// Registers a subscription. It is sent at once where the connection is
    /// up, and again after every reconnect. Fails with `Connection` where
    /// the manager is not started and with `Internal` where the connection
    /// has ended; nothing changes then.
    pub fn subscribe(&mut self, subscription: StreamSubscription) -> (sent: Result<
        Vec<ConnectionAction>,
        ExchangeError,
    >)
        ensures
            old(self).command_outcome(final(self), ControlMessage::Subscribe(subscription), sent),
    {
        self.command(ControlMessage::Subscribe(subscription))
    }

    /// Takes a subscription out of the registry. Where the connection is up,
    /// the unsubscribe frame is sent. Fails as
    /// [`WebSocketManager::subscribe`] does.
    pub fn unsubscribe(&mut self, subscription: StreamSubscription) -> (sent: Result<
        Vec<ConnectionAction>,
        ExchangeError,
    >)
        ensures
            old(self).command_outcome(
                final(self),
                ControlMessage::Unsubscribe(subscription),
                sent,
            ),
    {
        self.command(ControlMessage::Unsubscribe(subscription))
    }

    /// Asks a connection that is up to drop its transport and connect
    /// again. In every other phase the command changes nothing. Fails as
    /// [`WebSocketManager::subscribe`] does.
    pub fn reconnect(&mut self) -> (sent: Result<Vec<ConnectionAction>, ExchangeError>)
        ensures
            old(self).command_outcome(final(self), ControlMessage::Reconnect, sent),
    {
        self.command(ControlMessage::Reconnect)
    }

    pub fn get_status(&self) -> (status: ConnectionStatus)
        ensures
            status == self.status(),
    {
        match self.connection {
            Some(connection) => connection.status(),
            None => ConnectionStatus::Disconnected,
        }
    }

    pub fn get_metrics(&self) -> (metrics: StreamMetrics)
        ensures
            metrics == self.metrics(),
    {
        self.metrics
    }

    /// The last time at which no frame is overdue yet: the time at which
    /// the transport was opened or the last frame arrived, and the message
    /// timeout. None while no transport is open. The runner hands in
    /// `Tick` once the clock is past it.
    pub fn frame_deadline(&self) -> (deadline: Option<u64>)
        ensures
            deadline == (match self.connection() {
                Some(connection) => connection.spec_frame_deadline(),
                None => None,
            }),
    {
        match self.connection {
            Some(connection) => connection.frame_deadline(),
            None => None,
        }
    }

    /// Whether a frame is overdue at the time `now`; see
    /// [`StreamConnection::is_overdue`].
    pub fn is_frame_overdue(&self, now: u64) -> (overdue: bool)
        ensures
            overdue == (self.connection() matches Some(connection) && connection.spec_overdue(
                now,
            )),
    {
        match self.connection {
            Some(connection) => connection.is_overdue(now),
            None => false,
        }
    }

    /// Counts a gap in the update sequence of an order book that this
    /// stream feeds.
    pub fn record_data_gap(&mut self)
        ensures
            final(self).config() == old(self).config(),
            final(self).exchange() == old(self).exchange(),
            final(self).subscriptions() == old(self).subscriptions(),
            final(self).connection() == old(self).connection(),
            final(self).metrics() == (StreamMetrics {
                data_gaps: bumped(old(self).metrics().data_gaps),
                ..old(self).metrics()
            }),
    {
        if self.metrics.data_gaps < u64::MAX {
            self.metrics.data_gaps = self.metrics.data_gaps + 1;
        }
    }

    /// Takes note of what became of an event that was routed to the order
    /// books: a refusal for a gap in the update sequence is counted as a
    /// data gap, anything else changes nothing.
    pub fn note_routing(&mut self, routed: &Option<Result<(), ExchangeError>>)
        ensures
            final(self).config() == old(self).config(),
            final(self).exchange() == old(self).exchange(),
            final(self).subscriptions() == old(self).subscriptions(),
            final(self).connection() == old(self).connection(),
            final(self).metrics() == (if routed matches Some(Err(error)) && error is SequenceGap {
                StreamMetrics {
                    data_gaps: bumped(old(self).metrics().data_gaps),
                    ..old(self).metrics()
                }
            } else {
                old(self).metrics()
            }),
    {
        match routed {
            Some(Err(error)) => {
                if error.is_sequence_gap() {
                    self.record_data_gap();
                }
            },
            _ => {},
        }
    }

    pub fn get_config(&self) -> (config: &WebSocketConfig)
        ensures
            *config == self.config(),
    {
        &self.config
    }

    pub fn get_exchange(&self) -> (exchange: Exchange)
        ensures
            exchange == self.exchange(),
    {
        self.exchange
    }

    pub fn is_started(&self) -> (started: bool)
        ensures
            started == (self.connection() is Some),
    {
        self.connection.is_some()
    }

    pub fn subscription_count(&self) -> (count: usize)
        ensures
            count == self.subscriptions().len(),
    {
        self.subscriptions.len()
    }

    /// The subscription at `index`, in registration order.
    pub fn subscription(&self, index: usize) -> (subscription: &StreamSubscription)
        requires
            index < self.subscriptions().len(),
        ensures
            *subscription == self.subscriptions()[index as int],
    {
        self.subscriptions.get(index)
    }

    /// Whether a subscription with the key of `subscription` is registered.
    pub fn is_subscribed(&self, subscription: &StreamSubscription) -> (present: bool)
        ensures
            present == (crate::subscription::key_position(
                self.subscriptions(),
                crate::subscription::subscription_key(*subscription),
            ) < self.subscriptions().len()),
    {
        self.subscriptions.contains(subscription)
    }

    /// The key under which a subscription is registered.
    pub fn create_subscription_key(subscription: &StreamSubscription) -> (key: String)
        ensures
            key@ == crate::subscription::subscription_key(*subscription),
    {
        subscription.key()
    }
}

impl StreamManager for WebSocketManager {
    fn subscribe(&mut self, subscription: StreamSubscription) -> (sent: Result<
        Vec<ConnectionAction>,
        ExchangeError,
    >)
        ensures
            old(self).command_outcome(final(self), ControlMessage::Subscribe(subscription), sent),
    {
        WebSocketManager::subscribe(self, subscription)
    }

    fn unsubscribe(&mut self, subscription: StreamSubscription) -> (sent: Result<
        Vec<ConnectionAction>,
        ExchangeError,
    >)
        ensures
            old(self).command_outcome(
                final(self),
                ControlMessage::Unsubscribe(subscription),
                sent,
            ),
    {
        WebSocketManager::unsubscribe(self, subscription)
    }

    fn get_status(&self) -> (status: ConnectionStatus)
        ensures
            status == self.status(),
    {
        WebSocketManager::get_status(self)
    }

    fn get_metrics(&self) -> (metrics: StreamMetrics)
        ensures
            metrics == self.metrics(),
    {
        WebSocketManager::get_metrics(self)
    }

    fn start(&mut self) -> (started: Result<Vec<ConnectionAction>, ExchangeError>)
        ensures
            old(self).start_outcome(
                final(self),
                url_parses(old(self).config().base_url@),
                started,
            ),
    {
        WebSocketManager::start(self)
    }

    fn stop(&mut self) -> (actions: Vec<ConnectionAction>)
        ensures
            old(self).stop_outcome(final(self), actions@),
    {
        WebSocketManager::stop(self)
    }
}

} // verus!
