//! The lifecycle of one streaming connection, as a state machine.
//!
//! The machine owns no socket. Whoever runs it performs the actions that a
//! step hands out (open the transport, wait, send a frame, publish an event)
//! and feeds what happens back in as events. Every decision of the
//! connection is taken here: when to reconnect, when to give up, what to
//! send on connect, what to count.

use vstd::prelude::*;
use crate::errors::ExchangeError;
use crate::subscription::{
    registered, unregistered, StreamSubscription, SubscriptionRegistry,
};
use crate::types::UniversalMarketData;

verus! {

/// What callers see of a connection.
#[derive(Debug, Clone, Copy, PartialEq, Eq, Structural)]
pub enum ConnectionStatus {
    Disconnected,
    Connecting,
    Connected,
    Reconnecting,
    Failed,
}

/// Where a connection stands in its lifecycle.
#[derive(Debug, Clone, Copy, PartialEq, Eq, Structural)]
pub enum ConnectionPhase {
    /// Created, not started.
    Idle,
    /// The transport is being opened.
    Opening,
    /// The transport is open and frames are read.
    Live,
    /// Opening failed; the reconnect wait is running.
    Backoff,
    /// The open transport was lost; the reconnect wait is running.
    Lost,
    /// Opening failed as often as the configuration allows. Terminal.
    Failed,
    /// Shut down. Terminal.
    Stopped,
}

/// Counters of a stream. A counter that has reached the largest `u64` stays
/// there.
#[derive(Debug, Clone, Copy, PartialEq, Eq, Structural)]
pub struct StreamMetrics {
    pub messages_received: u64,
    pub messages_parsed: u64,
    pub parse_errors: u64,
    pub connection_errors: u64,
    pub reconnection_count: u64,
    /// Receive time of the last data frame, in milliseconds.
    pub last_message_time: Option<u64>,
    pub data_gaps: u64,
}

impl Default for StreamMetrics {
    fn default() -> (metrics: StreamMetrics)
        ensures
            metrics == StreamMetrics::zero(),
    {
        StreamMetrics {
            messages_received: 0,
            messages_parsed: 0,
            parse_errors: 0,
            connection_errors: 0,
            reconnection_count: 0,
            last_message_time: None,
            data_gaps: 0,
        }
    }
}

impl StreamMetrics {
    pub open spec fn zero() -> StreamMetrics {
        StreamMetrics {
            messages_received: 0,
            messages_parsed: 0,
            parse_errors: 0,
            connection_errors: 0,
            reconnection_count: 0,
            last_message_time: None,
            data_gaps: 0,
        }
    }
}

/// One more, unless the counter is full.
pub open spec fn bumped(count: u64) -> u64 {
    if count < u64::MAX {
        (count + 1) as u64
    } else {
        count
    }
}

fn bump(count: u64) -> (next: u64)
    ensures
        next == bumped(count),
{
    if count < u64::MAX {
        count + 1
    } else {
        count
    }
}

/// A command of the stream manager to its connection.
#[derive(Debug)]
pub enum ControlMessage {
    Subscribe(StreamSubscription),
    Unsubscribe(StreamSubscription),
    Reconnect,
    Shutdown,
}

/// Something that happened to a connection.
#[derive(Debug)]
pub enum ConnectionEvent {
    /// The connection was started.
    Started,
    /// The transport was opened at the time `at`.
    Opened { at: u64 },
    /// Opening the transport failed.
    OpenFailed,
    /// The wait before a reconnect is over.
    RetryDue,
    /// A data frame arrived at `received_at` and went through the
    /// normalizer: an event, a frame that carries none, or a frame that
    /// could not be read.
    Frame { received_at: u64, outcome: Result<Option<UniversalMarketData>, ExchangeError> },
    /// A command arrived.
    Command(ControlMessage),
    /// The keepalive timer fired.
    KeepaliveDue,
    /// A frame could not be sent.
    SendFailed,
    /// The peer closed the transport.
    Closed,
    /// Reading from the transport failed.
    ReadFailed,
    /// The clock reads `now`. The runner hands this in once the time that
    /// [`StreamConnection::frame_deadline`] names has passed; whether a
    /// frame is overdue is for the connection to decide.
    Tick { now: u64 },
}

/// Something that the runner of a connection is to do.
#[derive(Debug)]
pub enum ConnectionAction {
    /// Open the transport, then hand in `Opened` or `OpenFailed`.
    Open,
    /// Wait so many milliseconds, then hand in `RetryDue`.
    Wait(u64),
    /// Start the keepalive timer with this period in milliseconds.
    Keepalive(u64),
    /// Send the subscribe frame of a subscription.
    Subscribe(StreamSubscription),
    /// Send the unsubscribe frame of a subscription.
    Unsubscribe(StreamSubscription),
    /// Send a ping.
    Ping,
    /// Publish an event to every receiver.
    Publish(UniversalMarketData),
    /// Drop the transport.
    Close,
    /// End the connection task.
    Stop,
}

/// The subscribe action of every registered subscription, in order.
pub open spec fn subscribe_all(registry: Seq<StreamSubscription>) -> Seq<ConnectionAction> {
    Seq::new(registry.len(), |i: int| ConnectionAction::Subscribe(registry[i]))
}

/// The event says that the transport of a live connection is gone or is to
/// be given up.
pub open spec fn is_loss(event: ConnectionEvent) -> bool {
    event is SendFailed || event is Closed || event is ReadFailed || (
    event matches ConnectionEvent::Command(command) && command is Reconnect)
}

/// A loss that counts as a connection error. The peer closing the transport
/// and a reconnect on command do not.
pub open spec fn is_fault(event: ConnectionEvent) -> bool {
    event is SendFailed || event is ReadFailed
}

pub open spec fn is_shutdown(event: ConnectionEvent) -> bool {
    event matches ConnectionEvent::Command(command) && command is Shutdown
}

/// State of one connection.
#[derive(Debug, Clone, Copy, PartialEq, Eq, Structural)]
pub struct StreamConnection {
    pub phase: ConnectionPhase,
    /// Failed attempts to open the transport since it was last open.
    pub attempts: u32,
    pub max_reconnect_attempts: u32,
    pub reconnect_interval_ms: u64,
    pub ping_interval_ms: u64,
    /// Longest wait for a frame.
    pub message_timeout_ms: u64,
    /// The time from which the wait for the next frame counts: when the
    /// transport was opened or, later, when the last frame arrived. None
    /// while no transport is open.
    pub silent_since: Option<u64>,
}

impl StreamConnection {
    /// The status that callers see.
    pub open spec fn spec_status(&self) -> ConnectionStatus {
        match self.phase {
            ConnectionPhase::Idle => ConnectionStatus::Disconnected,
            ConnectionPhase::Opening => ConnectionStatus::Connecting,
            ConnectionPhase::Live => ConnectionStatus::Connected,
            ConnectionPhase::Backoff => ConnectionStatus::Reconnecting,
            ConnectionPhase::Lost => ConnectionStatus::Disconnected,
            ConnectionPhase::Failed => ConnectionStatus::Failed,
            ConnectionPhase::Stopped => ConnectionStatus::Disconnected,
        }
    }

    /// Nothing happens to a connection that has failed or was shut down.
    pub open spec fn spec_is_over(&self) -> bool {
        self.phase == ConnectionPhase::Failed || self.phase == ConnectionPhase::Stopped
    }

    /// Failed attempts after one more failure.
    pub open spec fn next_attempts(self) -> u32 {
        if self.attempts < u32::MAX {
            (self.attempts + 1) as u32
        } else {
            self.attempts
        }
    }

    /// One more failure exhausts the attempts that the configuration allows.
    pub open spec fn gives_up(self) -> bool {
        self.next_attempts() >= self.max_reconnect_attempts
    }

    /// A frame is overdue at the time `now`: the transport is open and no
    /// frame has arrived for longer than the message timeout. Pings and
    /// commands in between do not count; only a frame ends the silence.
    pub open spec fn spec_overdue(&self, now: u64) -> bool {
        self.phase == ConnectionPhase::Live && (self.silent_since matches Some(since) && now
            - since > self.message_timeout_ms)
    }

    /// The last time at which no frame is overdue yet, while the transport
    /// is open: the start of the silence and the message timeout, or the
    /// end of time where that lies beyond it.
    pub open spec fn spec_frame_deadline(&self) -> Option<u64> {
        match self.silent_since {
            Some(since) if self.phase == ConnectionPhase::Live => Some(
                if since + self.message_timeout_ms > u64::MAX {
                    u64::MAX
                } else {
                    (since + self.message_timeout_ms) as u64
                },
            ),
            _ => None,
        }
    }

    /// The event ends the live transport: it says so itself, or it tells a
    /// time at which a frame is overdue.
    pub open spec fn loses(self, event: ConnectionEvent) -> bool {
        is_loss(event) || (event matches ConnectionEvent::Tick { now } && self.spec_overdue(now))
    }

    /// The event ends the live transport and counts as a connection error.
    /// A timeout does.
    pub open spec fn faults(self, event: ConnectionEvent) -> bool {
        is_fault(event) || (event matches ConnectionEvent::Tick { now } && self.spec_overdue(now))
    }

    /// The connection after an event.
    pub open spec fn after(self, event: ConnectionEvent) -> StreamConnection {
        if self.spec_is_over() {
            self
        } else if is_shutdown(event) {
            StreamConnection { phase: ConnectionPhase::Stopped, silent_since: None, ..self }
        } else {
            match self.phase {
                ConnectionPhase::Idle => if event is Started {
                    StreamConnection { phase: ConnectionPhase::Opening, ..self }
                } else {
                    self
                },
                ConnectionPhase::Opening => match event {
                    ConnectionEvent::Opened { at } => StreamConnection {
                        phase: ConnectionPhase::Live,
                        attempts: 0,
                        silent_since: Some(at),
                        ..self
                    },
                    ConnectionEvent::OpenFailed => StreamConnection {
                        phase: if self.gives_up() {
                            ConnectionPhase::Failed
                        } else {
                            ConnectionPhase::Backoff
                        },
                        attempts: self.next_attempts(),
                        ..self
                    },
                    _ => self,
                },
                ConnectionPhase::Backoff | ConnectionPhase::Lost => if event is RetryDue {
                    StreamConnection { phase: ConnectionPhase::Opening, ..self }
                } else {
                    self
                },
                ConnectionPhase::Live => if self.loses(event) {
                    StreamConnection { phase: ConnectionPhase::Lost, silent_since: None, ..self }
                } else {
                    match event {
                        ConnectionEvent::Frame { received_at, .. } => StreamConnection {
                            silent_since: Some(received_at),
                            ..self
                        },
                        _ => self,
                    }
                },
                _ => self,
            }
        }
    }

    /// What the runner is to do after an event, given the subscriptions that
    /// were registered when it arrived.
    pub open spec fn actions(
        self,
        event: ConnectionEvent,
        registry: Seq<StreamSubscription>,
    ) -> Seq<ConnectionAction> {
        if self.spec_is_over() {
            seq![]
        } else if is_shutdown(event) {
            if self.phase == ConnectionPhase::Live {
                seq![ConnectionAction::Close, ConnectionAction::Stop]
            } else {
                seq![ConnectionAction::Stop]
            }
        } else {
            match self.phase {
                ConnectionPhase::Idle => if event is Started {
                    seq![ConnectionAction::Open]
                } else {
                    seq![]
                },
                ConnectionPhase::Opening => if event is Opened {
                    subscribe_all(registry).push(ConnectionAction::Keepalive(self.ping_interval_ms))
                } else if event is OpenFailed {
                    if self.gives_up() {
                        seq![ConnectionAction::Stop]
                    } else {
                        seq![ConnectionAction::Wait(self.reconnect_interval_ms)]
                    }
                } else {
                    seq![]
                },
                ConnectionPhase::Backoff | ConnectionPhase::Lost => if event is RetryDue {
                    seq![ConnectionAction::Open]
                } else {
                    seq![]
                },
                ConnectionPhase::Live => if self.loses(event) {
                    seq![ConnectionAction::Close, ConnectionAction::Wait(self.reconnect_interval_ms)]
                } else {
                    match event {
                        ConnectionEvent::Frame { outcome: Ok(Some(data)), .. } => seq![
                            ConnectionAction::Publish(data),
                        ],
                        ConnectionEvent::KeepaliveDue => seq![ConnectionAction::Ping],
                        ConnectionEvent::Command(ControlMessage::Subscribe(subscription)) => seq![
                            ConnectionAction::Subscribe(subscription),
                        ],
                        ConnectionEvent::Command(ControlMessage::Unsubscribe(subscription)) => seq![
                            ConnectionAction::Unsubscribe(subscription),
                        ],
                        _ => seq![],
                    }
                },
                _ => seq![],
            }
        }
    }

    /// The counters after an event.
    pub open spec fn metrics_after(
        self,
        metrics: StreamMetrics,
        event: ConnectionEvent,
    ) -> StreamMetrics {
        if self.phase == ConnectionPhase::Opening && event is OpenFailed {
            StreamMetrics { connection_errors: bumped(metrics.connection_errors), ..metrics }
        } else if self.phase == ConnectionPhase::Live && self.loses(event) {
            StreamMetrics {
                connection_errors: if self.faults(event) {
                    bumped(metrics.connection_errors)
                } else {
                    metrics.connection_errors
                },
                reconnection_count: bumped(metrics.reconnection_count),
                ..metrics
            }
        } else if self.phase == ConnectionPhase::Live {
            match event {
                ConnectionEvent::Frame { received_at, outcome } => StreamMetrics {
                    messages_received: bumped(metrics.messages_received),
                    last_message_time: Some(received_at),
                    messages_parsed: if outcome matches Ok(Some(_)) {
                        bumped(metrics.messages_parsed)
                    } else {
                        metrics.messages_parsed
                    },
                    parse_errors: if outcome is Err {
                        bumped(metrics.parse_errors)
                    } else {
                        metrics.parse_errors
                    },
                    ..metrics
                },
                _ => metrics,
            }
        } else {
            metrics
        }
    }

    /// The registered subscriptions after an event. Commands change the
    /// registry in every phase but the terminal ones, so that a subscription
    /// made while the transport is down is sent when it comes up.
    pub open spec fn registry_after(
        self,
        registry: Seq<StreamSubscription>,
        event: ConnectionEvent,
    ) -> Seq<StreamSubscription> {
        if self.spec_is_over() {
            registry
        } else {
            match event {
                ConnectionEvent::Command(ControlMessage::Subscribe(subscription)) => registered(
                    registry,
                    subscription,
                ),
                ConnectionEvent::Command(ControlMessage::Unsubscribe(subscription)) => unregistered(
                    registry,
                    subscription,
                ),
                _ => registry,
            }
        }
    }

    /// A connection that has not been started.
    pub fn new(
        max_reconnect_attempts: u32,
        reconnect_interval_ms: u64,
        ping_interval_ms: u64,
        message_timeout_ms: u64,
    ) -> (connection: StreamConnection)
        ensures
            connection == (StreamConnection {
                phase: ConnectionPhase::Idle,
                attempts: 0,
                max_reconnect_attempts,
                reconnect_interval_ms,
                ping_interval_ms,
                message_timeout_ms,
                silent_since: None,
            }),
    {
        StreamConnection {
            phase: ConnectionPhase::Idle,
            attempts: 0,
            max_reconnect_attempts,
            reconnect_interval_ms,
            ping_interval_ms,
            message_timeout_ms,
            silent_since: None,
        }
    }

    /// Whether a frame is overdue at the time `now`: the transport is open
    /// and the silence since it was opened, or since the last frame, has
    /// lasted longer than the message timeout.
    #[verifier::when_used_as_spec(spec_overdue)]
    pub fn is_overdue(&self, now: u64) -> (overdue: bool)
        ensures
            overdue == self.spec_overdue(now),
    {
        match (self.phase, self.silent_since) {
            (ConnectionPhase::Live, Some(since)) => now > since && now - since
                > self.message_timeout_ms,
            _ => false,
        }
    }

    /// The last time at which no frame is overdue yet; none while no
    /// transport is open. The runner hands in `Tick` once the clock is past
    /// it. Only a frame moves the deadline: pings and commands leave it
    /// where it is.
    #[verifier::when_used_as_spec(spec_frame_deadline)]
    pub fn frame_deadline(&self) -> (deadline: Option<u64>)
        ensures
            deadline == self.spec_frame_deadline(),
    {
        match (self.phase, self.silent_since) {
            (ConnectionPhase::Live, Some(since)) => Some(
                if since > u64::MAX - self.message_timeout_ms {
                    u64::MAX
                } else {
                    since + self.message_timeout_ms
                },
            ),
            _ => None,
        }
    }

    #[verifier::when_used_as_spec(spec_status)]
    pub fn status(&self) -> (status: ConnectionStatus)
        ensures
            status == self.spec_status(),
    {
        match self.phase {
            ConnectionPhase::Idle => ConnectionStatus::Disconnected,
            ConnectionPhase::Opening => ConnectionStatus::Connecting,
            ConnectionPhase::Live => ConnectionStatus::Connected,
            ConnectionPhase::Backoff => ConnectionStatus::Reconnecting,
            ConnectionPhase::Lost => ConnectionStatus::Disconnected,
            ConnectionPhase::Failed => ConnectionStatus::Failed,
            ConnectionPhase::Stopped => ConnectionStatus::Disconnected,
        }
    }

    #[verifier::when_used_as_spec(spec_is_over)]
    pub fn is_over(&self) -> (over: bool)
        ensures
            over == self.spec_is_over(),
    {
        match self.phase {
            ConnectionPhase::Failed => true,
            ConnectionPhase::Stopped => true,
            _ => false,
        }
    }

    /// Takes one event: moves the connection on, counts, keeps the registry
    /// and says what the runner is to do.
    pub fn handle(
        &mut self,
        event: ConnectionEvent,
        subscriptions: &mut SubscriptionRegistry,
        metrics: &mut StreamMetrics,
    ) -> (actions: Vec<ConnectionAction>)
        ensures
            *final(self) == old(self).after(event),
            *final(metrics) == old(self).metrics_after(*old(metrics), event),
            final(subscriptions)@ == old(self).registry_after(old(subscriptions)@, event),
            actions@ == old(self).actions(event, old(subscriptions)@),
    {
        let mut actions: Vec<ConnectionAction> = Vec::new();
        if self.is_over() {
            return actions;
        }
        let live = self.phase == ConnectionPhase::Live;
        match event {
            ConnectionEvent::Command(ControlMessage::Shutdown) => {
                if live {
                    actions.push(ConnectionAction::Close);
                }
                actions.push(ConnectionAction::Stop);
                self.phase = ConnectionPhase::Stopped;
                self.silent_since = None;
            },
            ConnectionEvent::Command(ControlMessage::Subscribe(subscription)) => {
                if live {
                    actions.push(ConnectionAction::Subscribe(subscription.duplicate()));
                }
                subscriptions.insert(subscription);
            },
            ConnectionEvent::Command(ControlMessage::Unsubscribe(subscription)) => {
                subscriptions.remove(&subscription);
                if live {
                    actions.push(ConnectionAction::Unsubscribe(subscription));
                }
            },
            ConnectionEvent::Command(ControlMessage::Reconnect) => {
                if live {
                    self.lose(false, metrics, &mut actions);
                }
            },
            ConnectionEvent::Started => {
                if self.phase == ConnectionPhase::Idle {
                    self.phase = ConnectionPhase::Opening;
                    actions.push(ConnectionAction::Open);
                }
            },
            ConnectionEvent::Opened { at } => {
                if self.phase == ConnectionPhase::Opening {
                    self.phase = ConnectionPhase::Live;
                    self.attempts = 0;
                    self.silent_since = Some(at);
                    let count = subscriptions.len();
                    let mut i: usize = 0;
                    while i < count
                        invariant
                            count == subscriptions@.len(),
                            i <= count,
                            actions@ == subscribe_all(subscriptions@).take(i as int),
                        decreases count - i,
                    {
                        actions.push(ConnectionAction::Subscribe(subscriptions.get(i).duplicate()));
                        proof {
                            assert(actions@ =~= subscribe_all(subscriptions@).take(i + 1));
                        }
                        i += 1;
                    }
                    proof {
                        assert(subscribe_all(subscriptions@).take(count as int) =~= subscribe_all(
                            subscriptions@,
                        ));
                    }
                    actions.push(ConnectionAction::Keepalive(self.ping_interval_ms));
                }
            },
            ConnectionEvent::OpenFailed => {
                if self.phase == ConnectionPhase::Opening {
                    metrics.connection_errors = bump(metrics.connection_errors);
                    if self.attempts < u32::MAX {
                        self.attempts = self.attempts + 1;
                    }
                    if self.attempts >= self.max_reconnect_attempts {
                        self.phase = ConnectionPhase::Failed;
                        actions.push(ConnectionAction::Stop);
                    } else {
                        self.phase = ConnectionPhase::Backoff;
                        actions.push(ConnectionAction::Wait(self.reconnect_interval_ms));
                    }
                }
            },
            ConnectionEvent::RetryDue => {
                if self.phase == ConnectionPhase::Backoff || self.phase == ConnectionPhase::Lost {
                    self.phase = ConnectionPhase::Opening;
                    actions.push(ConnectionAction::Open);
                }
            },
            ConnectionEvent::Frame { received_at, outcome } => {
                if live {
                    self.silent_since = Some(received_at);
                    metrics.messages_received = bump(metrics.messages_received);
                    metrics.last_message_time = Some(received_at);
                    match outcome {
                        Ok(Some(data)) => {
                            metrics.messages_parsed = bump(metrics.messages_parsed);
                            actions.push(ConnectionAction::Publish(data));
                        },
                        Ok(None) => {},
                        Err(_) => {
                            metrics.parse_errors = bump(metrics.parse_errors);
                        },
                    }
                }
            },
            ConnectionEvent::KeepaliveDue => {
                if live {
                    actions.push(ConnectionAction::Ping);
                }
            },
            ConnectionEvent::SendFailed => {
                if live {
                    self.lose(true, metrics, &mut actions);
                }
            },
            ConnectionEvent::Closed => {
                if live {
                    self.lose(false, metrics, &mut actions);
                }
            },
            ConnectionEvent::ReadFailed => {
                if live {
                    self.lose(true, metrics, &mut actions);
                }
            },
            ConnectionEvent::Tick { now } => {
                if self.is_overdue(now) {
                    self.lose(true, metrics, &mut actions);
                }
            },
        }
        proof {
            assert(actions@ =~= old(self).actions(event, old(subscriptions)@));
        }
        actions
    }

    /// The live transport is gone: count, drop it, wait, reconnect.
    fn lose(&mut self, fault: bool, metrics: &mut StreamMetrics, actions: &mut Vec<ConnectionAction>)
        requires
            old(self).phase == ConnectionPhase::Live,
            old(actions)@.len() == 0,
        ensures
            *final(self) == (StreamConnection {
                phase: ConnectionPhase::Lost,
                silent_since: None,
                ..*old(self)
            }),
            *final(metrics) == (StreamMetrics {
                connection_errors: if fault {
                    bumped(old(metrics).connection_errors)
                } else {
                    old(metrics).connection_errors
                },
                reconnection_count: bumped(old(metrics).reconnection_count),
                ..*old(metrics)
            }),
            final(actions)@ == seq![
                ConnectionAction::Close,
                ConnectionAction::Wait(old(self).reconnect_interval_ms),
            ],
    {
        if fault {
            metrics.connection_errors = bump(metrics.connection_errors);
        }
        metrics.reconnection_count = bump(metrics.reconnection_count);
        self.phase = ConnectionPhase::Lost;
        self.silent_since = None;
        actions.push(ConnectionAction::Close);
        actions.push(ConnectionAction::Wait(self.reconnect_interval_ms));
        proof {
            assert(actions@ =~= seq![
                ConnectionAction::Close,
                ConnectionAction::Wait(old(self).reconnect_interval_ms),
            ]);
        }
    }
}

/// The connection after a run of events.
pub open spec fn run(connection: StreamConnection, events: Seq<ConnectionEvent>) -> StreamConnection
    decreases events.len(),
{
    if events.len() == 0 {
        connection
    } else {
        run(connection, events.drop_last()).after(events.last())
    }
}

/// The status after each event of a run.
pub open spec fn status_path(
    connection: StreamConnection,
    events: Seq<ConnectionEvent>,
) -> Seq<ConnectionStatus>
    decreases events.len(),
{
    if events.len() == 0 {
        seq![]
    } else {
        status_path(connection, events.drop_last()).push(run(connection, events).spec_status())
    }
}

/// The actions that the last event of a run calls for, none for an empty run.
pub open spec fn last_actions(
    connection: StreamConnection,
    events: Seq<ConnectionEvent>,
    registry: Seq<StreamSubscription>,
) -> Seq<ConnectionAction> {
    if events.len() == 0 {
        seq![]
    } else {
        run(connection, events.drop_last()).actions(events.last(), registry)
    }
}

/// `rounds` failed attempts, each followed by the end of its reconnect wait.
pub open spec fn failed_rounds(rounds: nat) -> Seq<ConnectionEvent>
    decreases rounds,
{
    if rounds == 0 {
        seq![]
    } else {
        failed_rounds((rounds - 1) as nat).push(ConnectionEvent::OpenFailed).push(
            ConnectionEvent::RetryDue,
        )
    }
}

/// The statuses that `rounds` failed attempts go through.
pub open spec fn reconnect_rounds(rounds: nat) -> Seq<ConnectionStatus>
    decreases rounds,
{
    if rounds == 0 {
        seq![]
    } else {
        reconnect_rounds((rounds - 1) as nat).push(ConnectionStatus::Reconnecting).push(
            ConnectionStatus::Connecting,
        )
    }
}

/// A start, then `rounds` failed attempts.
pub open spec fn troubled_start(rounds: nat) -> Seq<ConnectionEvent> {
    seq![ConnectionEvent::Started] + failed_rounds(rounds)
}

pub open spec fn sends_subscription(actions: Seq<ConnectionAction>) -> bool {
    exists|i: int| 0 <= i < actions.len() && (#[trigger] actions[i]) is Subscribe
}

proof fn lemma_run_push(
    connection: StreamConnection,
    events: Seq<ConnectionEvent>,
    event: ConnectionEvent,
)
    ensures
        run(connection, events.push(event)) == run(connection, events).after(event),
        status_path(connection, events.push(event)) == status_path(connection, events).push(
            run(connection, events).after(event).spec_status(),
        ),
{
    assert(events.push(event).drop_last() =~= events);
}

/// While attempts remain, each failed round brings the connection back to
/// opening the transport, one attempt poorer, and sends no subscription.
proof fn lemma_troubled_start(connection: StreamConnection, rounds: nat, registry: Seq<StreamSubscription>)
    requires
        connection.phase == ConnectionPhase::Idle,
        connection.attempts == 0,
        rounds < connection.max_reconnect_attempts,
    ensures
        run(connection, troubled_start(rounds)) == (StreamConnection {
            phase: ConnectionPhase::Opening,
            attempts: rounds as u32,
            ..connection
        }),
        status_path(connection, troubled_start(rounds)) == seq![ConnectionStatus::Connecting]
            + reconnect_rounds(rounds),
        forall|k: int|
            0 <= k <= troubled_start(rounds).len() ==> !sends_subscription(
                #[trigger] last_actions(connection, troubled_start(rounds).take(k), registry),
            ),
    decreases rounds,
{
    let events = troubled_start(rounds);
    if rounds == 0 {
        let nothing = Seq::<ConnectionEvent>::empty();
        assert(events =~= nothing.push(ConnectionEvent::Started));
        assert(events.drop_last() =~= nothing);
        lemma_run_push(connection, nothing, ConnectionEvent::Started);
        assert(run(connection, nothing) == connection);
        assert(status_path(connection, nothing) =~= Seq::<ConnectionStatus>::empty());
        assert(status_path(connection, events) =~= seq![ConnectionStatus::Connecting]
            + reconnect_rounds(0));
        assert forall|k: int| 0 <= k <= events.len() implies !sends_subscription(
            #[trigger] last_actions(connection, events.take(k), registry),
        ) by {
            if k == 1 {
                assert(events.take(1) =~= events);
            }
        }
    } else {
        let fewer = (rounds - 1) as nat;
        let before = troubled_start(fewer);
        lemma_troubled_start(connection, fewer, registry);
        let failed = before.push(ConnectionEvent::OpenFailed);
        assert(events =~= failed.push(ConnectionEvent::RetryDue));
        lemma_run_push(connection, before, ConnectionEvent::OpenFailed);
        lemma_run_push(connection, failed, ConnectionEvent::RetryDue);
        let opening = run(connection, before);
        assert(opening.next_attempts() == rounds);
        assert(!opening.gives_up());
        assert(status_path(connection, events) =~= seq![ConnectionStatus::Connecting]
            + reconnect_rounds(rounds));
        assert forall|k: int| 0 <= k <= events.len() implies !sends_subscription(
            #[trigger] last_actions(connection, events.take(k), registry),
        ) by {
            if k <= before.len() {
                assert(events.take(k) =~= before.take(k));
            } else if k == before.len() + 1 {
                assert(events.take(k) =~= failed);
                assert(failed.drop_last() =~= before);
            } else {
                assert(events.take(k) =~= events);
                assert(events.drop_last() =~= failed);
            }
        }
    }
}

/// A connection whose transport fails to open `rounds` times, fewer than
/// the attempts allowed, and then opens, goes from `Disconnected` through
/// `Connecting`, then `Reconnecting` and `Connecting` once per failure, to
/// `Connected`. Nothing is subscribed on the way; on arrival every
/// registered subscription is sent once, in registration order, the
/// keepalive timer is started, and the wait for the first frame counts
/// from the time of opening.
pub proof fn law_reconnect_then_resubscribe(
    connection: StreamConnection,
    rounds: nat,
    registry: Seq<StreamSubscription>,
    opened_at: u64,
)
    requires
        connection.phase == ConnectionPhase::Idle,
        connection.attempts == 0,
        rounds < connection.max_reconnect_attempts,
    ensures
        connection.spec_status() == ConnectionStatus::Disconnected,
        status_path(connection, troubled_start(rounds).push(ConnectionEvent::Opened { at: opened_at })) == (seq![
            ConnectionStatus::Connecting,
        ] + reconnect_rounds(rounds)).push(ConnectionStatus::Connected),
        forall|k: int|
            0 <= k <= troubled_start(rounds).len() ==> !sends_subscription(
                #[trigger] last_actions(connection, troubled_start(rounds).take(k), registry),
            ),
        last_actions(connection, troubled_start(rounds).push(ConnectionEvent::Opened { at: opened_at }), registry)
            == subscribe_all(registry).push(ConnectionAction::Keepalive(connection.ping_interval_ms)),
        run(connection, troubled_start(rounds).push(ConnectionEvent::Opened { at: opened_at })).attempts == 0,
        run(
            connection,
            troubled_start(rounds).push(ConnectionEvent::Opened { at: opened_at }),
        ).silent_since == Some(opened_at),
{
    lemma_troubled_start(connection, rounds, registry);
    lemma_run_push(connection, troubled_start(rounds), ConnectionEvent::Opened { at: opened_at });
    assert(troubled_start(rounds).push(ConnectionEvent::Opened { at: opened_at }).drop_last() =~= troubled_start(
        rounds,
    ));
}

/// Subscriptions are replayed after every reconnect: whenever a live
/// connection loses its transport, it shows `Disconnected`, connects again
/// once the wait is over, and on arrival sends every registered
/// subscription once, in registration order.
pub proof fn law_replay_after_reconnect(
    connection: StreamConnection,
    loss: ConnectionEvent,
    registry: Seq<StreamSubscription>,
    opened_at: u64,
)
    requires
        connection.phase == ConnectionPhase::Live,
        connection.loses(loss),
    ensures
        connection.after(loss).spec_status() == ConnectionStatus::Disconnected,
        connection.actions(loss, registry) == seq![
            ConnectionAction::Close,
            ConnectionAction::Wait(connection.reconnect_interval_ms),
        ],
        connection.after(loss).after(ConnectionEvent::RetryDue).spec_status()
            == ConnectionStatus::Connecting,
        connection.after(loss).after(ConnectionEvent::RetryDue).after(
            ConnectionEvent::Opened { at: opened_at },
        ).spec_status() == ConnectionStatus::Connected,
        connection.after(loss).after(ConnectionEvent::RetryDue).actions(
            ConnectionEvent::Opened { at: opened_at },
            registry,
        ) == subscribe_all(registry).push(ConnectionAction::Keepalive(connection.ping_interval_ms)),
{
}

/// A connection whose transport fails to open as often as the attempts
/// allowed, without opening in between, ends in `Failed` and stays there.
pub proof fn law_attempts_are_bounded(connection: StreamConnection, event: ConnectionEvent)
    requires
        connection.phase == ConnectionPhase::Idle,
        connection.attempts == 0,
        connection.max_reconnect_attempts > 0,
    ensures
        run(
            connection,
            troubled_start((connection.max_reconnect_attempts - 1) as nat).push(
                ConnectionEvent::OpenFailed,
            ),
        ).phase == ConnectionPhase::Failed,
        run(
            connection,
            troubled_start((connection.max_reconnect_attempts - 1) as nat).push(
                ConnectionEvent::OpenFailed,
            ),
        ).after(event).phase == ConnectionPhase::Failed,
{
    let rounds = (connection.max_reconnect_attempts - 1) as nat;
    lemma_troubled_start(connection, rounds, Seq::empty());
    lemma_run_push(connection, troubled_start(rounds), ConnectionEvent::OpenFailed);
}

/// Shutdown wins in every phase: whatever a connection was doing, after a
/// shutdown command it shows `Disconnected` or, where it had failed before,
/// `Failed`, and no later event moves it or calls for an action.
pub proof fn law_shutdown_wins(
    connection: StreamConnection,
    later: ConnectionEvent,
    registry: Seq<StreamSubscription>,
)
    ensures
        connection.after(ConnectionEvent::Command(ControlMessage::Shutdown)).spec_is_over(),
        connection.phase != ConnectionPhase::Failed ==> connection.after(
            ConnectionEvent::Command(ControlMessage::Shutdown),
        ).spec_status() == ConnectionStatus::Disconnected,
        connection.after(ConnectionEvent::Command(ControlMessage::Shutdown)).after(later)
            == connection.after(ConnectionEvent::Command(ControlMessage::Shutdown)),
        connection.after(ConnectionEvent::Command(ControlMessage::Shutdown)).actions(
            later,
            registry,
        ) == Seq::<ConnectionAction>::empty(),
{
}

/// An event that leaves a live connection waiting as it was: no frame, no
/// loss of the transport, no shutdown. Pings, subscriptions and the clock
/// telling a time at which no frame is overdue are all of this kind.
pub open spec fn is_quiet(connection: StreamConnection, event: ConnectionEvent) -> bool {
    !(event is Frame) && !connection.loses(event) && !is_shutdown(event)
}

/// The deadline decides: a frame is overdue exactly at the times after the
/// frame deadline, and never while no transport is open.
pub proof fn law_deadline_decides(connection: StreamConnection, now: u64)
    ensures
        connection.spec_overdue(now) <==> (connection.spec_frame_deadline() matches Some(deadline)
            && now > deadline),
        connection.phase != ConnectionPhase::Live ==> !connection.spec_overdue(now),
{
}

/// Nothing but a frame moves the deadline: through any run of pings,
/// commands and other quiet events a live connection stays exactly as it
/// is, with the silence counting from where it began.
pub proof fn law_quiet_events_keep_the_deadline(
    connection: StreamConnection,
    events: Seq<ConnectionEvent>,
)
    requires
        connection.phase == ConnectionPhase::Live,
        forall|i: int| 0 <= i < events.len() ==> is_quiet(connection, #[trigger] events[i]),
    ensures
        run(connection, events) == connection,
    decreases events.len(),
{
    if events.len() > 0 {
        let front = events.drop_last();
        assert forall|i: int| 0 <= i < front.len() implies is_quiet(
            connection,
            #[trigger] front[i],
        ) by {
            assert(front[i] == events[i]);
        }
        law_quiet_events_keep_the_deadline(connection, front);
        assert(is_quiet(connection, events[events.len() - 1]));
    }
}

/// A frame starts the wait anew: after a frame that arrived at
/// `received_at` the silence counts from that time.
pub proof fn law_frame_restarts_the_wait(
    connection: StreamConnection,
    received_at: u64,
    outcome: Result<Option<UniversalMarketData>, ExchangeError>,
)
    requires
        connection.phase == ConnectionPhase::Live,
    ensures
        connection.after(ConnectionEvent::Frame { received_at, outcome }).phase
            == ConnectionPhase::Live,
        connection.after(ConnectionEvent::Frame { received_at, outcome }).silent_since == Some(
            received_at,
        ),
{
}

/// Silence ends in a timeout, whatever else happens meanwhile. Where a live
/// connection has been waiting for a frame since `since`, and only quiet
/// events follow, the clock telling a time more than the message timeout
/// after `since` is a connection fault: the error is counted, the status
/// returns to `Disconnected`, the transport is dropped and a reconnection
/// follows after the reconnect wait.
pub proof fn law_silence_times_out(
    connection: StreamConnection,
    since: u64,
    events: Seq<ConnectionEvent>,
    now: u64,
    metrics: StreamMetrics,
    registry: Seq<StreamSubscription>,
)
    requires
        connection.phase == ConnectionPhase::Live,
        connection.silent_since == Some(since),
        forall|i: int| 0 <= i < events.len() ==> is_quiet(connection, #[trigger] events[i]),
        now - since > connection.message_timeout_ms,
    ensures
        run(connection, events.push(ConnectionEvent::Tick { now })).phase == ConnectionPhase::Lost,
        run(connection, events.push(ConnectionEvent::Tick { now })).spec_status()
            == ConnectionStatus::Disconnected,
        run(connection, events).metrics_after(metrics, ConnectionEvent::Tick { now })
            == (StreamMetrics {
            connection_errors: bumped(metrics.connection_errors),
            reconnection_count: bumped(metrics.reconnection_count),
            ..metrics
        }),
        run(connection, events).actions(ConnectionEvent::Tick { now }, registry) == seq![
            ConnectionAction::Close,
            ConnectionAction::Wait(connection.reconnect_interval_ms),
        ],
        run(connection, events.push(ConnectionEvent::Tick { now })).after(
            ConnectionEvent::RetryDue,
        ).spec_status() == ConnectionStatus::Connecting,
{
    law_quiet_events_keep_the_deadline(connection, events);
    lemma_run_push(connection, events, ConnectionEvent::Tick { now });
}

/// A clock that tells a time at which no frame is overdue changes nothing.
pub proof fn law_early_tick_changes_nothing(
    connection: StreamConnection,
    now: u64,
    metrics: StreamMetrics,
    registry: Seq<StreamSubscription>,
)
    requires
        !connection.spec_overdue(now),
    ensures
        connection.after(ConnectionEvent::Tick { now }) == connection,
        connection.metrics_after(metrics, ConnectionEvent::Tick { now }) == metrics,
        connection.actions(ConnectionEvent::Tick { now }, registry) == Seq::<
            ConnectionAction,
        >::empty(),
{
}

} // verus!
