use exchange_feed::connection::{
    ConnectionAction, ConnectionEvent, ConnectionPhase, ConnectionStatus, ControlMessage,
    StreamConnection, StreamMetrics,
};
use exchange_feed::errors::ExchangeError;
use exchange_feed::subscription::{StreamSubscription, SubscriptionRegistry};
use exchange_feed::types::{Exchange, Side, Symbol, UniversalMarketData, UniversalTrade};

struct Rig {
    connection: StreamConnection,
    registry: SubscriptionRegistry,
    metrics: StreamMetrics,
}

impl Rig {
    fn new(max_attempts: u32) -> Rig {
        Rig {
            connection: StreamConnection::new(max_attempts, 5_000, 30_000, 20_000),
            registry: SubscriptionRegistry::new(),
            metrics: StreamMetrics::default(),
        }
    }

    fn feed(&mut self, event: ConnectionEvent) -> Vec<String> {
        self.connection
            .handle(event, &mut self.registry, &mut self.metrics)
            .iter()
            .map(describe)
            .collect()
    }

    fn status(&self) -> ConnectionStatus {
        self.connection.status()
    }

    fn live(max_attempts: u32) -> Rig {
        let mut rig = Rig::new(max_attempts);
        rig.feed(ConnectionEvent::Started);
        rig.feed(ConnectionEvent::Opened { at: 1_000 });
        rig
    }
}

fn describe(action: &ConnectionAction) -> String {
    match action {
        ConnectionAction::Open => "open".to_string(),
        ConnectionAction::Wait(ms) => format!("wait {}", ms),
        ConnectionAction::Keepalive(ms) => format!("keepalive {}", ms),
        ConnectionAction::Subscribe(s) => format!("subscribe {}", s.key()),
        ConnectionAction::Unsubscribe(s) => format!("unsubscribe {}", s.key()),
        ConnectionAction::Ping => "ping".to_string(),
        ConnectionAction::Publish(data) => format!("publish {}", data.symbol().as_str()),
        ConnectionAction::Close => "close".to_string(),
        ConnectionAction::Stop => "stop".to_string(),
    }
}

fn trade(symbol: &str) -> UniversalMarketData {
    UniversalMarketData::Trade(UniversalTrade {
        exchange: Exchange::Binance,
        symbol: Symbol::new(symbol),
        price: 1,
        quantity: 1,
        side: Side::Buy,
        timestamp_exchange: 1,
        timestamp_local: 2,
        trade_id: "t".to_string(),
    })
}

fn frame(at: u64, outcome: Result<Option<UniversalMarketData>, ExchangeError>) -> ConnectionEvent {
    ConnectionEvent::Frame { received_at: at, outcome }
}

fn subscribe(symbol: &str) -> ConnectionEvent {
    ConnectionEvent::Command(ControlMessage::Subscribe(StreamSubscription::trade(Symbol::new(
        symbol,
    ))))
}

fn unsubscribe(symbol: &str) -> ConnectionEvent {
    ConnectionEvent::Command(ControlMessage::Unsubscribe(StreamSubscription::trade(Symbol::new(
        symbol,
    ))))
}

fn shutdown() -> ConnectionEvent {
    ConnectionEvent::Command(ControlMessage::Shutdown)
}

#[test]
fn new_connection_is_idle() {
    let rig = Rig::new(3);
    assert_eq!(rig.connection.message_timeout_ms, 20_000);
    assert_eq!(rig.connection.silent_since, None);
    assert_eq!(rig.connection.frame_deadline(), None);
    assert!(!rig.connection.is_overdue(u64::MAX));
    assert_eq!(rig.connection.phase, ConnectionPhase::Idle);
    assert_eq!(rig.status(), ConnectionStatus::Disconnected);
    assert_eq!(rig.connection.attempts, 0);
    assert!(!rig.connection.is_over());
    assert_eq!(rig.metrics, StreamMetrics::default());
}

#[test]
fn start_opens_the_transport() {
    let mut rig = Rig::new(3);
    assert_eq!(rig.feed(ConnectionEvent::Started), vec!["open"]);
    assert_eq!(rig.status(), ConnectionStatus::Connecting);
    // a second start changes nothing
    assert!(rig.feed(ConnectionEvent::Started).is_empty());
    assert_eq!(rig.status(), ConnectionStatus::Connecting);
}

#[test]
fn status_path_of_failures_then_success() {
    // the transport fails twice, fewer times than the three attempts allowed
    let mut rig = Rig::new(3);
    rig.registry.insert(StreamSubscription::trade(Symbol::new("BTCUSDT")));
    rig.registry.insert(StreamSubscription::quote(Symbol::new("ETHUSDT")));
    let mut path = vec![rig.status()];
    let mut sent = Vec::new();
    for event in [
        ConnectionEvent::Started,
        ConnectionEvent::OpenFailed,
        ConnectionEvent::RetryDue,
        ConnectionEvent::OpenFailed,
        ConnectionEvent::RetryDue,
        ConnectionEvent::Opened { at: 1_000 },
    ] {
        sent.extend(rig.feed(event));
        path.push(rig.status());
    }
    assert_eq!(
        path,
        vec![
            ConnectionStatus::Disconnected,
            ConnectionStatus::Connecting,
            ConnectionStatus::Reconnecting,
            ConnectionStatus::Connecting,
            ConnectionStatus::Reconnecting,
            ConnectionStatus::Connecting,
            ConnectionStatus::Connected,
        ]
    );
    assert_eq!(
        sent,
        vec![
            "open",
            "wait 5000",
            "open",
            "wait 5000",
            "open",
            "subscribe BTCUSDT:trade",
            "subscribe ETHUSDT:bookTicker",
            "keepalive 30000",
        ]
    );
    assert_eq!(rig.connection.attempts, 0);
    assert_eq!(rig.metrics.connection_errors, 2);
    assert_eq!(rig.metrics.reconnection_count, 0);
}

#[test]
fn connection_fails_when_attempts_are_used_up() {
    let mut rig = Rig::new(2);
    rig.feed(ConnectionEvent::Started);
    assert_eq!(rig.feed(ConnectionEvent::OpenFailed), vec!["wait 5000"]);
    assert_eq!(rig.feed(ConnectionEvent::RetryDue), vec!["open"]);
    assert_eq!(rig.feed(ConnectionEvent::OpenFailed), vec!["stop"]);
    assert_eq!(rig.status(), ConnectionStatus::Failed);
    assert!(rig.connection.is_over());
    assert_eq!(rig.metrics.connection_errors, 2);
    // failed is terminal
    assert!(rig.feed(ConnectionEvent::RetryDue).is_empty());
    assert!(rig.feed(ConnectionEvent::Opened { at: 1_000 }).is_empty());
    assert!(rig.feed(ConnectionEvent::Started).is_empty());
    assert!(rig.feed(shutdown()).is_empty());
    assert_eq!(rig.status(), ConnectionStatus::Failed);
}

#[test]
fn no_attempts_allowed_fails_at_once() {
    let mut rig = Rig::new(0);
    rig.feed(ConnectionEvent::Started);
    assert_eq!(rig.feed(ConnectionEvent::OpenFailed), vec!["stop"]);
    assert_eq!(rig.status(), ConnectionStatus::Failed);
}

#[test]
fn attempts_start_anew_after_a_connection() {
    let mut rig = Rig::new(2);
    rig.feed(ConnectionEvent::Started);
    rig.feed(ConnectionEvent::OpenFailed);
    rig.feed(ConnectionEvent::RetryDue);
    rig.feed(ConnectionEvent::Opened { at: 1_000 });
    assert_eq!(rig.connection.attempts, 0);
    rig.feed(ConnectionEvent::Closed);
    rig.feed(ConnectionEvent::RetryDue);
    assert_eq!(rig.feed(ConnectionEvent::OpenFailed), vec!["wait 5000"]);
    assert_eq!(rig.status(), ConnectionStatus::Reconnecting);
}

#[test]
fn frames_are_counted_and_published() {
    let mut rig = Rig::live(3);
    assert_eq!(rig.feed(frame(10, Ok(Some(trade("BTCUSDT"))))), vec!["publish BTCUSDT"]);
    assert!(rig.feed(frame(11, Ok(None))).is_empty());
    assert!(rig.feed(frame(12, Err(ExchangeError::Parse("bad".to_string())))).is_empty());
    assert_eq!(rig.feed(frame(13, Ok(Some(trade("ETHUSDT"))))), vec!["publish ETHUSDT"]);
    assert_eq!(rig.metrics.messages_received, 4);
    assert_eq!(rig.metrics.messages_parsed, 2);
    assert_eq!(rig.metrics.parse_errors, 1);
    assert_eq!(rig.metrics.last_message_time, Some(13));
    assert_eq!(rig.metrics.connection_errors, 0);
    // a frame that cannot be read does not stop the stream
    assert_eq!(rig.status(), ConnectionStatus::Connected);
}

#[test]
fn frames_outside_a_live_connection_are_ignored() {
    let mut rig = Rig::new(3);
    rig.feed(ConnectionEvent::Started);
    assert!(rig.feed(frame(10, Ok(Some(trade("BTCUSDT"))))).is_empty());
    assert_eq!(rig.metrics, StreamMetrics::default());
}

#[test]
fn keepalive_sends_a_ping() {
    let mut rig = Rig::live(3);
    assert_eq!(rig.feed(ConnectionEvent::KeepaliveDue), vec!["ping"]);
    assert_eq!(rig.status(), ConnectionStatus::Connected);
    let mut down = Rig::new(3);
    down.feed(ConnectionEvent::Started);
    assert!(down.feed(ConnectionEvent::KeepaliveDue).is_empty());
}

#[test]
fn failed_ping_forces_a_reconnect() {
    let mut rig = Rig::live(3);
    assert_eq!(rig.feed(ConnectionEvent::SendFailed), vec!["close", "wait 5000"]);
    assert_eq!(rig.status(), ConnectionStatus::Disconnected);
    assert_eq!(rig.connection.phase, ConnectionPhase::Lost);
    assert_eq!(rig.metrics.connection_errors, 1);
    assert_eq!(rig.metrics.reconnection_count, 1);
    assert_eq!(rig.feed(ConnectionEvent::RetryDue), vec!["open"]);
    assert_eq!(rig.status(), ConnectionStatus::Connecting);
}

#[test]
fn end_of_stream_reconnects_without_an_error() {
    let mut rig = Rig::live(3);
    assert_eq!(rig.feed(ConnectionEvent::Closed), vec!["close", "wait 5000"]);
    assert_eq!(rig.status(), ConnectionStatus::Disconnected);
    assert_eq!(rig.metrics.connection_errors, 0);
    assert_eq!(rig.metrics.reconnection_count, 1);
}

#[test]
fn read_error_and_timeout_are_connection_faults() {
    for event in [ConnectionEvent::ReadFailed, ConnectionEvent::Tick { now: 21_001 }] {
        let mut rig = Rig::live(3);
        assert_eq!(rig.feed(event), vec!["close", "wait 5000"]);
        assert_eq!(rig.status(), ConnectionStatus::Disconnected);
        assert_eq!(rig.metrics.connection_errors, 1);
        assert_eq!(rig.metrics.reconnection_count, 1);
    }
}

#[test]
fn reconnect_on_command() {
    let mut rig = Rig::live(3);
    let actions = rig.feed(ConnectionEvent::Command(ControlMessage::Reconnect));
    assert_eq!(actions, vec!["close", "wait 5000"]);
    assert_eq!(rig.metrics.connection_errors, 0);
    assert_eq!(rig.metrics.reconnection_count, 1);
    // while down, the command changes nothing
    assert!(rig.feed(ConnectionEvent::Command(ControlMessage::Reconnect)).is_empty());
    assert_eq!(rig.metrics.reconnection_count, 1);
}

#[test]
fn subscriptions_are_replayed_after_every_reconnect() {
    let mut rig = Rig::live(3);
    assert_eq!(rig.feed(subscribe("BTCUSDT")), vec!["subscribe BTCUSDT:trade"]);
    assert_eq!(rig.feed(subscribe("ETHUSDT")), vec!["subscribe ETHUSDT:trade"]);
    for _ in 0..2 {
        rig.feed(ConnectionEvent::Closed);
        rig.feed(ConnectionEvent::RetryDue);
        assert_eq!(
            rig.feed(ConnectionEvent::Opened { at: 1_000 }),
            vec!["subscribe BTCUSDT:trade", "subscribe ETHUSDT:trade", "keepalive 30000"]
        );
    }
}

#[test]
fn subscription_made_while_down_is_sent_on_connect() {
    let mut rig = Rig::new(3);
    rig.feed(ConnectionEvent::Started);
    assert!(rig.feed(subscribe("BTCUSDT")).is_empty());
    assert_eq!(rig.registry.len(), 1);
    assert_eq!(
        rig.feed(ConnectionEvent::Opened { at: 1_000 }),
        vec!["subscribe BTCUSDT:trade", "keepalive 30000"]
    );
}

#[test]
fn subscribing_twice_registers_once() {
    let mut rig = Rig::live(3);
    rig.feed(subscribe("BTCUSDT"));
    rig.feed(subscribe("BTCUSDT"));
    assert_eq!(rig.registry.len(), 1);
    rig.feed(ConnectionEvent::Closed);
    rig.feed(ConnectionEvent::RetryDue);
    assert_eq!(
        rig.feed(ConnectionEvent::Opened { at: 1_000 }),
        vec!["subscribe BTCUSDT:trade", "keepalive 30000"]
    );
}

#[test]
fn unsubscribed_streams_are_not_replayed() {
    let mut rig = Rig::live(3);
    rig.feed(subscribe("BTCUSDT"));
    rig.feed(subscribe("ETHUSDT"));
    assert_eq!(rig.feed(unsubscribe("BTCUSDT")), vec!["unsubscribe BTCUSDT:trade"]);
    assert_eq!(rig.registry.len(), 1);
    rig.feed(ConnectionEvent::Closed);
    rig.feed(ConnectionEvent::RetryDue);
    assert_eq!(
        rig.feed(ConnectionEvent::Opened { at: 1_000 }),
        vec!["subscribe ETHUSDT:trade", "keepalive 30000"]
    );
}

#[test]
fn shutdown_wins_in_every_phase() {
    // idle
    let mut rig = Rig::new(3);
    assert_eq!(rig.feed(shutdown()), vec!["stop"]);
    assert_eq!(rig.connection.phase, ConnectionPhase::Stopped);
    // opening
    let mut rig = Rig::new(3);
    rig.feed(ConnectionEvent::Started);
    assert_eq!(rig.feed(shutdown()), vec!["stop"]);
    assert_eq!(rig.status(), ConnectionStatus::Disconnected);
    // waiting for a reconnect: the reconnect is abandoned
    let mut rig = Rig::new(3);
    rig.feed(ConnectionEvent::Started);
    rig.feed(ConnectionEvent::OpenFailed);
    assert_eq!(rig.feed(shutdown()), vec!["stop"]);
    assert!(rig.feed(ConnectionEvent::RetryDue).is_empty());
    assert_eq!(rig.status(), ConnectionStatus::Disconnected);
    // live
    let mut rig = Rig::live(3);
    assert_eq!(rig.feed(shutdown()), vec!["close", "stop"]);
    assert!(rig.connection.is_over());
    assert!(rig.feed(frame(1, Ok(Some(trade("BTCUSDT"))))).is_empty());
    assert!(rig.feed(subscribe("BTCUSDT")).is_empty());
    assert_eq!(rig.registry.len(), 0);
    assert_eq!(rig.metrics.messages_received, 0);
}

#[test]
fn counters_stop_at_the_largest_value() {
    let mut rig = Rig::live(3);
    rig.metrics.messages_received = u64::MAX;
    rig.metrics.messages_parsed = u64::MAX - 1;
    rig.feed(frame(1, Ok(Some(trade("BTCUSDT")))));
    assert_eq!(rig.metrics.messages_received, u64::MAX);
    assert_eq!(rig.metrics.messages_parsed, u64::MAX);
}

fn tick(now: u64) -> ConnectionEvent {
    ConnectionEvent::Tick { now }
}

#[test]
fn the_wait_for_a_frame_counts_from_the_opening() {
    // opened at 1000 with a message timeout of 20 s
    let mut rig = Rig::live(3);
    assert_eq!(rig.connection.silent_since, Some(1_000));
    assert_eq!(rig.connection.frame_deadline(), Some(21_000));
    assert!(!rig.connection.is_overdue(0));
    assert!(!rig.connection.is_overdue(21_000));
    assert!(rig.connection.is_overdue(21_001));
    // a clock that is not past the deadline changes nothing
    assert!(rig.feed(tick(1_000)).is_empty());
    assert!(rig.feed(tick(21_000)).is_empty());
    assert!(rig.feed(tick(0)).is_empty());
    assert_eq!(rig.status(), ConnectionStatus::Connected);
    assert_eq!(rig.metrics, StreamMetrics::default());
    // one that is past it is a connection fault
    assert_eq!(rig.feed(tick(21_001)), vec!["close", "wait 5000"]);
    assert_eq!(rig.status(), ConnectionStatus::Disconnected);
    assert_eq!(rig.metrics.connection_errors, 1);
    assert_eq!(rig.metrics.reconnection_count, 1);
    assert_eq!(rig.connection.frame_deadline(), None);
    assert_eq!(rig.feed(ConnectionEvent::RetryDue), vec!["open"]);
}

#[test]
fn pings_and_commands_do_not_put_the_timeout_off() {
    // the ping comes as often as the timeout would fire
    let mut rig = Rig::live(3);
    for now in [5_000u64, 10_000, 15_000, 20_000] {
        assert_eq!(rig.feed(ConnectionEvent::KeepaliveDue), vec!["ping"]);
        assert_eq!(rig.feed(subscribe("BTCUSDT")), vec!["subscribe BTCUSDT:trade"]);
        assert_eq!(rig.feed(unsubscribe("BTCUSDT")), vec!["unsubscribe BTCUSDT:trade"]);
        assert!(rig.feed(tick(now)).is_empty());
        assert_eq!(rig.connection.frame_deadline(), Some(21_000));
    }
    assert_eq!(rig.feed(ConnectionEvent::KeepaliveDue), vec!["ping"]);
    assert_eq!(rig.feed(tick(25_000)), vec!["close", "wait 5000"]);
    assert_eq!(rig.status(), ConnectionStatus::Disconnected);
    assert_eq!(rig.metrics.connection_errors, 1);
}

#[test]
fn every_frame_starts_the_wait_anew() {
    let mut rig = Rig::live(3);
    rig.feed(frame(15_000, Ok(None)));
    assert_eq!(rig.connection.frame_deadline(), Some(35_000));
    assert!(rig.feed(tick(21_001)).is_empty());
    rig.feed(frame(30_000, Err(ExchangeError::Parse("bad".to_string()))));
    assert_eq!(rig.connection.frame_deadline(), Some(50_000));
    rig.feed(frame(49_999, Ok(Some(trade("BTCUSDT")))));
    assert!(rig.feed(tick(50_001)).is_empty());
    assert_eq!(rig.status(), ConnectionStatus::Connected);
    assert_eq!(rig.feed(tick(70_000)), vec!["close", "wait 5000"]);
    assert_eq!(rig.metrics.connection_errors, 1);
    assert_eq!(rig.metrics.messages_received, 3);
}

#[test]
fn the_wait_counts_anew_after_a_reconnect() {
    let mut rig = Rig::live(3);
    rig.feed(tick(30_000));
    assert_eq!(rig.status(), ConnectionStatus::Disconnected);
    // while the transport is down no frame is overdue
    assert!(rig.feed(tick(90_000)).is_empty());
    assert_eq!(rig.metrics.connection_errors, 1);
    rig.feed(ConnectionEvent::RetryDue);
    assert!(rig.feed(tick(90_000)).is_empty());
    rig.feed(ConnectionEvent::Opened { at: 100_000 });
    assert_eq!(rig.connection.frame_deadline(), Some(120_000));
    assert!(rig.feed(tick(120_000)).is_empty());
    assert_eq!(rig.feed(tick(120_001)), vec!["close", "wait 5000"]);
    assert_eq!(rig.metrics.connection_errors, 2);
}

#[test]
fn a_deadline_beyond_the_end_of_time_never_passes() {
    let mut rig = Rig::new(3);
    rig.feed(ConnectionEvent::Started);
    rig.feed(ConnectionEvent::Opened { at: u64::MAX - 5 });
    assert_eq!(rig.connection.frame_deadline(), Some(u64::MAX));
    assert!(rig.feed(tick(u64::MAX)).is_empty());
    assert_eq!(rig.status(), ConnectionStatus::Connected);
}
