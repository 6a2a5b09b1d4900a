use exchange_feed::connection::{ConnectionAction, ConnectionEvent};
use exchange_feed::types::{Exchange, Side, Symbol, UniversalMarketData, UniversalTrade};
use exchange_feed::websocket::{WebSocketConfig, WebSocketManager};
use tokio::sync::broadcast;
use tokio::sync::broadcast::error::TryRecvError;

fn trade(number: u64) -> UniversalMarketData {
    UniversalMarketData::Trade(UniversalTrade {
        exchange: Exchange::Binance,
        symbol: Symbol::new("BTCUSDT"),
        price: number,
        quantity: 1,
        side: Side::Buy,
        timestamp_exchange: number,
        timestamp_local: number,
        trade_id: number.to_string(),
    })
}

fn number_of(data: UniversalMarketData) -> u64 {
    match data {
        UniversalMarketData::Trade(trade) => trade.price,
        _ => panic!("a trade was published"),
    }
}

/// A connected manager and the channel that its runner would publish on.
fn stream(buffer_size: usize) -> (WebSocketManager, broadcast::Sender<UniversalMarketData>) {
    let config = WebSocketConfig { buffer_size, ..WebSocketConfig::default() };
    let mut manager = WebSocketManager::new(config, Exchange::Binance);
    manager.start().unwrap();
    manager.handle_event(ConnectionEvent::Opened { at: 1_000 });
    let (sender, _) = broadcast::channel(manager.get_config().buffer_size);
    (manager, sender)
}

/// Feeds one frame and performs the actions as the runner does.
fn publish(
    manager: &mut WebSocketManager,
    sender: &broadcast::Sender<UniversalMarketData>,
    number: u64,
) {
    let frame = ConnectionEvent::Frame { received_at: number, outcome: Ok(Some(trade(number))) };
    for action in manager.handle_event(frame) {
        match action {
            ConnectionAction::Publish(data) => {
                let _ = sender.send(data);
            }
            other => panic!("a frame only publishes, got {:?}", other),
        }
    }
}

#[test]
fn every_receiver_sees_every_event() {
    let (mut manager, sender) = stream(8);
    let mut first = sender.subscribe();
    let mut second = sender.subscribe();
    for number in 1..=5 {
        publish(&mut manager, &sender, number);
    }
    for receiver in [&mut first, &mut second] {
        for number in 1..=5 {
            assert_eq!(number_of(receiver.try_recv().unwrap()), number);
        }
        assert!(matches!(receiver.try_recv(), Err(TryRecvError::Empty)));
    }
    assert_eq!(manager.get_metrics().messages_parsed, 5);
}

#[test]
fn receiver_that_falls_behind_observes_a_gap() {
    // a buffer of four events and six published: the receiver that waits
    // misses the two oldest, the receiver that keeps up misses none
    let (mut manager, sender) = stream(4);
    let mut waiting = sender.subscribe();
    let mut keeping_up = sender.subscribe();
    let mut seen = Vec::new();
    for number in 1..=6 {
        publish(&mut manager, &sender, number);
        seen.push(number_of(keeping_up.try_recv().unwrap()));
    }
    assert_eq!(seen, vec![1, 2, 3, 4, 5, 6]);
    assert!(matches!(waiting.try_recv(), Err(TryRecvError::Lagged(2))));
    for number in 3..=6 {
        assert_eq!(number_of(waiting.try_recv().unwrap()), number);
    }
    assert!(matches!(waiting.try_recv(), Err(TryRecvError::Empty)));
    assert_eq!(manager.get_metrics().messages_received, 6);
}

#[test]
fn publishing_without_receivers_does_not_block() {
    let (mut manager, sender) = stream(2);
    for number in 1..=10 {
        publish(&mut manager, &sender, number);
    }
    assert_eq!(manager.get_metrics().messages_parsed, 10);
    // a receiver sees what is published after it came
    let mut late = sender.subscribe();
    publish(&mut manager, &sender, 11);
    assert_eq!(number_of(late.try_recv().unwrap()), 11);
}
