use exchange_feed::arbitrage::{
    divide, forward_round_trip, gain, multiply, reverse_round_trip, sort_by_profit,
    ArbitrageOpportunity, Triangle,
};
use exchange_feed::book_manager::{ArbitrageConfig, OrderBookManager, SLOW_UPDATE_MICROS};
use exchange_feed::errors::ExchangeError;
use exchange_feed::orderbook::{DepthSnapshot, DepthUpdate, OrderBook};
use exchange_feed::types::{
    Exchange, Side, Symbol, UniversalMarketData, UniversalOrderBook, UniversalQuote,
};

fn fx(value: f64) -> u64 {
    (value * 1e8).round() as u64
}

fn pair(price: &str, size: &str) -> [String; 2] {
    [price.to_string(), size.to_string()]
}

fn book(symbol: &str, bid: f64, ask: f64) -> OrderBook {
    OrderBook::load_snapshot(symbol, 100, &vec![(fx(bid), fx(1.0))], &vec![(fx(ask), fx(1.0))], 0)
}

fn snapshot(last_update_id: u64, bid: &str, ask: &str) -> DepthSnapshot {
    DepthSnapshot { last_update_id, bids: vec![pair(bid, "1")], asks: vec![pair(ask, "1")] }
}

fn update(first: u64, last: u64, bid: &str, size: &str) -> DepthUpdate {
    DepthUpdate {
        first_update_id: first,
        final_update_id: last,
        bids: vec![pair(bid, size)],
        asks: vec![],
        event_time: Some(1),
    }
}

fn opportunity(label: &str, profit_bps: u128) -> ArbitrageOpportunity {
    ArbitrageOpportunity {
        symbol_pair: (label.to_string(), String::new()),
        profit_bps,
        side: Side::Buy,
        size: 0,
        exchange_buy: String::new(),
        exchange_sell: String::new(),
        detected_at: 0,
    }
}

#[test]
fn new_registry_has_no_books() {
    let manager = OrderBookManager::new();
    assert_eq!(manager.book_count(), 0);
    assert_eq!(manager.update_total(), 0);
    assert_eq!(manager.slow_update_count(), 0);
    assert!(manager.get_book("BTCUSDT").is_none());
    assert_eq!(manager.last_scan_at(), None);
    assert_eq!(manager.updates_of("BTCUSDT"), None);
    let stats = manager.get_stats();
    assert_eq!(stats.total_updates, 0);
    assert!(stats.books.is_empty());
}

#[test]
fn default_configuration() {
    let config = ArbitrageConfig::default();
    assert_eq!(config.direct_pairs, vec![("BTCUSDT".to_string(), "BTCBUSD".to_string())]);
    assert_eq!(config.triangles.len(), 1);
    assert_eq!(config.triangles[0].base_symbol, "BTCUSDT");
    assert_eq!(config.triangles[0].alt_symbol, "ETHUSDT");
    assert_eq!(config.triangles[0].cross_symbol, "ETHBTC");
    assert_eq!(config.triangles[0].forward_label, "BTC-ETH-USD");
    assert_eq!(config.triangles[0].reverse_label, "ETH-BTC-USD");
    assert_eq!(config.threshold_bps, fx(1.0));
    assert_eq!(config.direct_size, fx(0.1));
    assert_eq!(config.stake, fx(1000.0));
    assert_eq!(config.min_scan_interval_ms, 100);
    assert_eq!(SLOW_UPDATE_MICROS, 100);
    let manager = OrderBookManager::new();
    assert_eq!(manager.arbitrage_config().threshold_bps, fx(1.0));
    assert_eq!(manager.arbitrage_config().direct_pairs.len(), 1);
}

#[test]
fn books_are_found_by_symbol() {
    let mut manager = OrderBookManager::new();
    manager.insert_book(book("BTCUSDT", 30000.0, 30001.0));
    manager.insert_book(book("ETHUSDT", 2000.0, 2001.0));
    manager.insert_book(book("ETHBTC", 0.066, 0.067));
    assert_eq!(manager.book_count(), 3);
    assert_eq!(manager.get_book("ETHUSDT").unwrap().best_bid(), Some((fx(2000.0), fx(1.0))));
    assert_eq!(manager.get_book("BTCUSDT").unwrap().best_ask(), Some((fx(30001.0), fx(1.0))));
    assert_eq!(manager.get_book("ETHBTC").unwrap().symbol(), "ETHBTC");
    assert!(manager.get_book("btcusdt").is_none());
    assert!(manager.get_book("").is_none());
}

#[test]
fn one_book_per_symbol() {
    let mut manager = OrderBookManager::new();
    manager.insert_book(book("BTCUSDT", 30000.0, 30001.0));
    manager.insert_book(book("ETHUSDT", 2000.0, 2001.0));
    manager.insert_book(book("BTCUSDT", 31000.0, 31001.0));
    assert_eq!(manager.book_count(), 2);
    assert_eq!(manager.get_book("BTCUSDT").unwrap().best_bid(), Some((fx(31000.0), fx(1.0))));
    let stats = manager.get_stats();
    assert_eq!(stats.books[0].symbol, "BTCUSDT");
    assert_eq!(stats.books[1].symbol, "ETHUSDT");
}

#[test]
fn initialize_skips_failed_snapshots() {
    let manager = OrderBookManager::initialize(
        vec![
            ("BTCUSDT".to_string(), Ok(snapshot(10, "30000", "30001"))),
            (
                "ETHUSDT".to_string(),
                Err(ExchangeError::Timeout { seconds: 5 }),
            ),
            ("BNBUSDT".to_string(), Ok(snapshot(20, "bad", "301"))),
            ("SOLUSDT".to_string(), Ok(snapshot(30, "150", "151"))),
        ],
        77,
    );
    assert_eq!(manager.book_count(), 2);
    assert_eq!(manager.get_book("BTCUSDT").unwrap().last_update_id(), 10);
    assert_eq!(manager.get_book("SOLUSDT").unwrap().last_update_id(), 30);
    assert_eq!(manager.get_book("SOLUSDT").unwrap().timestamp(), 77);
    assert!(manager.get_book("ETHUSDT").is_none());
    assert!(manager.get_book("BNBUSDT").is_none());
    assert_eq!(manager.updates_of("BTCUSDT"), Some(0));
    assert_eq!(manager.update_total(), 0);
}

#[test]
fn updates_are_routed_and_counted() {
    let mut manager = OrderBookManager::new();
    manager.insert_book(book("BTCUSDT", 30000.0, 30001.0));
    manager.insert_book(book("ETHUSDT", 2000.0, 2001.0));
    assert!(manager.process_update_at("ETHUSDT", &update(101, 101, "1999", "2"), 5).is_ok());
    assert!(manager.process_update_at("ETHUSDT", &update(102, 102, "1998", "2"), 5).is_ok());
    assert!(manager.process_update_at("BTCUSDT", &update(101, 101, "29999", "2"), 5).is_ok());
    assert_eq!(manager.updates_of("ETHUSDT"), Some(2));
    assert_eq!(manager.updates_of("BTCUSDT"), Some(1));
    assert_eq!(manager.update_total(), 3);
    assert_eq!(manager.get_book("ETHUSDT").unwrap().bid_count(), 3);
    assert_eq!(manager.get_book("BTCUSDT").unwrap().bid_count(), 2);
    let stats = manager.get_stats();
    assert_eq!(stats.total_updates, 3);
    assert_eq!(stats.books.len(), 2);
    assert_eq!((stats.books[0].bids, stats.books[0].asks, stats.books[0].updates), (2, 1, 1));
    assert_eq!((stats.books[1].bids, stats.books[1].asks, stats.books[1].updates), (3, 1, 2));
}

#[test]
fn update_for_an_unknown_symbol_is_refused() {
    let mut manager = OrderBookManager::new();
    manager.insert_book(book("BTCUSDT", 30000.0, 30001.0));
    match manager.process_update_at("DOGEUSDT", &update(101, 101, "1", "1"), 5) {
        Err(ExchangeError::SymbolNotFound { symbol }) => assert_eq!(symbol, "DOGEUSDT"),
        other => panic!("expected SymbolNotFound, got {:?}", other),
    }
    assert_eq!(manager.update_total(), 0);
}

#[test]
fn refused_updates_are_not_counted() {
    let mut manager = OrderBookManager::new();
    manager.insert_book(book("BTCUSDT", 30000.0, 30001.0));
    match manager.process_update_at("BTCUSDT", &update(105, 106, "29999", "2"), 5) {
        Err(ExchangeError::SequenceGap { expected, received }) => {
            assert_eq!((expected, received), (101, 105));
        }
        other => panic!("expected a sequence gap, got {:?}", other),
    }
    assert!(manager.process_update_at("BTCUSDT", &update(101, 101, "x", "2"), 5).is_err());
    assert_eq!(manager.updates_of("BTCUSDT"), Some(0));
    assert_eq!(manager.update_total(), 0);
    assert!(manager.get_book("BTCUSDT").unwrap().is_stale());
}

#[test]
fn a_fresh_snapshot_brings_a_stale_book_back() {
    let mut manager = OrderBookManager::new();
    manager.insert_book(book("BTCUSDT", 30000.0, 30001.0));
    assert!(manager.process_update_at("BTCUSDT", &update(101, 101, "29999", "2"), 5).is_ok());
    assert!(manager.process_update_at("BTCUSDT", &update(200, 201, "29999", "2"), 5).is_err());
    assert!(manager.get_book("BTCUSDT").unwrap().is_stale());
    assert!(manager.install_snapshot("BTCUSDT", &snapshot(250, "30500", "30501"), 9).is_ok());
    let fresh = manager.get_book("BTCUSDT").unwrap();
    assert!(!fresh.is_stale());
    assert_eq!(fresh.last_update_id(), 250);
    assert_eq!(fresh.bid_count(), 1);
    assert_eq!(manager.updates_of("BTCUSDT"), Some(0));
    assert_eq!(manager.update_total(), 1);
    assert!(manager.process_update_at("BTCUSDT", &update(251, 251, "30499", "2"), 5).is_ok());
    // an unreadable snapshot changes nothing
    assert!(manager.install_snapshot("BTCUSDT", &snapshot(300, "oops", "1"), 9).is_err());
    assert_eq!(manager.get_book("BTCUSDT").unwrap().last_update_id(), 251);
}

#[test]
fn slow_updates_are_counted_not_refused() {
    let mut manager = OrderBookManager::new();
    manager.record_latency(100);
    assert_eq!(manager.slow_update_count(), 0);
    manager.record_latency(101);
    assert_eq!(manager.slow_update_count(), 1);
    manager.record_latency(5);
    manager.record_latency(1_000_000);
    assert_eq!(manager.slow_update_count(), 2);
}

#[test]
fn process_update_reads_the_clocks() {
    let mut manager = OrderBookManager::new();
    manager.insert_book(book("BTCUSDT", 30000.0, 30001.0));
    let no_time = DepthUpdate {
        first_update_id: 101,
        final_update_id: 101,
        bids: vec![pair("29999", "2")],
        asks: vec![],
        event_time: None,
    };
    assert!(manager.process_update("BTCUSDT".to_string(), no_time).is_ok());
    assert!(manager.get_book("BTCUSDT").unwrap().timestamp() > 1_577_836_800_000);
    assert_eq!(manager.update_total(), 1);
    assert!(manager.process_update("NOPE".to_string(), update(1, 1, "1", "1")).is_err());
    assert_eq!(manager.update_total(), 1);
}

#[test]
fn fixed_point_arithmetic() {
    assert_eq!(multiply(fx(2.0) as u128, fx(3.5)), Some(fx(7.0) as u128));
    assert_eq!(multiply(u128::MAX, 2), None);
    assert_eq!(multiply(0, u64::MAX), Some(0));
    assert_eq!(divide(fx(7.0) as u128, fx(2.0)), Some(fx(3.5) as u128));
    assert_eq!(divide(fx(1.0) as u128, fx(3.0)), Some(33_333_333));
    assert_eq!(divide(fx(7.0) as u128, 0), None);
    assert_eq!(divide(u128::MAX / 2, 1), None);
    assert_eq!(gain(fx(100.0) as u128, fx(101.0) as u128), Some(fx(100.0) as u128));
    assert_eq!(gain(fx(100.0) as u128, fx(100.0) as u128), Some(0));
    assert_eq!(gain(fx(100.0) as u128, fx(99.0) as u128), Some(0));
    assert_eq!(gain(0, fx(99.0) as u128), None);
    assert_eq!(gain(1, u128::MAX), None);
}

#[test]
fn scenario_direct_arbitrage() {
    // book A bid 30010 / ask 30011, book B bid 30020 / ask 30021
    let mut manager = OrderBookManager::new();
    manager.insert_book(book("BTCUSDT", 30010.0, 30011.0));
    manager.insert_book(book("BTCBUSD", 30020.0, 30021.0));
    let found = manager.find_direct_arbitrage_at(1234);
    assert_eq!(found.len(), 1);
    let only = &found[0];
    // (30020 - 30011) / 30011 * 10000 = 2.99890040... basis points
    assert_eq!(only.profit_bps, 299_890_040);
    let as_float = only.profit_bps as f64 / 1e8;
    assert!((as_float - 3.0).abs() < 0.01);
    assert_eq!(only.symbol_pair, ("BTCUSDT".to_string(), "BTCBUSD".to_string()));
    assert_eq!(only.exchange_buy, "BTCUSDT");
    assert_eq!(only.exchange_sell, "BTCBUSD");
    assert_eq!(only.side, Side::Buy);
    assert_eq!(only.size, fx(0.1));
    assert_eq!(only.detected_at, 1234);
}

#[test]
fn direct_arbitrage_the_other_way_round() {
    let mut manager = OrderBookManager::new();
    manager.insert_book(book("BTCUSDT", 30020.0, 30021.0));
    manager.insert_book(book("BTCBUSD", 30010.0, 30011.0));
    let found = manager.find_direct_arbitrage_at(0);
    assert_eq!(found.len(), 1);
    assert_eq!(found[0].symbol_pair, ("BTCBUSD".to_string(), "BTCUSDT".to_string()));
    assert_eq!(found[0].profit_bps, 299_890_040);
}

#[test]
fn no_direct_arbitrage_at_or_below_the_threshold() {
    let mut manager = OrderBookManager::new();
    // (30003 - 30000) / 30000 * 10000 = exactly one basis point
    manager.insert_book(book("BTCUSDT", 29999.0, 30000.0));
    manager.insert_book(book("BTCBUSD", 30003.0, 30004.0));
    assert!(manager.find_direct_arbitrage_at(0).is_empty());
    // a little more pays
    manager.insert_book(book("BTCBUSD", 30003.01, 30004.0));
    assert_eq!(manager.find_direct_arbitrage_at(0).len(), 1);
}

#[test]
fn no_direct_arbitrage_without_both_books_and_all_quotes() {
    let mut manager = OrderBookManager::new();
    manager.insert_book(book("BTCUSDT", 30010.0, 30011.0));
    assert!(manager.find_direct_arbitrage_at(0).is_empty());
    manager.insert_book(OrderBook::load_snapshot(
        "BTCBUSD",
        1,
        &vec![(fx(30020.0), fx(1.0))],
        &vec![],
        0,
    ));
    assert!(manager.find_direct_arbitrage_at(0).is_empty());
}

#[test]
fn configured_pairs_are_scanned() {
    let config = ArbitrageConfig {
        direct_pairs: vec![
            ("AAA".to_string(), "BBB".to_string()),
            ("CCC".to_string(), "DDD".to_string()),
        ],
        triangles: vec![],
        threshold_bps: fx(50.0),
        direct_size: fx(2.0),
        stake: fx(1.0),
        min_scan_interval_ms: 0,
    };
    let mut manager = OrderBookManager::with_config(config);
    manager.insert_book(book("AAA", 99.0, 100.0));
    manager.insert_book(book("BBB", 100.4, 100.6));
    manager.insert_book(book("CCC", 99.0, 100.0));
    manager.insert_book(book("DDD", 102.0, 103.0));
    let found = manager.find_direct_arbitrage_at(0);
    // 40 basis points do not pay at a threshold of 50, 200 do
    assert_eq!(found.len(), 1);
    assert_eq!(found[0].exchange_buy, "CCC");
    assert_eq!(found[0].profit_bps, fx(200.0) as u128);
    assert_eq!(found[0].size, fx(2.0));
}

#[test]
fn round_trips() {
    // 1000 / 30000 = 0.03333333 BTC; / 0.06 = 0.55555550 ETH; * 2000 = 1111.111
    let forward = forward_round_trip(fx(1000.0), fx(30000.0), fx(0.06), fx(2000.0));
    assert_eq!(forward, Some(111_111_100_000));
    // 1000 / 2000 = 0.5 ETH; * 0.07 = 0.035 BTC; * 30000 = 1050
    let reverse = reverse_round_trip(fx(1000.0), fx(2000.0), fx(0.07), fx(30000.0));
    assert_eq!(reverse, Some(fx(1050.0) as u128));
    assert_eq!(forward_round_trip(fx(1000.0), 0, fx(0.06), fx(2000.0)), None);
    assert_eq!(forward_round_trip(fx(1000.0), fx(30000.0), 0, fx(2000.0)), None);
    assert_eq!(reverse_round_trip(fx(1000.0), 0, fx(0.07), fx(30000.0)), None);
    // figures beyond 128 bits have no value
    assert_eq!(forward_round_trip(u64::MAX, 1, 1, u64::MAX), None);
}

#[test]
fn triangular_arbitrage() {
    let mut manager = OrderBookManager::new();
    manager.insert_book(book("BTCUSDT", 30000.0, 30000.0));
    manager.insert_book(book("ETHUSDT", 2000.0, 2000.0));
    manager.insert_book(book("ETHBTC", 0.07, 0.07));
    let found = manager.find_triangular_arbitrage_at(55);
    // forward: 1000 / 30000 / 0.07 * 2000 = 952.38, a loss
    // reverse: 1000 / 2000 * 0.07 * 30000 = 1050, a gain of 500 basis points
    assert_eq!(found.len(), 1);
    assert_eq!(found[0].symbol_pair, ("ETH-BTC-USD".to_string(), "Triangular".to_string()));
    assert_eq!(found[0].exchange_buy, "Path2");
    assert_eq!(found[0].exchange_sell, "Triangular");
    assert_eq!(found[0].profit_bps, fx(500.0) as u128);
    assert_eq!(found[0].size, fx(1000.0));
    assert_eq!(found[0].detected_at, 55);
}

#[test]
fn triangular_arbitrage_forward() {
    let mut manager = OrderBookManager::new();
    manager.insert_book(book("BTCUSDT", 30000.0, 30000.0));
    manager.insert_book(book("ETHUSDT", 2000.0, 2000.0));
    manager.insert_book(book("ETHBTC", 0.0625, 0.0625));
    let found = manager.find_triangular_arbitrage_at(0);
    assert_eq!(found.len(), 1);
    assert_eq!(found[0].symbol_pair, ("BTC-ETH-USD".to_string(), "Triangular".to_string()));
    assert_eq!(found[0].exchange_buy, "Path1");
    // 1000 / 30000 = 0.03333333; / 0.0625 = 0.53333328; * 2000 = 1066.66656
    assert_eq!(found[0].profit_bps, 66_666_560_000);
}

#[test]
fn no_triangular_arbitrage_without_three_books() {
    let mut manager = OrderBookManager::new();
    manager.insert_book(book("BTCUSDT", 30000.0, 30000.0));
    manager.insert_book(book("ETHBTC", 0.07, 0.07));
    assert!(manager.find_triangular_arbitrage_at(0).is_empty());
}

#[test]
fn sorting_is_by_falling_gain_and_stable() {
    let sorted = sort_by_profit(vec![
        opportunity("a", 5),
        opportunity("b", 9),
        opportunity("c", 5),
        opportunity("d", 1),
        opportunity("e", 9),
    ]);
    let labels: Vec<&str> = sorted.iter().map(|o| o.symbol_pair.0.as_str()).collect();
    assert_eq!(labels, vec!["b", "e", "a", "c", "d"]);
    assert!(sort_by_profit(vec![]).is_empty());
}

#[test]
fn all_arbitrage_is_merged_and_sorted() {
    let config = ArbitrageConfig {
        direct_pairs: vec![("BTCUSDT".to_string(), "BTCBUSD".to_string())],
        triangles: vec![Triangle {
            base_symbol: "BTCUSDT".to_string(),
            alt_symbol: "ETHUSDT".to_string(),
            cross_symbol: "ETHBTC".to_string(),
            forward_label: "BTC-ETH-USD".to_string(),
            reverse_label: "ETH-BTC-USD".to_string(),
        }],
        threshold_bps: fx(1.0),
        direct_size: fx(0.1),
        stake: fx(1000.0),
        min_scan_interval_ms: 100,
    };
    let mut manager = OrderBookManager::with_config(config);
    manager.insert_book(book("BTCUSDT", 30000.0, 30000.0));
    manager.insert_book(book("BTCBUSD", 30009.0, 30010.0));
    manager.insert_book(book("ETHUSDT", 2000.0, 2000.0));
    manager.insert_book(book("ETHBTC", 0.07, 0.07));
    let found = manager.find_all_arbitrage_at(100);
    assert_eq!(found.len(), 2);
    assert_eq!(found[0].profit_bps, fx(500.0) as u128);
    assert_eq!(found[0].exchange_buy, "Path2");
    assert_eq!(found[1].profit_bps, fx(3.0) as u128);
    assert_eq!(found[1].exchange_buy, "BTCUSDT");
}

#[test]
fn scans_are_rate_limited() {
    let mut manager = OrderBookManager::new();
    manager.insert_book(book("BTCUSDT", 30010.0, 30011.0));
    manager.insert_book(book("BTCBUSD", 30020.0, 30021.0));
    // the first scan runs whenever it comes
    assert_eq!(manager.find_all_arbitrage_at(99).len(), 1);
    assert_eq!(manager.last_scan_at(), Some(99));
    // the next one has to keep its distance of 100 ms
    assert!(manager.find_all_arbitrage_at(100).is_empty());
    assert!(manager.find_all_arbitrage_at(198).is_empty());
    assert_eq!(manager.find_all_arbitrage_at(199).len(), 1);
    assert!(manager.find_all_arbitrage_at(250).is_empty());
    assert!(manager.find_all_arbitrage_at(298).is_empty());
    assert_eq!(manager.find_all_arbitrage_at(299).len(), 1);
    // a clock that went back counts as no time at all
    assert!(manager.find_all_arbitrage_at(50).is_empty());
    assert_eq!(manager.find_all_arbitrage_at(400).len(), 1);
}

#[test]
fn first_scan_is_never_held_back() {
    // at time 0, at any time, and on the registry's own clock
    for now in [0u64, 1, 99, 100, u64::MAX] {
        let mut manager = OrderBookManager::new();
        manager.insert_book(book("BTCUSDT", 30010.0, 30011.0));
        manager.insert_book(book("BTCBUSD", 30020.0, 30021.0));
        let found = manager.find_all_arbitrage_at(now);
        assert_eq!(found.len(), 1);
        assert_eq!(found[0].profit_bps, 299_890_040);
        assert_eq!(found[0].detected_at, now);
    }
    let mut manager = OrderBookManager::new();
    manager.insert_book(book("BTCUSDT", 30010.0, 30011.0));
    manager.insert_book(book("BTCBUSD", 30020.0, 30021.0));
    assert_eq!(manager.find_all_arbitrage().len(), 1);
    // the second call comes within a few microseconds: too soon
    assert!(manager.find_all_arbitrage().is_empty());
    assert_eq!(manager.find_direct_arbitrage().len(), 1);
    assert!(manager.find_triangular_arbitrage().is_empty());
}

#[test]
fn a_first_scan_that_finds_nothing_still_counts_as_a_scan() {
    let mut manager = OrderBookManager::new();
    assert!(manager.find_all_arbitrage_at(10).is_empty());
    manager.insert_book(book("BTCUSDT", 30010.0, 30011.0));
    manager.insert_book(book("BTCBUSD", 30020.0, 30021.0));
    assert!(manager.find_all_arbitrage_at(109).is_empty());
    assert_eq!(manager.find_all_arbitrage_at(110).len(), 1);
}

#[test]
fn normalized_depth_updates_are_routed() {
    let depth = |symbol: &str, first: u64, last: u64| UniversalOrderBook {
        exchange: Exchange::Binance,
        symbol: Symbol::new(symbol),
        bids: vec![(fx(29999.0), fx(2.0)), (fx(30000.0), 0)],
        asks: vec![],
        timestamp_exchange: 4_000,
        timestamp_local: 4_001,
        first_sequence: first,
        sequence: last,
    };
    let mut manager = OrderBookManager::new();
    manager.insert_book(book("BTCUSDT", 30000.0, 30001.0));
    assert!(manager.process_depth(&depth("BTCUSDT", 101, 103)).is_ok());
    let changed = manager.get_book("BTCUSDT").unwrap();
    assert_eq!(changed.best_bid(), Some((fx(29999.0), fx(2.0))));
    assert_eq!(changed.last_update_id(), 103);
    assert_eq!(changed.timestamp(), 4_000);
    assert_eq!(manager.updates_of("BTCUSDT"), Some(1));
    assert_eq!(manager.update_total(), 1);
    match manager.process_depth(&depth("BTCUSDT", 110, 111)) {
        Err(ExchangeError::SequenceGap { expected, received }) => {
            assert_eq!((expected, received), (104, 110));
        }
        other => panic!("expected a sequence gap, got {:?}", other),
    }
    match manager.process_depth(&depth("ETHUSDT", 1, 1)) {
        Err(ExchangeError::SymbolNotFound { symbol }) => assert_eq!(symbol, "ETHUSDT"),
        other => panic!("expected SymbolNotFound, got {:?}", other),
    }
    assert_eq!(manager.update_total(), 1);
}

#[test]
fn stats_are_rendered_as_text() {
    let mut manager = OrderBookManager::new();
    assert_eq!(manager.get_stats().render(), "Total updates: 0\nBooks:\n");
    manager.insert_book(book("BTCUSDT", 30000.0, 30001.0));
    manager.insert_book(book("ETHUSDT", 2000.0, 2001.0));
    for id in 101..113 {
        let text = id.to_string();
        assert!(manager.process_update_at("ETHUSDT", &update(id, id, &text, "1"), 5).is_ok());
    }
    assert_eq!(
        manager.get_stats().render(),
        "Total updates: 12\nBooks:\n  BTCUSDT: 1 bids, 1 asks, 0 updates\n  ETHUSDT: 13 bids, 1 asks, 12 updates\n"
    );
}

#[test]
fn only_depth_events_are_routed() {
    let mut manager = OrderBookManager::new();
    manager.insert_book(book("BTCUSDT", 30000.0, 30001.0));
    let quote = UniversalMarketData::Quote(UniversalQuote {
        exchange: Exchange::Binance,
        symbol: Symbol::new("BTCUSDT"),
        bid_price: fx(1.0),
        bid_size: fx(1.0),
        ask_price: fx(2.0),
        ask_size: fx(1.0),
        timestamp_exchange: 1,
        timestamp_local: 2,
    });
    assert!(manager.process_event(&quote).is_none());
    assert_eq!(manager.update_total(), 0);
    assert_eq!(manager.get_book("BTCUSDT").unwrap().best_bid(), Some((fx(30000.0), fx(1.0))));
    let depth = |first: u64| {
        UniversalMarketData::OrderBook(UniversalOrderBook {
            exchange: Exchange::Binance,
            symbol: Symbol::new("BTCUSDT"),
            bids: vec![(fx(30000.5), fx(1.0))],
            asks: vec![],
            timestamp_exchange: 3,
            timestamp_local: 4,
            first_sequence: first,
            sequence: first,
        })
    };
    assert!(matches!(manager.process_event(&depth(101)), Some(Ok(()))));
    assert_eq!(manager.update_total(), 1);
    assert!(matches!(
        manager.process_event(&depth(105)),
        Some(Err(ExchangeError::SequenceGap { expected: 102, received: 105 }))
    ));
    assert_eq!(manager.update_total(), 1);
}
