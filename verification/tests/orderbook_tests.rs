use exchange_feed::errors::ExchangeError;
use exchange_feed::orderbook::{parse_levels, DepthSnapshot, DepthUpdate, OrderBook};

fn fx(value: f64) -> u64 {
    (value * 1e8).round() as u64
}

fn pair(price: &str, size: &str) -> [String; 2] {
    [price.to_string(), size.to_string()]
}

fn snapshot_book() -> OrderBook {
    OrderBook::load_snapshot(
        "BTCUSDT",
        100,
        &vec![(fx(30000.0), fx(1.0))],
        &vec![(fx(30001.0), fx(1.0))],
        1_000,
    )
}

fn deep_book() -> OrderBook {
    OrderBook::load_snapshot(
        "BTCUSDT",
        7,
        &vec![(fx(99.0), fx(1.0)), (fx(98.0), fx(2.0)), (fx(90.0), fx(4.0))],
        &vec![(fx(101.0), fx(1.0)), (fx(102.0), fx(3.0)), (fx(120.0), fx(5.0))],
        1_000,
    )
}

#[test]
fn new_book_is_empty() {
    let book = OrderBook::new("ETHUSDT".to_string());
    assert_eq!(book.symbol(), "ETHUSDT");
    assert_eq!(book.last_update_id(), 0);
    assert_eq!(book.timestamp(), 0);
    assert!(!book.is_stale());
    assert_eq!(book.best_bid(), None);
    assert_eq!(book.best_ask(), None);
    assert_eq!(book.mid_price(), None);
    assert_eq!(book.spread_bps(), None);
    assert_eq!(book.liquidity_within(fx(0.01)), (0, 0));
    assert!(book.verify_integrity());
}

#[test]
fn snapshot_replaces_all_state() {
    let book = snapshot_book();
    assert_eq!(book.symbol(), "BTCUSDT");
    assert_eq!(book.last_update_id(), 100);
    assert_eq!(book.timestamp(), 1_000);
    assert_eq!(book.best_bid(), Some((fx(30000.0), fx(1.0))));
    assert_eq!(book.best_ask(), Some((fx(30001.0), fx(1.0))));
    assert!(!book.is_stale());
    assert!(book.verify_integrity());
}

#[test]
fn snapshot_does_not_store_empty_levels() {
    let book = OrderBook::load_snapshot("X", 1, &vec![(10, 0), (9, 5)], &vec![(11, 0)], 0);
    assert_eq!(book.bid_count(), 1);
    assert_eq!(book.ask_count(), 0);
    assert_eq!(book.best_bid(), Some((9, 5)));
}

#[test]
fn scenario_remove_bid_then_add_ask() {
    let mut book = snapshot_book();
    // apply seq=[101,101] bid(30000, 0): the only bid is gone
    assert!(book.apply_changes(101, 101, &vec![(fx(30000.0), 0)], &vec![], 2_000).is_ok());
    assert_eq!(book.best_bid(), None);
    assert_eq!(book.last_update_id(), 101);
    // apply seq=[102,102] ask(30001.5, 2.0)
    assert!(book.apply_changes(102, 102, &vec![], &vec![(fx(30001.5), fx(2.0))], 3_000).is_ok());
    assert_eq!(book.last_update_id(), 102);
    assert_eq!(book.timestamp(), 3_000);
    assert_eq!(book.best_ask(), Some((fx(30001.0), fx(1.0))));
    let (_, asks) = book.top_levels(2);
    assert_eq!(asks, vec![(fx(30001.0), fx(1.0)), (fx(30001.5), fx(2.0))]);
}

#[test]
fn scenario_added_ask_is_best_once_the_old_one_is_gone() {
    let mut book = snapshot_book();
    assert!(book.apply_changes(101, 101, &vec![(fx(30000.0), 0)], &vec![], 2_000).is_ok());
    assert!(book
        .apply_changes(102, 102, &vec![], &vec![(fx(30001.0), 0), (fx(30001.5), fx(2.0))], 3_000)
        .is_ok());
    assert_eq!(book.best_ask(), Some((fx(30001.5), fx(2.0))));
    assert_eq!(book.best_ask(), Some((3_000_150_000_000, 200_000_000)));
}

#[test]
fn update_right_after_snapshot_is_accepted() {
    for last in [0u64, 1, 100, u64::MAX - 1] {
        let mut book = OrderBook::load_snapshot("S", last, &vec![], &vec![], 0);
        assert!(book.apply_changes(last + 1, last + 1, &vec![(5, 5)], &vec![], 1).is_ok());
        assert_eq!(book.last_update_id(), last + 1);
    }
}

#[test]
fn update_that_overlaps_is_accepted() {
    let mut book = snapshot_book();
    assert!(book.apply_changes(95, 103, &vec![(fx(29999.0), fx(3.0))], &vec![], 9).is_ok());
    assert_eq!(book.last_update_id(), 103);
    assert_eq!(book.bid_count(), 2);
}

#[test]
fn overlapping_batch_on_a_book_at_100() {
    // the batch 99..102 holds what the book has and two updates more
    let mut book = snapshot_book();
    let outcome = book.apply_changes(
        99,
        102,
        &vec![(fx(30000.0), fx(4.0)), (fx(29998.0), fx(1.0))],
        &vec![(fx(30001.0), 0), (fx(30003.0), fx(2.0))],
        7_000,
    );
    assert!(outcome.is_ok());
    assert_eq!(book.last_update_id(), 102);
    assert_eq!(book.timestamp(), 7_000);
    let (bids, asks) = book.top_levels(10);
    assert_eq!(bids, vec![(fx(30000.0), fx(4.0)), (fx(29998.0), fx(1.0))]);
    assert_eq!(asks, vec![(fx(30003.0), fx(2.0))]);
    assert!(!book.is_stale());
}

#[test]
fn later_update_is_a_sequence_gap() {
    let mut book = snapshot_book();
    let outcome = book.apply_changes(102, 105, &vec![(fx(29999.0), fx(3.0))], &vec![], 9);
    match outcome {
        Err(ExchangeError::SequenceGap { expected, received }) => {
            assert_eq!(expected, 101);
            assert_eq!(received, 102);
        }
        other => panic!("expected a sequence gap, got {:?}", other),
    }
    // nothing was applied, and the book is stale until it is rebuilt
    assert_eq!(book.last_update_id(), 100);
    assert_eq!(book.timestamp(), 1_000);
    assert_eq!(book.bid_count(), 1);
    assert!(book.is_stale());
}

#[test]
fn gap_reports_the_ids_for_any_distance() {
    for first in [102u64, 103, 1_000, u64::MAX] {
        let mut book = snapshot_book();
        match book.apply_changes(first, first, &vec![], &vec![], 0) {
            Err(ExchangeError::SequenceGap { expected, received }) => {
                assert_eq!((expected, received), (101, first));
            }
            other => panic!("expected a sequence gap, got {:?}", other),
        }
    }
}

#[test]
fn book_at_the_last_id_has_no_gap() {
    let mut book = OrderBook::load_snapshot("S", u64::MAX, &vec![], &vec![], 0);
    assert!(book.apply_changes(u64::MAX, u64::MAX, &vec![(1, 1)], &vec![], 5).is_ok());
    assert_eq!(book.bid_count(), 0);
    assert_eq!(book.timestamp(), 0);
}

#[test]
fn applied_batch_is_a_no_op() {
    let mut book = snapshot_book();
    assert!(book.apply_changes(101, 102, &vec![(fx(29999.0), fx(3.0))], &vec![], 2_000).is_ok());
    let before = (
        book.last_update_id(),
        book.timestamp(),
        book.top_levels(10),
        book.is_stale(),
    );
    // the same batch again, and an older one
    assert!(book.apply_changes(101, 102, &vec![(fx(29999.0), fx(9.0))], &vec![], 3_000).is_ok());
    assert!(book.apply_changes(90, 100, &vec![(fx(1.0), fx(1.0))], &vec![(fx(2.0), fx(1.0))], 4_000).is_ok());
    let after = (
        book.last_update_id(),
        book.timestamp(),
        book.top_levels(10),
        book.is_stale(),
    );
    assert_eq!(before, after);
}

#[test]
fn level_set_to_zero_is_absent_and_readding_replaces() {
    let mut book = deep_book();
    assert!(book.apply_changes(8, 8, &vec![(fx(98.0), 0)], &vec![], 1).is_ok());
    assert_eq!(book.top_levels(10).0, vec![(fx(99.0), fx(1.0)), (fx(90.0), fx(4.0))]);
    assert!(book.apply_changes(9, 9, &vec![(fx(98.0), fx(7.0))], &vec![], 2).is_ok());
    assert_eq!(
        book.top_levels(10).0,
        vec![(fx(99.0), fx(1.0)), (fx(98.0), fx(7.0)), (fx(90.0), fx(4.0))]
    );
    // upsert, not merge: the size is the new one, not a sum
    assert!(book.apply_changes(10, 10, &vec![(fx(98.0), fx(0.5))], &vec![], 3).is_ok());
    assert_eq!(book.top_levels(2).0[1], (fx(98.0), fx(0.5)));
}

#[test]
fn last_change_of_a_batch_wins() {
    let mut book = deep_book();
    let changes = vec![(fx(95.0), fx(1.0)), (fx(95.0), 0), (fx(94.0), 0), (fx(94.0), fx(2.0))];
    assert!(book.apply_changes(8, 8, &changes, &vec![], 1).is_ok());
    let (bids, _) = book.top_levels(10);
    assert!(!bids.iter().any(|level| level.0 == fx(95.0)));
    assert!(bids.contains(&(fx(94.0), fx(2.0))));
}

#[test]
fn integrity_holds_for_valid_snapshot_and_updates() {
    let mut book = deep_book();
    assert!(book.verify_integrity());
    assert!(book.apply_changes(8, 9, &vec![(fx(100.0), fx(1.0))], &vec![(fx(100.5), fx(1.0))], 1).is_ok());
    assert!(book.verify_integrity());
    assert!(!book.is_stale());
    assert!(book.apply_changes(10, 10, &vec![(fx(100.0), 0)], &vec![(fx(100.5), 0)], 2).is_ok());
    assert!(book.verify_integrity());
    assert!(!book.is_stale());
}

#[test]
fn integrity_fails_after_a_crossed_level() {
    let mut book = deep_book();
    // a bid at the best ask crosses the book
    assert!(book.apply_changes(8, 8, &vec![(fx(101.0), fx(1.0))], &vec![], 1).is_ok());
    assert!(!book.verify_integrity());
    assert!(book.is_stale());
    // taking the level out again repairs the prices, but the book stays stale
    assert!(book.apply_changes(9, 9, &vec![(fx(101.0), 0)], &vec![], 2).is_ok());
    assert!(book.verify_integrity());
    assert!(book.is_stale());
}

#[test]
fn crossed_snapshot_is_stale() {
    let book = OrderBook::load_snapshot("S", 1, &vec![(fx(10.0), 1)], &vec![(fx(9.0), 1)], 0);
    assert!(!book.verify_integrity());
    assert!(book.is_stale());
}

#[test]
fn mid_price_and_spread() {
    let book = snapshot_book();
    assert_eq!(book.mid_price(), Some(fx(30000.5)));
    // 2 * 1 * 10^4 / 60001 = 0.33332777... basis points
    assert_eq!(book.spread_bps(), Some(33_332_777));
    let book = deep_book();
    assert_eq!(book.mid_price(), Some(fx(100.0)));
    // (101 - 99) / 100 * 10^4 = 200 basis points
    assert_eq!(book.spread_bps(), Some(200 * 100_000_000));
}

#[test]
fn mid_price_rounds_down() {
    let book = OrderBook::load_snapshot("S", 1, &vec![(10, 1)], &vec![(13, 1)], 0);
    assert_eq!(book.mid_price(), Some(11));
    let book = OrderBook::load_snapshot("S", 1, &vec![(u64::MAX - 1, 1)], &vec![(u64::MAX, 1)], 0);
    assert_eq!(book.mid_price(), Some(u64::MAX - 1));
}

#[test]
fn spread_of_a_crossed_book_is_negative() {
    let book = OrderBook::load_snapshot("S", 1, &vec![(fx(101.0), 1)], &vec![(fx(99.0), 1)], 0);
    assert_eq!(book.spread_bps(), Some(-200 * 100_000_000));
}

#[test]
fn spread_needs_a_price() {
    let book = OrderBook::load_snapshot("S", 1, &vec![(0, 1)], &vec![(0, 1)], 0);
    assert_eq!(book.mid_price(), Some(0));
    assert_eq!(book.spread_bps(), None);
}

#[test]
fn liquidity_within_a_band() {
    let book = deep_book();
    // mid 100, band of 5 %: bids from 95 up, asks up to 105
    let (bids, asks) = book.liquidity_within(fx(0.05));
    assert_eq!(bids, (fx(99.0 * 1.0) + fx(98.0 * 2.0)) as u128);
    assert_eq!(asks, (fx(101.0 * 1.0) + fx(102.0 * 3.0)) as u128);
    // band of 1 %: bids from 99 up, asks up to 101
    let (bids, asks) = book.liquidity_within(fx(0.01));
    assert_eq!(bids, fx(99.0) as u128);
    assert_eq!(asks, fx(101.0) as u128);
    // band of 0: nothing is within reach
    assert_eq!(book.liquidity_within(0), (0, 0));
    // a band of 100 % or more reaches every bid
    let (bids, asks) = book.liquidity_within(fx(1.0));
    assert_eq!(bids, (fx(99.0) + fx(196.0) + fx(360.0)) as u128);
    assert_eq!(asks, (fx(101.0) + fx(306.0) + fx(600.0)) as u128);
}

#[test]
fn top_levels_are_best_first() {
    let book = deep_book();
    let (bids, asks) = book.top_levels(2);
    assert_eq!(bids, vec![(fx(99.0), fx(1.0)), (fx(98.0), fx(2.0))]);
    assert_eq!(asks, vec![(fx(101.0), fx(1.0)), (fx(102.0), fx(3.0))]);
    let (bids, asks) = book.top_levels(0);
    assert!(bids.is_empty() && asks.is_empty());
    let (bids, asks) = book.top_levels(100);
    assert_eq!(bids.len(), 3);
    assert_eq!(asks.len(), 3);
    assert_eq!(bids[2], (fx(90.0), fx(4.0)));
    assert_eq!(asks[2], (fx(120.0), fx(5.0)));
}

#[test]
fn reads_levels_in_text_form() {
    let levels = vec![pair("30000", "1.0"), pair("29999.5", "0")];
    assert_eq!(
        parse_levels(&levels).unwrap(),
        vec![(fx(30000.0), fx(1.0)), (fx(29999.5), 0)]
    );
    let levels = vec![pair("30000", "1.0"), pair("abc", "x"), pair("nan", "1")];
    match parse_levels(&levels) {
        Err(ExchangeError::Parse(text)) => assert_eq!(text, "abc"),
        other => panic!("expected a parse error, got {:?}", other),
    }
    // zeros beyond the eighth fractional digit are taken, other digits not
    let levels = vec![pair("30000.000000000", "1.500000000000")];
    assert_eq!(parse_levels(&levels).unwrap(), vec![(fx(30000.0), fx(1.5))]);
    let levels = vec![pair("30000", "1.000000001")];
    match parse_levels(&levels) {
        Err(ExchangeError::Parse(text)) => assert_eq!(text, "1.000000001"),
        other => panic!("expected a parse error, got {:?}", other),
    }
    let levels = vec![pair("30000", "NaN")];
    match parse_levels(&levels) {
        Err(ExchangeError::Parse(text)) => assert_eq!(text, "NaN"),
        other => panic!("expected a parse error, got {:?}", other),
    }
}

#[test]
fn snapshot_in_text_form() {
    let snapshot = DepthSnapshot {
        last_update_id: 100,
        bids: vec![pair("30000.00000000", "1.00000000")],
        asks: vec![pair("30001.00000000", "1.00000000")],
    };
    let book = OrderBook::from_snapshot("BTCUSDT", &snapshot, 5).unwrap();
    assert_eq!(book.best_bid(), Some((fx(30000.0), fx(1.0))));
    assert_eq!(book.best_ask(), Some((fx(30001.0), fx(1.0))));
    assert_eq!(book.last_update_id(), 100);
    assert_eq!(book.timestamp(), 5);

    let broken = DepthSnapshot {
        last_update_id: 100,
        bids: vec![pair("30000", "1")],
        asks: vec![pair("30001", "one")],
    };
    match OrderBook::from_snapshot("BTCUSDT", &broken, 5) {
        Err(ExchangeError::Parse(text)) => assert_eq!(text, "one"),
        other => panic!("expected a parse error, got {:?}", other.map(|_| ())),
    }
}

#[test]
fn update_in_text_form_follows_the_scenario() {
    let mut book = snapshot_book();
    let first = DepthUpdate {
        first_update_id: 101,
        final_update_id: 101,
        bids: vec![pair("30000", "0")],
        asks: vec![],
        event_time: Some(2_000),
    };
    assert!(book.apply_update_at(&first, 9_999).is_ok());
    assert_eq!(book.best_bid(), None);
    assert_eq!(book.timestamp(), 2_000);
    let second = DepthUpdate {
        first_update_id: 102,
        final_update_id: 102,
        bids: vec![],
        asks: vec![pair("30001", "0"), pair("30001.5", "2.0")],
        event_time: None,
    };
    assert!(book.apply_update_at(&second, 9_999).is_ok());
    assert_eq!(book.best_ask(), Some((fx(30001.5), fx(2.0))));
    assert_eq!(book.timestamp(), 9_999);
}

#[test]
fn update_with_a_bad_text_is_dropped_whole() {
    let mut book = snapshot_book();
    let update = DepthUpdate {
        first_update_id: 101,
        final_update_id: 101,
        bids: vec![pair("29999", "1")],
        asks: vec![pair("30002", "NaN")],
        event_time: Some(2_000),
    };
    match book.apply_update_at(&update, 0) {
        Err(ExchangeError::Parse(text)) => assert_eq!(text, "NaN"),
        other => panic!("expected a parse error, got {:?}", other),
    }
    assert_eq!(book.bid_count(), 1);
    assert_eq!(book.last_update_id(), 100);
    assert!(!book.is_stale());
    // the same ids may come again in good form
    let update = DepthUpdate {
        first_update_id: 101,
        final_update_id: 101,
        bids: vec![pair("29999", "1")],
        asks: vec![pair("30002", "1")],
        event_time: Some(2_000),
    };
    assert!(book.apply_update_at(&update, 0).is_ok());
    assert_eq!(book.bid_count(), 2);
}

#[test]
fn gap_comes_before_reading() {
    let mut book = snapshot_book();
    let update = DepthUpdate {
        first_update_id: 150,
        final_update_id: 151,
        bids: vec![pair("garbage", "1")],
        asks: vec![],
        event_time: None,
    };
    match book.apply_update_at(&update, 0) {
        Err(ExchangeError::SequenceGap { expected, received }) => {
            assert_eq!((expected, received), (101, 150));
        }
        other => panic!("expected a sequence gap, got {:?}", other),
    }
    assert!(book.is_stale());
}

#[test]
fn update_without_event_time_takes_the_wall_clock() {
    let mut book = snapshot_book();
    let update = DepthUpdate {
        first_update_id: 101,
        final_update_id: 101,
        bids: vec![pair("29999", "1")],
        asks: vec![],
        event_time: None,
    };
    assert!(book.apply_update(update).is_ok());
    // some time after 2020-01-01
    assert!(book.timestamp() > 1_577_836_800_000);
    let update = DepthUpdate {
        first_update_id: 102,
        final_update_id: 102,
        bids: vec![],
        asks: vec![],
        event_time: Some(42),
    };
    assert!(book.apply_update(update).is_ok());
    assert_eq!(book.timestamp(), 42);
}
