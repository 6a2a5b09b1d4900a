//! One symbol's order book: a snapshot plus incremental depth updates, kept
//! consistent by their update ids.

use vstd::prelude::*;
use vstd::string::*;
use crate::clock::unix_millis;
use crate::decimal::{decimal_value, is_decimal, parse_decimal, SCALE};
use crate::errors::ExchangeError;
use crate::ladder::{
    apply_levels, is_ladder, ladder_map, ladder_of, lemma_changed_prices, lemma_changes_keep_ladder,
    lemma_ladder_entries, lemma_ladder_of_map, lemma_last_change_wins, PriceLadder, PriceLevel,
};

verus! {

/// An incremental depth update as an exchange sends it: the level changes of
/// the update ids `first_update_id ..= final_update_id`, each level a pair of
/// decimal texts, price then size.
#[derive(Debug)]
pub struct DepthUpdate {
    pub first_update_id: u64,
    pub final_update_id: u64,
    pub bids: Vec<[String; 2]>,
    pub asks: Vec<[String; 2]>,
    pub event_time: Option<u64>,
}

/// A full depth snapshot as an exchange sends it.
#[derive(Debug)]
pub struct DepthSnapshot {
    pub last_update_id: u64,
    pub bids: Vec<[String; 2]>,
    pub asks: Vec<[String; 2]>,
}

/// The first text of `levels`, in reading order, that is no decimal in range.
pub open spec fn first_bad_text(levels: Seq<[String; 2]>) -> Option<Seq<char>>
    decreases levels.len(),
{
    if levels.len() == 0 {
        None
    } else if !is_decimal(levels[0]@[0]@) {
        Some(levels[0]@[0]@)
    } else if !is_decimal(levels[0]@[1]@) {
        Some(levels[0]@[1]@)
    } else {
        first_bad_text(levels.drop_first())
    }
}

/// The value of one level in text form.
pub open spec fn level_value(level: [String; 2]) -> (u64, u64) {
    (decimal_value(level@[0]@).unwrap() as u64, decimal_value(level@[1]@).unwrap() as u64)
}

/// The values of levels in text form.
pub open spec fn level_values(levels: Seq<[String; 2]>) -> Seq<(u64, u64)> {
    Seq::new(levels.len(), |i: int| level_value(levels[i]))
}

proof fn lemma_first_bad_skip(levels: Seq<[String; 2]>, good: int)
    requires
        0 <= good <= levels.len(),
        forall|i: int|
            0 <= i < good ==> is_decimal((#[trigger] levels[i])@[0]@) && is_decimal(
                levels[i]@[1]@,
            ),
    ensures
        first_bad_text(levels) == first_bad_text(levels.skip(good)),
    decreases good,
{
    if good == 0 {
        assert(levels.skip(0) =~= levels);
    } else {
        let rest = levels.drop_first();
        assert(is_decimal(levels[0]@[0]@) && is_decimal(levels[0]@[1]@));
        assert forall|i: int| 0 <= i < good - 1 implies is_decimal((#[trigger] rest[i])@[0]@)
            && is_decimal(rest[i]@[1]@) by {
            assert(rest[i] == levels[i + 1]);
        }
        lemma_first_bad_skip(rest, good - 1);
        assert(rest.skip(good - 1) =~= levels.skip(good));
    }
}

/// Reads levels in text form. Every text must be a decimal in range; the
/// first one that is not comes back inside the error.
pub fn parse_levels(levels: &Vec<[String; 2]>) -> (parsed: Result<Vec<(u64, u64)>, ExchangeError>)
    ensures
        match parsed {
            Ok(values) => first_bad_text(levels@) is None && values@ == level_values(levels@),
            Err(error) => first_bad_text(levels@) matches Some(text) && error.is_parse_of(text),
        },
{
    let mut values: Vec<(u64, u64)> = Vec::new();
    let mut i: usize = 0;
    while i < levels.len()
        invariant
            i <= levels.len(),
            values@.len() == i,
            forall|j: int|
                0 <= j < i ==> is_decimal((#[trigger] levels@[j])@[0]@) && is_decimal(
                    levels@[j]@[1]@,
                ),
            forall|j: int| 0 <= j < i ==> values@[j] == level_value(#[trigger] levels@[j]),
        decreases levels.len() - i,
    {
        let level = &levels[i];
        proof {
            lemma_first_bad_skip(levels@, i as int);
            assert(levels@.skip(i as int)[0] == levels@[i as int]);
        }
        let price = match parse_decimal(level[0].as_str()) {
            Ok(price) => price,
            Err(error) => {
                return Err(error);
            },
        };
        let size = match parse_decimal(level[1].as_str()) {
            Ok(size) => size,
            Err(error) => {
                return Err(error);
            },
        };
        values.push((price, size));
        i += 1;
    }
    proof {
        lemma_first_bad_skip(levels@, i as int);
        assert(values@ =~= level_values(levels@));
    }
    Ok(values)
}

/// The fixed-point product of a level's price and size.
pub open spec fn level_notional(level: PriceLevel) -> nat {
    (level.price as nat * level.size as nat) / 100_000_000
}

/// Sum of the notionals of the levels priced from `low` to `high`, both
/// included.
pub open spec fn notional_between(levels: Seq<PriceLevel>, low: int, high: int) -> nat
    decreases levels.len(),
{
    if levels.len() == 0 {
        0
    } else {
        notional_between(levels.drop_last(), low, high) + (if low <= levels.last().price <= high {
            level_notional(levels.last())
        } else {
            0
        })
    }
}

/// `amount`, or the largest `u128` where `amount` is beyond it.
pub open spec fn capped(amount: nat) -> u128 {
    if amount > u128::MAX {
        u128::MAX
    } else {
        amount as u128
    }
}

/// The midpoint of two prices, rounded down.
pub open spec fn mid_of(bid: u64, ask: u64) -> u64 {
    ((bid + ask) / 2) as u64
}

/// The spread between two prices in basis points of their midpoint,
/// fixed-point and rounded toward zero: `2 * (ask - bid) * 10^4 / (ask + bid)`.
/// Negative where the bid is above the ask.
pub open spec fn spread_of(bid: u64, ask: u64) -> int {
    if ask >= bid {
        ((ask - bid) * 2_000_000_000_000) / (ask + bid)
    } else {
        -(((bid - ask) * 2_000_000_000_000) / (ask + bid))
    }
}

/// Lower edge of the band of `fraction` around `mid`; `fraction` is
/// fixed-point, so `1_000_000` is one percent.
pub open spec fn band_low(mid: u64, fraction: u64) -> int {
    if fraction >= 100_000_000 {
        0
    } else {
        mid - (mid * fraction) / 100_000_000
    }
}

/// Upper edge of the band of `fraction` around `mid`.
pub open spec fn band_high(mid: u64, fraction: u64) -> int {
    mid + (mid * fraction) / 100_000_000
}

/// What an order book holds.
pub struct BookState {
    pub symbol: Seq<char>,
    /// Bid levels, lowest price first.
    pub bids: Seq<PriceLevel>,
    /// Ask levels, lowest price first.
    pub asks: Seq<PriceLevel>,
    pub last_update_id: u64,
    pub timestamp: u64,
    /// The book has met a sequence gap or a crossed state since its snapshot.
    pub stale: bool,
}

impl BookState {
    /// Both sides are ladders: prices ascend strictly and sizes are positive.
    pub open spec fn wf(self) -> bool {
        is_ladder(self.bids) && is_ladder(self.asks)
    }

    pub open spec fn best_bid(self) -> Option<(u64, u64)> {
        if self.bids.len() > 0 {
            Some((self.bids.last().price, self.bids.last().size))
        } else {
            None
        }
    }

    pub open spec fn best_ask(self) -> Option<(u64, u64)> {
        if self.asks.len() > 0 {
            Some((self.asks.first().price, self.asks.first().size))
        } else {
            None
        }
    }

    /// The best bid is not below the best ask.
    pub open spec fn crossed(self) -> bool {
        self.bids.len() > 0 && self.asks.len() > 0 && self.bids.last().price
            >= self.asks.first().price
    }

    pub open spec fn mid_price(self) -> Option<u64> {
        if self.bids.len() > 0 && self.asks.len() > 0 {
            Some(mid_of(self.bids.last().price, self.asks.first().price))
        } else {
            None
        }
    }

    pub open spec fn spread_bps(self) -> Option<i64> {
        if self.bids.len() > 0 && self.asks.len() > 0 && self.bids.last().price
            + self.asks.first().price > 0 {
            Some(spread_of(self.bids.last().price, self.asks.first().price) as i64)
        } else {
            None
        }
    }

    /// Notional of the bids at or above the lower edge of the band around
    /// the mid price, and of the asks at or below its upper edge.
    pub open spec fn liquidity_within(self, fraction: u64) -> (u128, u128) {
        match self.mid_price() {
            Some(mid) => (
                capped(notional_between(self.bids, band_low(mid, fraction), u64::MAX as int)),
                capped(notional_between(self.asks, 0, band_high(mid, fraction))),
            ),
            None => (0, 0),
        }
    }

    /// The `n` best levels of each side, best first.
    pub open spec fn top_levels(self, n: nat) -> (Seq<(u64, u64)>, Seq<(u64, u64)>) {
        let bids = if n < self.bids.len() {
            n
        } else {
            self.bids.len()
        };
        let asks = if n < self.asks.len() {
            n
        } else {
            self.asks.len()
        };
        (
            Seq::new(
                bids,
                |k: int|
                    (
                        self.bids[self.bids.len() - 1 - k].price,
                        self.bids[self.bids.len() - 1 - k].size,
                    ),
            ),
            Seq::new(asks, |k: int| (self.asks[k].price, self.asks[k].size)),
        )
    }

    /// A batch that starts after the next expected update id cannot be
    /// applied: updates in between are missing.
    pub open spec fn gap(self, first_id: u64) -> bool {
        first_id > self.last_update_id + 1
    }

    /// The book after the level changes of a batch that ends at `final_id`.
    pub open spec fn with_changes(
        self,
        final_id: u64,
        bid_changes: Seq<(u64, u64)>,
        ask_changes: Seq<(u64, u64)>,
        time: u64,
    ) -> BookState {
        let changed = BookState {
            bids: ladder_of(apply_levels(ladder_map(self.bids), bid_changes)),
            asks: ladder_of(apply_levels(ladder_map(self.asks), ask_changes)),
            last_update_id: final_id,
            timestamp: time,
            ..self
        };
        BookState { stale: self.stale || changed.crossed(), ..changed }
    }

    /// The book after an update batch: marked stale on a gap, untouched by a
    /// batch that was applied before, changed otherwise.
    pub open spec fn after_update(
        self,
        first_id: u64,
        final_id: u64,
        bid_changes: Seq<(u64, u64)>,
        ask_changes: Seq<(u64, u64)>,
        time: u64,
    ) -> BookState {
        if self.gap(first_id) {
            BookState { stale: true, ..self }
        } else if final_id <= self.last_update_id {
            self
        } else {
            self.with_changes(final_id, bid_changes, ask_changes, time)
        }
    }

    /// What applying an update batch answers: a gap is refused, with the
    /// expected and the received update id; every other batch is accepted.
    pub open spec fn update_result(self, first_id: u64) -> Result<(), ExchangeError> {
        if self.gap(first_id) {
            Err(
                ExchangeError::SequenceGap {
                    expected: (self.last_update_id + 1) as u64,
                    received: first_id,
                },
            )
        } else {
            Ok(())
        }
    }

    /// The book after an update in text form. An update that is due but
    /// holds a text that is no decimal in range is dropped whole.
    pub open spec fn after_wire_update(self, update: DepthUpdate, now: u64) -> BookState {
        if !self.gap(update.first_update_id) && update.final_update_id > self.last_update_id
            && first_bad_text(update.bids@ + update.asks@) is Some {
            self
        } else {
            self.after_update(
                update.first_update_id,
                update.final_update_id,
                level_values(update.bids@),
                level_values(update.asks@),
                stamp_of(update.event_time, now),
            )
        }
    }

    /// Whether `answer` is what applying an update in text form answers: the
    /// refusal of a gap, else success for a batch applied before, else the
    /// parse failure of the first bad text, else success.
    pub open spec fn wire_update_answer(
        self,
        update: DepthUpdate,
        answer: Result<(), ExchangeError>,
    ) -> bool {
        if self.gap(update.first_update_id) {
            answer == self.update_result(update.first_update_id)
        } else if update.final_update_id <= self.last_update_id {
            answer is Ok
        } else {
            match first_bad_text(update.bids@ + update.asks@) {
                Some(text) => answer matches Err(error) && error.is_parse_of(text),
                None => answer is Ok,
            }
        }
    }

    /// A fresh book from a snapshot.
    pub open spec fn from_snapshot(
        symbol: Seq<char>,
        last_update_id: u64,
        bids: Seq<(u64, u64)>,
        asks: Seq<(u64, u64)>,
        time: u64,
    ) -> BookState {
        BookState {
            symbol,
            bids: Seq::empty(),
            asks: Seq::empty(),
            last_update_id,
            timestamp: time,
            stale: false,
        }.with_changes(last_update_id, bids, asks, time)
    }
}

/// Order book of one symbol.
#[derive(Debug)]
pub struct OrderBook {
    symbol: String,
    bids: PriceLadder,
    asks: PriceLadder,
    last_update_id: u64,
    timestamp: u64,
    stale: bool,
}

impl View for OrderBook {
    type V = BookState;

    closed spec fn view(&self) -> BookState {
        BookState {
            symbol: self.symbol@,
            bids: self.bids@,
            asks: self.asks@,
            last_update_id: self.last_update_id,
            timestamp: self.timestamp,
            stale: self.stale,
        }
    }
}

fn sequence_gap(expected: u64, received: u64) -> (error: ExchangeError)
    ensures
        error == (ExchangeError::SequenceGap { expected, received }),
{
    ExchangeError::SequenceGap { expected, received }
}

impl OrderBook {
    /// An empty book that expects update id 1.
    pub fn new(symbol: String) -> (book: OrderBook)
        ensures
            book@ == (BookState {
                symbol: symbol@,
                bids: Seq::empty(),
                asks: Seq::empty(),
                last_update_id: 0,
                timestamp: 0,
                stale: false,
            }),
            book@.wf(),
    {
        OrderBook {
            symbol,
            bids: PriceLadder::new(),
            asks: PriceLadder::new(),
            last_update_id: 0,
            timestamp: 0,
            stale: false,
        }
    }

    /// Builds a book from a snapshot, replacing whatever was known of the
    /// symbol. Levels of size zero are not stored.
    pub fn load_snapshot(
        symbol: &str,
        last_update_id: u64,
        bids: &Vec<(u64, u64)>,
        asks: &Vec<(u64, u64)>,
        time: u64,
    ) -> (book: OrderBook)
        ensures
            book@ == BookState::from_snapshot(symbol@, last_update_id, bids@, asks@, time),
            book@.wf(),
    {
        let mut book = OrderBook::new(String::from_str(symbol));
        book.store(last_update_id, bids, asks, time);
        book
    }

    /// Builds a book from a snapshot in text form. Fails, with the offending
    /// text, where a price or size is no decimal in range; bids are read
    /// before asks.
    pub fn from_snapshot(symbol: &str, snapshot: &DepthSnapshot, time: u64) -> (loaded: Result<
        OrderBook,
        ExchangeError,
    >)
        ensures
            match loaded {
                Ok(book) => first_bad_text(snapshot.bids@) is None && first_bad_text(
                    snapshot.asks@,
                ) is None && book@ == BookState::from_snapshot(
                    symbol@,
                    snapshot.last_update_id,
                    level_values(snapshot.bids@),
                    level_values(snapshot.asks@),
                    time,
                ) && book@.wf(),
                Err(error) => first_bad_text(snapshot.bids@ + snapshot.asks@) matches Some(text)
                    && error.is_parse_of(text),
            },
    {
        proof {
            lemma_first_bad_concat(snapshot.bids@, snapshot.asks@);
        }
        let bids = match parse_levels(&snapshot.bids) {
            Ok(bids) => bids,
            Err(error) => {
                return Err(error);
            },
        };
        let asks = match parse_levels(&snapshot.asks) {
            Ok(asks) => asks,
            Err(error) => {
                return Err(error);
            },
        };
        Ok(OrderBook::load_snapshot(symbol, snapshot.last_update_id, &bids, &asks, time))
    }

    fn store(
        &mut self,
        final_id: u64,
        bid_changes: &Vec<(u64, u64)>,
        ask_changes: &Vec<(u64, u64)>,
        time: u64,
    )
        ensures
            final(self)@ == old(self)@.with_changes(final_id, bid_changes@, ask_changes@, time),
            final(self)@.wf(),
    {
        self.bids.apply(bid_changes);
        self.asks.apply(ask_changes);
        self.last_update_id = final_id;
        self.timestamp = time;
        proof {
            lemma_ladder_of_map(self.bids@);
            lemma_ladder_of_map(self.asks@);
        }
        let crossed = !self.verify_integrity();
        self.stale = self.stale || crossed;
    }

    /// Applies an update batch.
    ///
    /// A batch that starts after `last_update_id + 1` is refused with
    /// `SequenceGap` and marks the book stale. A batch that ends at or before
    /// `last_update_id` was applied before and changes nothing. Any other
    /// batch has its levels set in order, bids then asks, moves
    /// `last_update_id` to `final_id`, and marks the book stale where it
    /// leaves the book crossed.
    pub fn apply_changes(
        &mut self,
        first_id: u64,
        final_id: u64,
        bid_changes: &Vec<(u64, u64)>,
        ask_changes: &Vec<(u64, u64)>,
        event_time: u64,
    ) -> (applied: Result<(), ExchangeError>)
        ensures
            final(self)@ == old(self)@.after_update(
                first_id,
                final_id,
                bid_changes@,
                ask_changes@,
                event_time,
            ),
            final(self)@.wf(),
            applied == old(self)@.update_result(first_id),
    {
        self.ladders_hold();
        if self.last_update_id < u64::MAX && first_id > self.last_update_id + 1 {
            self.stale = true;
            return Err(sequence_gap(self.last_update_id + 1, first_id));
        }
        if final_id <= self.last_update_id {
            return Ok(());
        }
        self.store(final_id, bid_changes, ask_changes, event_time);
        Ok(())
    }

    /// Applies an update in text form, stamped with its event time or, where
    /// it has none, with `now`.
    ///
    /// The sequence rules of [`OrderBook::apply_changes`] come first. A batch
    /// that is due is then read; where a text is no decimal in range, the
    /// update is dropped whole, the book stays as it was, and the text comes
    /// back inside the error.
    pub fn apply_update_at(&mut self, update: &DepthUpdate, now: u64) -> (applied: Result<
        (),
        ExchangeError,
    >)
        ensures
            final(self)@.wf(),
            final(self)@ == old(self)@.after_wire_update(*update, now),
            old(self)@.wire_update_answer(*update, applied),
    {
        self.ladders_hold();
        proof {
            lemma_first_bad_concat(update.bids@, update.asks@);
        }
        if self.last_update_id < u64::MAX && update.first_update_id > self.last_update_id + 1 {
            self.stale = true;
            return Err(sequence_gap(self.last_update_id + 1, update.first_update_id));
        }
        if update.final_update_id <= self.last_update_id {
            return Ok(());
        }
        let bids = match parse_levels(&update.bids) {
            Ok(bids) => bids,
            Err(error) => {
                return Err(error);
            },
        };
        let asks = match parse_levels(&update.asks) {
            Ok(asks) => asks,
            Err(error) => {
                return Err(error);
            },
        };
        let time = match update.event_time {
            Some(time) => time,
            None => now,
        };
        self.store(update.final_update_id, &bids, &asks, time);
        Ok(())
    }

    /// Applies an update in text form, as [`OrderBook::apply_update_at`]
    /// does, reading the wall clock for an update without event time.
    pub fn apply_update(&mut self, update: DepthUpdate) -> (applied: Result<(), ExchangeError>)
        ensures
            final(self)@.wf(),
            exists|now: u64| final(self)@ == old(self)@.after_wire_update(update, now),
            update.event_time is Some ==> final(self)@ == old(self)@.after_wire_update(update, 0),
            old(self)@.wire_update_answer(update, applied),
    {
        let now = unix_millis();
        self.apply_update_at(&update, now)
    }

    /// Learns, at no cost worth the name, that both sides are ladders.
    fn ladders_hold(&self)
        ensures
            self@.wf(),
    {
        let _ = self.bids.len();
        let _ = self.asks.len();
    }

    pub fn symbol(&self) -> (symbol: &str)
        ensures
            symbol@ == self@.symbol,
    {
        self.symbol.as_str()
    }

    pub fn last_update_id(&self) -> (id: u64)
        ensures
            id == self@.last_update_id,
    {
        self.last_update_id
    }

    pub fn timestamp(&self) -> (time: u64)
        ensures
            time == self@.timestamp,
    {
        self.timestamp
    }

    /// Whether the book has met a sequence gap or a crossed state since its
    /// snapshot. A stale book is to be rebuilt from a fresh snapshot.
    pub fn is_stale(&self) -> (stale: bool)
        ensures
            stale == self@.stale,
    {
        self.stale
    }

    pub fn bid_count(&self) -> (count: usize)
        ensures
            count == self@.bids.len(),
    {
        self.bids.len()
    }

    pub fn ask_count(&self) -> (count: usize)
        ensures
            count == self@.asks.len(),
    {
        self.asks.len()
    }

    /// Highest bid: price and size.
    pub fn best_bid(&self) -> (best: Option<(u64, u64)>)
        ensures
            best == self@.best_bid(),
    {
        match self.bids.highest() {
            Some(level) => Some((level.price, level.size)),
            None => None,
        }
    }

    /// Lowest ask: price and size.
    pub fn best_ask(&self) -> (best: Option<(u64, u64)>)
        ensures
            best == self@.best_ask(),
    {
        match self.asks.lowest() {
            Some(level) => Some((level.price, level.size)),
            None => None,
        }
    }

    /// Midpoint of best bid and best ask, rounded down; none while a side is
    /// empty.
    pub fn mid_price(&self) -> (mid: Option<u64>)
        ensures
            mid == self@.mid_price(),
    {
        match (self.bids.highest(), self.asks.lowest()) {
            (Some(bid), Some(ask)) => {
                let sum: u128 = bid.price as u128 + ask.price as u128;
                Some((sum / 2) as u64)
            },
            _ => None,
        }
    }

    /// Spread in basis points of the midpoint; none while a side is empty or
    /// both best prices are zero.
    pub fn spread_bps(&self) -> (spread: Option<i64>)
        ensures
            spread == self@.spread_bps(),
    {
        match (self.bids.highest(), self.asks.lowest()) {
            (Some(bid), Some(ask)) => {
                let sum: u128 = bid.price as u128 + ask.price as u128;
                if sum == 0 {
                    return None;
                }
                let wide = ask.price >= bid.price;
                let gap: u128 = if wide {
                    (ask.price - bid.price) as u128
                } else {
                    (bid.price - ask.price) as u128
                };
                assert(gap * 2_000_000_000_000 <= u64::MAX * 2_000_000_000_000) by (nonlinear_arith)
                    requires
                        gap <= u64::MAX,
                ;
                let scaled: u128 = gap * 2_000_000_000_000;
                let bps: u128 = scaled / sum;
                assert(bps <= 2_000_000_000_000) by (nonlinear_arith)
                    requires
                        bps == scaled / sum,
                        scaled == gap * 2_000_000_000_000,
                        gap <= sum,
                        sum > 0,
                ;
                if wide {
                    Some(bps as i64)
                } else {
                    Some(-(bps as i64))
                }
            },
            _ => None,
        }
    }

    /// Notional resting within `fraction` of the mid price: bids priced at or
    /// above the band's lower edge, asks priced at or below its upper edge.
    /// `fraction` is fixed-point (`1_000_000` is one percent). Both sums are
    /// zero while a side is empty, and stop at the largest `u128`.
    pub fn liquidity_within(&self, fraction: u64) -> (liquidity: (u128, u128))
        ensures
            liquidity == self@.liquidity_within(fraction),
    {
        let mid = match self.mid_price() {
            Some(mid) => mid,
            None => {
                return (0, 0);
            },
        };
        assert(mid * fraction <= u64::MAX * u64::MAX) by (nonlinear_arith)
            requires
                mid <= u64::MAX,
                fraction <= u64::MAX,
        ;
        let reach: u128 = (mid as u128 * fraction as u128) / (SCALE as u128);
        let low: u128 = if fraction >= SCALE {
            0
        } else {
            assert(reach <= mid) by (nonlinear_arith)
                requires
                    reach == (mid * fraction) / 100_000_000,
                    fraction < 100_000_000,
            ;
            mid as u128 - reach
        };
        let high: u128 = mid as u128 + reach;
        (
            notional_in(&self.bids, low, u64::MAX as u128),
            notional_in(&self.asks, 0, high),
        )
    }

    /// The `n` best levels of each side, best first: bids from the highest
    /// price down, asks from the lowest price up.
    pub fn top_levels(&self, n: usize) -> (top: (Vec<(u64, u64)>, Vec<(u64, u64)>))
        ensures
            (top.0@, top.1@) == self@.top_levels(n as nat),
    {
        let bid_count = self.bids.len();
        let ask_count = self.asks.len();
        let mut bids: Vec<(u64, u64)> = Vec::new();
        let mut k: usize = 0;
        while k < n && k < bid_count
            invariant
                bid_count == self.bids@.len(),
                k <= bid_count,
                k <= n,
                bids@.len() == k,
                forall|j: int|
                    0 <= j < k ==> #[trigger] bids@[j] == (
                        self.bids@[bid_count - 1 - j].price,
                        self.bids@[bid_count - 1 - j].size,
                    ),
            decreases bid_count - k,
        {
            let level = self.bids.level(bid_count - 1 - k);
            bids.push((level.price, level.size));
            k += 1;
        }
        let mut asks: Vec<(u64, u64)> = Vec::new();
        let mut m: usize = 0;
        while m < n && m < ask_count
            invariant
                ask_count == self.asks@.len(),
                m <= ask_count,
                m <= n,
                asks@.len() == m,
                forall|j: int|
                    0 <= j < m ==> #[trigger] asks@[j] == (self.asks@[j].price, self.asks@[j].size),
            decreases ask_count - m,
        {
            let level = self.asks.level(m);
            asks.push((level.price, level.size));
            m += 1;
        }
        proof {
            assert(bids@ =~= self@.top_levels(n as nat).0);
            assert(asks@ =~= self@.top_levels(n as nat).1);
        }
        (bids, asks)
    }

    /// True while the book is not crossed: a side is empty or the best bid is
    /// below the best ask. Prices ascend and sizes are positive in every
    /// book, so they need no check.
    pub fn verify_integrity(&self) -> (sound: bool)
        ensures
            sound == !self@.crossed(),
            self@.wf(),
    {
        match (self.bids.highest(), self.asks.lowest()) {
            (Some(bid), Some(ask)) => bid.price < ask.price,
            _ => true,
        }
    }
}

/// The time that an update is stamped with.
pub open spec fn stamp_of(event_time: Option<u64>, now: u64) -> u64 {
    match event_time {
        Some(time) => time,
        None => now,
    }
}

proof fn lemma_first_bad_concat(front: Seq<[String; 2]>, back: Seq<[String; 2]>)
    ensures
        first_bad_text(front + back) == (match first_bad_text(front) {
            Some(text) => Some(text),
            None => first_bad_text(back),
        }),
    decreases front.len(),
{
    if front.len() == 0 {
        assert(front + back =~= back);
    } else {
        assert((front + back)[0] == front[0]);
        assert((front + back).drop_first() =~= front.drop_first() + back);
        lemma_first_bad_concat(front.drop_first(), back);
    }
}

fn notional_in(ladder: &PriceLadder, low: u128, high: u128) -> (total: u128)
    ensures
        total == capped(notional_between(ladder@, low as int, high as int)),
{
    let count = ladder.len();
    let mut total: u128 = 0;
    let mut i: usize = 0;
    while i < count
        invariant
            count == ladder@.len(),
            i <= count,
            total == capped(notional_between(ladder@.take(i as int), low as int, high as int)),
        decreases count - i,
    {
        let level = ladder.level(i);
        proof {
            assert(ladder@.take(i + 1).drop_last() =~= ladder@.take(i as int));
            assert(ladder@.take(i + 1).last() == level);
        }
        if low <= level.price as u128 && level.price as u128 <= high {
            assert(level.price * level.size <= u64::MAX * u64::MAX) by (nonlinear_arith)
                requires
                    level.price <= u64::MAX,
                    level.size <= u64::MAX,
            ;
            let notional: u128 = (level.price as u128 * level.size as u128) / (SCALE as u128);
            if total > u128::MAX - notional {
                total = u128::MAX;
            } else {
                total = total + notional;
            }
        }
        i += 1;
    }
    proof {
        assert(ladder@.take(count as int) =~= ladder@);
    }
    total
}

/// Every bid price in play is below every ask price in play: those that
/// stand in the book and those that the changes name.
pub open spec fn separated(
    book: BookState,
    bid_changes: Seq<(u64, u64)>,
    ask_changes: Seq<(u64, u64)>,
) -> bool {
    let bid_in_play = |price: u64|
        ladder_map(book.bids).contains_key(price) || exists|i: int|
            0 <= i < bid_changes.len() && (#[trigger] bid_changes[i]).0 == price;
    let ask_in_play = |price: u64|
        ladder_map(book.asks).contains_key(price) || exists|i: int|
            0 <= i < ask_changes.len() && (#[trigger] ask_changes[i]).0 == price;
    forall|bid: u64, ask: u64| #[trigger] bid_in_play(bid) && #[trigger] ask_in_play(ask) ==> bid < ask
}

/// A changed book is well formed, and each of its sides holds exactly what
/// the level changes make of the side before.
pub proof fn law_changes_are_applied(
    book: BookState,
    final_id: u64,
    bid_changes: Seq<(u64, u64)>,
    ask_changes: Seq<(u64, u64)>,
    time: u64,
)
    requires
        book.wf(),
    ensures
        book.with_changes(final_id, bid_changes, ask_changes, time).wf(),
        ladder_map(book.with_changes(final_id, bid_changes, ask_changes, time).bids)
            == apply_levels(ladder_map(book.bids), bid_changes),
        ladder_map(book.with_changes(final_id, bid_changes, ask_changes, time).asks)
            == apply_levels(ladder_map(book.asks), ask_changes),
{
    lemma_changes_keep_ladder(book.bids, bid_changes);
    lemma_changes_keep_ladder(book.asks, ask_changes);
}

/// After a snapshot with last update id `u`, a batch that starts at `u + 1`
/// is accepted, and one that starts later is refused as a gap between the
/// expected id `u + 1` and the id received.
pub proof fn law_sequence_after_snapshot(
    symbol: Seq<char>,
    u: u64,
    bids: Seq<(u64, u64)>,
    asks: Seq<(u64, u64)>,
    time: u64,
    first_id: u64,
)
    ensures
        first_id == u + 1 ==> BookState::from_snapshot(symbol, u, bids, asks, time).update_result(
            first_id,
        ) is Ok,
        first_id > u + 1 ==> BookState::from_snapshot(symbol, u, bids, asks, time).update_result(
            first_id,
        ) == Err::<(), ExchangeError>(
            ExchangeError::SequenceGap { expected: (u + 1) as u64, received: first_id },
        ),
{
}

/// A bid level that a batch sets to size zero is absent afterward, and one
/// that it sets to a positive size holds that size afterward, whatever stood
/// there before: the last change that names a price decides.
pub proof fn law_bid_level_upsert(
    book: BookState,
    final_id: u64,
    bid_changes: Seq<(u64, u64)>,
    ask_changes: Seq<(u64, u64)>,
    time: u64,
    at: int,
)
    requires
        book.wf(),
        0 <= at < bid_changes.len(),
        forall|later: int|
            at < later < bid_changes.len() ==> (#[trigger] bid_changes[later]).0
                != bid_changes[at].0,
    ensures
        ({
            let side = ladder_map(book.with_changes(final_id, bid_changes, ask_changes, time).bids);
            &&& bid_changes[at].1 == 0 ==> !side.contains_key(bid_changes[at].0)
            &&& bid_changes[at].1 > 0 ==> side.contains_key(bid_changes[at].0)
                && side[bid_changes[at].0] == bid_changes[at].1
        }),
{
    law_changes_are_applied(book, final_id, bid_changes, ask_changes, time);
    lemma_last_change_wins(ladder_map(book.bids), bid_changes, at);
}

/// The same for the ask side: size zero removes the level, a positive size
/// replaces whatever stood at the price.
pub proof fn law_ask_level_upsert(
    book: BookState,
    final_id: u64,
    bid_changes: Seq<(u64, u64)>,
    ask_changes: Seq<(u64, u64)>,
    time: u64,
    at: int,
)
    requires
        book.wf(),
        0 <= at < ask_changes.len(),
        forall|later: int|
            at < later < ask_changes.len() ==> (#[trigger] ask_changes[later]).0
                != ask_changes[at].0,
    ensures
        ({
            let side = ladder_map(book.with_changes(final_id, bid_changes, ask_changes, time).asks);
            &&& ask_changes[at].1 == 0 ==> !side.contains_key(ask_changes[at].0)
            &&& ask_changes[at].1 > 0 ==> side.contains_key(ask_changes[at].0)
                && side[ask_changes[at].0] == ask_changes[at].1
        }),
{
    law_changes_are_applied(book, final_id, bid_changes, ask_changes, time);
    lemma_last_change_wins(ladder_map(book.asks), ask_changes, at);
}

/// Removing a level and setting it again leaves exactly the new size.
pub proof fn law_readded_level_has_new_size(sizes: Map<u64, u64>, price: u64, size: u64)
    requires
        size > 0,
    ensures
        !crate::ladder::set_level(sizes, price, 0).contains_key(price),
        crate::ladder::set_level(crate::ladder::set_level(sizes, price, 0), price, size)[price]
            == size,
        crate::ladder::set_level(crate::ladder::set_level(sizes, price, 0), price, size)
            == crate::ladder::set_level(sizes, price, size),
{
    assert(sizes.remove(price).insert(price, size) =~= sizes.insert(price, size));
}

/// A book stays sound under changes whose bid prices, together with the
/// book's own, are all below the ask prices in play: the changed book is not
/// crossed, and the change does not mark it stale.
pub proof fn law_separated_changes_are_sound(
    book: BookState,
    final_id: u64,
    bid_changes: Seq<(u64, u64)>,
    ask_changes: Seq<(u64, u64)>,
    time: u64,
)
    requires
        book.wf(),
        separated(book, bid_changes, ask_changes),
    ensures
        !book.with_changes(final_id, bid_changes, ask_changes, time).crossed(),
        book.with_changes(final_id, bid_changes, ask_changes, time).stale == book.stale,
{
    let after = book.with_changes(final_id, bid_changes, ask_changes, time);
    law_changes_are_applied(book, final_id, bid_changes, ask_changes, time);
    if after.bids.len() > 0 && after.asks.len() > 0 {
        let bid = after.bids.last().price;
        let ask = after.asks.first().price;
        lemma_ladder_entries(after.bids);
        lemma_ladder_entries(after.asks);
        assert(ladder_map(after.bids).contains_key(after.bids[after.bids.len() - 1].price));
        assert(ladder_map(after.asks).contains_key(after.asks[0].price));
        lemma_changed_prices(ladder_map(book.bids), bid_changes, bid);
        lemma_changed_prices(ladder_map(book.asks), ask_changes, ask);
        let bid_in_play = |price: u64|
            ladder_map(book.bids).contains_key(price) || exists|i: int|
                0 <= i < bid_changes.len() && (#[trigger] bid_changes[i]).0 == price;
        let ask_in_play = |price: u64|
            ladder_map(book.asks).contains_key(price) || exists|i: int|
                0 <= i < ask_changes.len() && (#[trigger] ask_changes[i]).0 == price;
        assert(bid_in_play(bid) && ask_in_play(ask));
    }
}

/// The midpoint lies between the prices, and the spread in basis points
/// has the sign of their difference and stays within two hundred percent.
pub proof fn law_mid_and_spread(bid: u64, ask: u64)
    ensures
        bid <= ask ==> bid <= mid_of(bid, ask) <= ask,
        ask <= bid ==> ask <= mid_of(bid, ask) <= bid,
        bid + ask > 0 ==> -2_000_000_000_000 <= spread_of(bid, ask) <= 2_000_000_000_000,
        bid + ask > 0 && bid <= ask ==> spread_of(bid, ask) >= 0,
        bid + ask > 0 && ask <= bid ==> spread_of(bid, ask) <= 0,
{
    if bid + ask > 0 {
        let sum = bid + ask;
        if ask >= bid {
            let gap = ask - bid;
            assert(0 <= (gap * 2_000_000_000_000) / sum <= 2_000_000_000_000) by (nonlinear_arith)
                requires
                    0 <= gap <= sum,
                    sum > 0,
            ;
        } else {
            let gap = bid - ask;
            assert(0 <= (gap * 2_000_000_000_000) / sum <= 2_000_000_000_000) by (nonlinear_arith)
                requires
                    0 <= gap <= sum,
                    sum > 0,
            ;
        }
    }
}

/// One update batch in numbers.
pub struct Batch {
    pub first_id: u64,
    pub final_id: u64,
    pub bids: Seq<(u64, u64)>,
    pub asks: Seq<(u64, u64)>,
    pub time: u64,
}

/// The book after a run of batches, each taken as
/// [`BookState::after_update`] says.
pub open spec fn replayed(book: BookState, batches: Seq<Batch>) -> BookState
    decreases batches.len(),
{
    if batches.len() == 0 {
        book
    } else {
        replayed(book, batches.drop_last()).after_update(
            batches.last().first_id,
            batches.last().final_id,
            batches.last().bids,
            batches.last().asks,
            batches.last().time,
        )
    }
}

/// Every batch of the run keeps bid prices below ask prices in the book
/// that it meets.
pub open spec fn valid_history(book: BookState, batches: Seq<Batch>) -> bool
    decreases batches.len(),
{
    if batches.len() == 0 {
        true
    } else {
        valid_history(book, batches.drop_last()) && separated(
            replayed(book, batches.drop_last()),
            batches.last().bids,
            batches.last().asks,
        )
    }
}

/// No batch of the run starts after the update id that the book expects
/// when the batch arrives.
pub open spec fn gapless(book: BookState, batches: Seq<Batch>) -> bool
    decreases batches.len(),
{
    if batches.len() == 0 {
        true
    } else {
        gapless(book, batches.drop_last()) && !replayed(book, batches.drop_last()).gap(
            batches.last().first_id,
        )
    }
}

/// Integrity holds for every book that is built from sound data only: a
/// sound book stays well formed and uncrossed through any run of batches
/// that keep bid prices below ask prices, whether they are applied, were
/// applied before or are refused. Where no batch is refused for a gap, the
/// book is not marked stale either.
pub proof fn law_valid_history_is_sound(book: BookState, batches: Seq<Batch>)
    requires
        book.wf(),
        !book.crossed(),
        valid_history(book, batches),
    ensures
        replayed(book, batches).wf(),
        !replayed(book, batches).crossed(),
        gapless(book, batches) ==> replayed(book, batches).stale == book.stale,
    decreases batches.len(),
{
    if batches.len() > 0 {
        let before = replayed(book, batches.drop_last());
        let batch = batches.last();
        law_valid_history_is_sound(book, batches.drop_last());
        law_changes_are_applied(before, batch.final_id, batch.bids, batch.asks, batch.time);
        law_separated_changes_are_sound(before, batch.final_id, batch.bids, batch.asks, batch.time);
    }
}

/// A book built from a snapshot whose bid prices are all below its ask
/// prices is sound: not crossed and not stale.
pub proof fn law_separated_snapshot_is_sound(
    symbol: Seq<char>,
    last_update_id: u64,
    bids: Seq<(u64, u64)>,
    asks: Seq<(u64, u64)>,
    time: u64,
)
    requires
        forall|i: int, j: int|
            0 <= i < bids.len() && 0 <= j < asks.len() ==> (#[trigger] bids[i]).0 < (
            #[trigger] asks[j]).0,
    ensures
        BookState::from_snapshot(symbol, last_update_id, bids, asks, time).wf(),
        !BookState::from_snapshot(symbol, last_update_id, bids, asks, time).crossed(),
        !BookState::from_snapshot(symbol, last_update_id, bids, asks, time).stale,
{
    let empty = BookState {
        symbol,
        bids: Seq::empty(),
        asks: Seq::empty(),
        last_update_id,
        timestamp: time,
        stale: false,
    };
    assert(separated(empty, bids, asks)) by {
        let bid_in_play = |price: u64|
            ladder_map(empty.bids).contains_key(price) || exists|i: int|
                0 <= i < bids.len() && (#[trigger] bids[i]).0 == price;
        let ask_in_play = |price: u64|
            ladder_map(empty.asks).contains_key(price) || exists|i: int|
                0 <= i < asks.len() && (#[trigger] asks[i]).0 == price;
        assert forall|bid: u64, ask: u64| #[trigger]
            bid_in_play(bid) && #[trigger] ask_in_play(ask) implies bid < ask by {
            let i = choose|i: int| 0 <= i < bids.len() && (#[trigger] bids[i]).0 == bid;
            let j = choose|j: int| 0 <= j < asks.len() && (#[trigger] asks[j]).0 == ask;
            assert(bids[i].0 < asks[j].0);
        }
    }
    law_changes_are_applied(empty, last_update_id, bids, asks, time);
    law_separated_changes_are_sound(empty, last_update_id, bids, asks, time);
}

/// Forcing a crossed level breaks integrity: where a batch that leaves the
/// asks alone ends its bid changes with a positive size at or above the best
/// ask, the changed book is crossed and stale.
pub proof fn law_crossing_bid_breaks_integrity(
    book: BookState,
    final_id: u64,
    bid_changes: Seq<(u64, u64)>,
    time: u64,
)
    requires
        book.wf(),
        book.asks.len() > 0,
        bid_changes.len() > 0,
        bid_changes.last().1 > 0,
        bid_changes.last().0 >= book.asks.first().price,
    ensures
        book.with_changes(final_id, bid_changes, Seq::empty(), time).crossed(),
        book.with_changes(final_id, bid_changes, Seq::empty(), time).stale,
{
    let after = book.with_changes(final_id, bid_changes, Seq::empty(), time);
    law_changes_are_applied(book, final_id, bid_changes, Seq::empty(), time);
    lemma_ladder_of_map(book.asks);
    lemma_last_change_wins(ladder_map(book.bids), bid_changes, bid_changes.len() - 1);
    lemma_ladder_entries(after.bids);
    let forced = bid_changes.last().0;
    let i = choose|i: int| 0 <= i < after.bids.len() && (#[trigger] after.bids[i]).price == forced;
    if i < after.bids.len() - 1 {
        assert(after.bids[i].price < after.bids[after.bids.len() - 1].price);
    }
}

/// The same from the other side: where a batch that leaves the bids alone
/// ends its ask changes with a positive size at or below the best bid, the
/// changed book is crossed and stale.
pub proof fn law_crossing_ask_breaks_integrity(
    book: BookState,
    final_id: u64,
    ask_changes: Seq<(u64, u64)>,
    time: u64,
)
    requires
        book.wf(),
        book.bids.len() > 0,
        ask_changes.len() > 0,
        ask_changes.last().1 > 0,
        ask_changes.last().0 <= book.bids.last().price,
    ensures
        book.with_changes(final_id, Seq::empty(), ask_changes, time).crossed(),
        book.with_changes(final_id, Seq::empty(), ask_changes, time).stale,
{
    let after = book.with_changes(final_id, Seq::empty(), ask_changes, time);
    law_changes_are_applied(book, final_id, Seq::empty(), ask_changes, time);
    lemma_ladder_of_map(book.bids);
    lemma_last_change_wins(ladder_map(book.asks), ask_changes, ask_changes.len() - 1);
    lemma_ladder_entries(after.asks);
    let forced = ask_changes.last().0;
    let i = choose|i: int| 0 <= i < after.asks.len() && (#[trigger] after.asks[i]).price == forced;
    if i > 0 {
        assert(after.asks[0].price < after.asks[i].price);
    }
}

/// A batch that is due is applied, also where it overlaps what the book
/// has: one that starts at or before the next expected update id and ends
/// after the book's last one is accepted, all of its level changes are
/// set, and the book's last update id becomes the batch's last.
pub proof fn law_due_batch_is_applied(
    book: BookState,
    first_id: u64,
    final_id: u64,
    bid_changes: Seq<(u64, u64)>,
    ask_changes: Seq<(u64, u64)>,
    time: u64,
)
    requires
        book.wf(),
        first_id <= book.last_update_id + 1,
        final_id > book.last_update_id,
    ensures
        book.update_result(first_id) is Ok,
        book.after_update(first_id, final_id, bid_changes, ask_changes, time)
            == book.with_changes(final_id, bid_changes, ask_changes, time),
        book.after_update(first_id, final_id, bid_changes, ask_changes, time).last_update_id
            == final_id,
        book.after_update(first_id, final_id, bid_changes, ask_changes, time).timestamp == time,
        ladder_map(book.after_update(first_id, final_id, bid_changes, ask_changes, time).bids)
            == apply_levels(ladder_map(book.bids), bid_changes),
        ladder_map(book.after_update(first_id, final_id, bid_changes, ask_changes, time).asks)
            == apply_levels(ladder_map(book.asks), ask_changes),
{
    law_changes_are_applied(book, final_id, bid_changes, ask_changes, time);
}

/// A batch that ends at or before the book's last update id, and does not
/// start after it ends, was applied before: the book stays exactly as it is
/// and the batch is accepted.
pub proof fn law_applied_batch_is_noop(
    book: BookState,
    first_id: u64,
    final_id: u64,
    bid_changes: Seq<(u64, u64)>,
    ask_changes: Seq<(u64, u64)>,
    time: u64,
)
    requires
        first_id <= final_id <= book.last_update_id,
    ensures
        book.after_update(first_id, final_id, bid_changes, ask_changes, time) == book,
        book.update_result(first_id) is Ok,
{
}

} // verus!
