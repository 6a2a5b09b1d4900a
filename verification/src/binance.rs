//! Binance's own forms of market data.

use vstd::prelude::*;
use vstd::string::*;
use crate::clock::unix_millis;
use crate::connector::ToUniversal;
use crate::decimal::{decimal_value, digits_of, is_decimal, parse_decimal, unsigned_text};
use crate::errors::ExchangeError;
use crate::orderbook::{first_bad_text, level_values, parse_levels};
use crate::types::{
    Exchange, Side, Symbol, UniversalOrderBook, UniversalQuote, UniversalTrade,
};

verus! {

/// Where Binance streams are served.
#[derive(Debug, Clone)]
pub struct BinanceConfig {
    pub base_url: String,
}

impl Default for BinanceConfig {
    fn default() -> (config: BinanceConfig)
        ensures
            config.base_url@ == "wss://stream.binance.com:9443/ws"@,
    {
        BinanceConfig { base_url: String::from_str("wss://stream.binance.com:9443/ws") }
    }
}

/// A trade as Binance sends it: price and quantity in decimal text.
#[derive(Debug, Clone)]
pub struct BinanceTrade {
    pub event_type: String,
    pub symbol: String,
    pub price: String,
    pub quantity: String,
    pub trade_time: u64,
    pub is_buyer_maker: bool,
    pub trade_id: u64,
}

/// The side of the taker: where the buyer made the market, the taker sold.
pub open spec fn taker_side(is_buyer_maker: bool) -> Side {
    if is_buyer_maker {
        Side::Sell
    } else {
        Side::Buy
    }
}

impl BinanceTrade {
    /// The first of price and quantity that is no decimal in range.
    pub open spec fn bad_text(&self) -> Option<Seq<char>> {
        if !is_decimal(self.price@) {
            Some(self.price@)
        } else if !is_decimal(self.quantity@) {
            Some(self.quantity@)
        } else {
            None
        }
    }

    /// The trade in universal form, received at `received_at`. Fails, with
    /// the offending text, where price or quantity is no decimal in range.
    pub fn normalize(&self, received_at: u64) -> (trade: Result<UniversalTrade, ExchangeError>)
        ensures
            match trade {
                Ok(trade) => {
                    &&& self.bad_text() is None
                    &&& trade.exchange == Exchange::Binance
                    &&& trade.symbol@ == self.symbol@
                    &&& decimal_value(self.price@) == Some(trade.price as nat)
                    &&& decimal_value(self.quantity@) == Some(trade.quantity as nat)
                    &&& trade.side == taker_side(self.is_buyer_maker)
                    &&& trade.timestamp_exchange == self.trade_time
                    &&& trade.timestamp_local == received_at
                    &&& trade.trade_id@ == digits_of(self.trade_id as nat)
                },
                Err(error) => self.bad_text() matches Some(text) && error.is_parse_of(text),
            },
    {
        let price = match parse_decimal(self.price.as_str()) {
            Ok(price) => price,
            Err(error) => {
                return Err(error);
            },
        };
        let quantity = match parse_decimal(self.quantity.as_str()) {
            Ok(quantity) => quantity,
            Err(error) => {
                return Err(error);
            },
        };
        Ok(
            UniversalTrade {
                exchange: Exchange::Binance,
                symbol: Symbol::new(self.symbol.as_str()),
                price,
                quantity,
                side: if self.is_buyer_maker {
                    Side::Sell
                } else {
                    Side::Buy
                },
                timestamp_exchange: self.trade_time,
                timestamp_local: received_at,
                trade_id: unsigned_text(self.trade_id),
            },
        )
    }
}

impl ToUniversal<Result<UniversalTrade, ExchangeError>> for BinanceTrade {
    /// The trade in universal form, received now by the wall clock.
    fn to_universal(&self) -> (trade: Result<UniversalTrade, ExchangeError>)
        ensures
            trade is Ok <==> self.bad_text() is None,
    {
        self.normalize(unix_millis())
    }
}

/// Best bid and ask as Binance sends them, in decimal text.
#[derive(Debug, Clone)]
pub struct BinanceBookTicker {
    pub order_book_update_id: u64,
    pub symbol: String,
    pub best_bid_price: String,
    pub best_bid_qty: String,
    pub best_ask_price: String,
    pub best_ask_qty: String,
}

impl BinanceBookTicker {
    /// The first of the four figures, bid before ask and price before
    /// quantity, that is no decimal in range.
    pub open spec fn bad_text(&self) -> Option<Seq<char>> {
        if !is_decimal(self.best_bid_price@) {
            Some(self.best_bid_price@)
        } else if !is_decimal(self.best_bid_qty@) {
            Some(self.best_bid_qty@)
        } else if !is_decimal(self.best_ask_price@) {
            Some(self.best_ask_price@)
        } else if !is_decimal(self.best_ask_qty@) {
            Some(self.best_ask_qty@)
        } else {
            None
        }
    }

    /// The quote in universal form, received at `received_at`. The frame
    /// carries no time of its own, so both times are the time of receipt.
    /// Fails, with the offending text, where a figure is no decimal in
    /// range.
    pub fn normalize(&self, received_at: u64) -> (quote: Result<UniversalQuote, ExchangeError>)
        ensures
            match quote {
                Ok(quote) => {
                    &&& self.bad_text() is None
                    &&& quote.exchange == Exchange::Binance
                    &&& quote.symbol@ == self.symbol@
                    &&& decimal_value(self.best_bid_price@) == Some(quote.bid_price as nat)
                    &&& decimal_value(self.best_bid_qty@) == Some(quote.bid_size as nat)
                    &&& decimal_value(self.best_ask_price@) == Some(quote.ask_price as nat)
                    &&& decimal_value(self.best_ask_qty@) == Some(quote.ask_size as nat)
                    &&& quote.timestamp_exchange == received_at
                    &&& quote.timestamp_local == received_at
                },
                Err(error) => self.bad_text() matches Some(text) && error.is_parse_of(text),
            },
    {
        let bid_price = match parse_decimal(self.best_bid_price.as_str()) {
            Ok(value) => value,
            Err(error) => {
                return Err(error);
            },
        };
        let bid_size = match parse_decimal(self.best_bid_qty.as_str()) {
            Ok(value) => value,
            Err(error) => {
                return Err(error);
            },
        };
        let ask_price = match parse_decimal(self.best_ask_price.as_str()) {
            Ok(value) => value,
            Err(error) => {
                return Err(error);
            },
        };
        let ask_size = match parse_decimal(self.best_ask_qty.as_str()) {
            Ok(value) => value,
            Err(error) => {
                return Err(error);
            },
        };
        Ok(
            UniversalQuote {
                exchange: Exchange::Binance,
                symbol: Symbol::new(self.symbol.as_str()),
                bid_price,
                bid_size,
                ask_price,
                ask_size,
                timestamp_exchange: received_at,
                timestamp_local: received_at,
            },
        )
    }
}

/// A depth update as Binance sends it on its streams.
#[derive(Debug)]
pub struct BinanceDepth {
    pub event_type: String,
    pub event_time: u64,
    pub symbol: String,
    pub first_update_id: u64,
    pub final_update_id: u64,
    pub bids: Vec<[String; 2]>,
    pub asks: Vec<[String; 2]>,
}

impl BinanceDepth {
    /// The update in universal form, received at `received_at`. Fails, with
    /// the offending text, where a price or size is no decimal in range;
    /// bids are read before asks.
    pub fn normalize(&self, received_at: u64) -> (depth: Result<UniversalOrderBook, ExchangeError>)
        ensures
            match depth {
                Ok(depth) => {
                    &&& first_bad_text(self.bids@) is None
                    &&& first_bad_text(self.asks@) is None
                    &&& depth.exchange == Exchange::Binance
                    &&& depth.symbol@ == self.symbol@
                    &&& depth.bids@ == level_values(self.bids@)
                    &&& depth.asks@ == level_values(self.asks@)
                    &&& depth.timestamp_exchange == self.event_time
                    &&& depth.timestamp_local == received_at
                    &&& depth.first_sequence == self.first_update_id
                    &&& depth.sequence == self.final_update_id
                },
                Err(error) => (match first_bad_text(self.bids@) {
                    Some(text) => error.is_parse_of(text),
                    None => first_bad_text(self.asks@) matches Some(text) && error.is_parse_of(
                        text,
                    ),
                }),
            },
    {
        let bids = match parse_levels(&self.bids) {
            Ok(bids) => bids,
            Err(error) => {
                return Err(error);
            },
        };
        let asks = match parse_levels(&self.asks) {
            Ok(asks) => asks,
            Err(error) => {
                return Err(error);
            },
        };
        Ok(
            UniversalOrderBook {
                exchange: Exchange::Binance,
                symbol: Symbol::new(self.symbol.as_str()),
                bids,
                asks,
                timestamp_exchange: self.event_time,
                timestamp_local: received_at,
                first_sequence: self.first_update_id,
                sequence: self.final_update_id,
            },
        )
    }
}

/// `needle` stands in `text` from position `at` on.
pub open spec fn occurs_at(text: Seq<char>, needle: Seq<char>, at: int) -> bool {
    0 <= at && at + needle.len() <= text.len() && text.subrange(at, at + needle.len()) == needle
}

/// `needle` stands somewhere in `text`.
pub open spec fn occurs_in(text: Seq<char>, needle: Seq<char>) -> bool {
    exists|at: int| occurs_at(text, needle, at)
}

/// Whether `needle` stands in `text` from position `at` on.
fn matches_at(text: &str, needle: &str, at: usize) -> (found: bool)
    requires
        at + needle@.len() <= text@.len(),
    ensures
        found == occurs_at(text@, needle@, at as int),
{
    let len = text.unicode_len();
    let n = needle.unicode_len();
    let mut k: usize = 0;
    while k < n
        invariant
            len == text@.len(),
            n == needle@.len(),
            at + n <= len,
            k <= n,
            forall|j: int| 0 <= j < k ==> text@[at + j] == needle@[j],
        decreases n - k,
    {
        if text.get_char(at + k) != needle.get_char(k) {
            proof {
                if occurs_at(text@, needle@, at as int) {
                    assert(text@.subrange(at as int, at + n)[k as int] == needle@[k as int]);
                }
            }
            return false;
        }
        k += 1;
    }
    proof {
        assert(text@.subrange(at as int, at + n) =~= needle@);
    }
    true
}

/// Whether `needle` stands somewhere in `text`.
pub fn contains_text(text: &str, needle: &str) -> (found: bool)
    ensures
        found == occurs_in(text@, needle@),
{
    let len = text.unicode_len();
    let n = needle.unicode_len();
    if n > len {
        proof {
            assert forall|at: int| !occurs_at(text@, needle@, at) by {}
        }
        return false;
    }
    let last = len - n;
    let mut at: usize = 0;
    loop
        invariant
            len == text@.len(),
            n == needle@.len(),
            last == len - n,
            at <= last,
            forall|before: int| 0 <= before < at ==> !occurs_at(text@, needle@, before),
        decreases last - at,
    {
        if matches_at(text, needle, at) {
            return true;
        }
        if at == last {
            proof {
                assert forall|any: int| !occurs_at(text@, needle@, any) by {}
            }
            return false;
        }
        at += 1;
    }
}

/// What a frame of Binance carries.
#[derive(Debug, Clone, Copy, PartialEq, Eq, Structural)]
pub enum BinanceFrame {
    Trade,
    BookTicker,
    Depth,
    Ticker,
    Kline,
    Unknown,
}

/// What the frames of a named stream carry. The name of a stream holds the
/// mark of its kind; where it holds several, the first of trade, book
/// ticker, depth, ticker and kline counts.
pub open spec fn frame_of_stream(stream: Seq<char>) -> BinanceFrame {
    if occurs_in(stream, "@trade"@) {
        BinanceFrame::Trade
    } else if occurs_in(stream, "@bookTicker"@) {
        BinanceFrame::BookTicker
    } else if occurs_in(stream, "@depth"@) {
        BinanceFrame::Depth
    } else if occurs_in(stream, "@ticker"@) {
        BinanceFrame::Ticker
    } else if occurs_in(stream, "@kline"@) {
        BinanceFrame::Kline
    } else {
        BinanceFrame::Unknown
    }
}

/// What a frame with a given event type carries.
pub open spec fn frame_of_event(event_type: Seq<char>) -> BinanceFrame {
    if event_type == "trade"@ {
        BinanceFrame::Trade
    } else if event_type == "24hrTicker"@ {
        BinanceFrame::Ticker
    } else if event_type == "depthUpdate"@ {
        BinanceFrame::Depth
    } else if event_type == "kline"@ {
        BinanceFrame::Kline
    } else {
        BinanceFrame::Unknown
    }
}

impl BinanceFrame {
    /// What the frames of the stream called `stream` carry.
    pub fn of_stream(stream: &str) -> (frame: BinanceFrame)
        ensures
            frame == frame_of_stream(stream@),
    {
        if contains_text(stream, "@trade") {
            BinanceFrame::Trade
        } else if contains_text(stream, "@bookTicker") {
            BinanceFrame::BookTicker
        } else if contains_text(stream, "@depth") {
            BinanceFrame::Depth
        } else if contains_text(stream, "@ticker") {
            BinanceFrame::Ticker
        } else if contains_text(stream, "@kline") {
            BinanceFrame::Kline
        } else {
            BinanceFrame::Unknown
        }
    }

    /// What a frame with the event type `event_type` carries.
    pub fn of_event(event_type: &str) -> (frame: BinanceFrame)
        ensures
            frame == frame_of_event(event_type@),
    {
        let event = String::from_str(event_type);
        if event == String::from_str("trade") {
            BinanceFrame::Trade
        } else if event == String::from_str("24hrTicker") {
            BinanceFrame::Ticker
        } else if event == String::from_str("depthUpdate") {
            BinanceFrame::Depth
        } else if event == String::from_str("kline") {
            BinanceFrame::Kline
        } else {
            BinanceFrame::Unknown
        }
    }
}

} // verus!
