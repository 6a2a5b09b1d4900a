//! Plain data shared by every part of the exchange layer.

use vstd::prelude::*;
use vstd::string::*;

verus! {

/// An ASCII letter or digit.
pub open spec fn is_ascii_alphanumeric(c: char) -> bool {
    ('a' <= c && c <= 'z') || ('A' <= c && c <= 'Z') || ('0' <= c && c <= '9')
}

/// What `char::is_alphanumeric` answers for a character.
pub uninterp spec fn char_is_alphanumeric(c: char) -> bool;

/// Calls `char::is_alphanumeric`, which tests the Unicode properties
/// Alphabetic and Numeric. The contract only names the answer.
#[verifier::external_body]
fn is_alphanumeric(c: char) -> (answer: bool)
    ensures
        answer == char_is_alphanumeric(c),
{
    c.is_alphanumeric()
}

/// Whether a character may stand in a symbol, given what Unicode says of
/// it: a letter or digit, `-` or `_`. Within ASCII the letters and digits
/// are spelled out here; beyond it, Unicode decides.
pub open spec fn symbol_char_given(c: char, alphanumeric: bool) -> bool {
    if c <= '\x7f' {
        is_ascii_alphanumeric(c) || c == '-' || c == '_'
    } else {
        alphanumeric
    }
}

/// A character that may stand in a symbol.
pub open spec fn is_symbol_char(c: char) -> bool {
    symbol_char_given(c, char_is_alphanumeric(c))
}

/// A symbol text is valid when it is not empty and holds only characters
/// that may stand in a symbol.
pub open spec fn is_valid_symbol(text: Seq<char>) -> bool {
    text.len() > 0 && forall|i: int| 0 <= i < text.len() ==> is_symbol_char(#[trigger] text[i])
}

/// Whether a character may stand in a symbol, given whether Unicode counts
/// it as a letter or digit.
pub fn allowed_in_symbol(c: char, alphanumeric: bool) -> (allowed: bool)
    ensures
        allowed == symbol_char_given(c, alphanumeric),
{
    if c <= '\x7f' {
        ('a' <= c && c <= 'z') || ('A' <= c && c <= 'Z') || ('0' <= c && c <= '9') || c == '-'
            || c == '_'
    } else {
        alphanumeric
    }
}

/// Identifier of a traded instrument.
#[derive(Debug, Clone, PartialEq, Eq, Hash)]
pub struct Symbol(pub String);

impl View for Symbol {
    type V = Seq<char>;

    open spec fn view(&self) -> Seq<char> {
        self.0@
    }
}

impl Symbol {
    pub fn new(s: &str) -> (symbol: Symbol)
        ensures
            symbol@ == s@,
    {
        Symbol(String::from_str(s))
    }

    pub fn validate(&self) -> (valid: bool)
        ensures
            valid == is_valid_symbol(self@),
    {
        let text = self.0.as_str();
        let n = text.unicode_len();
        if n == 0 {
            return false;
        }
        let mut i: usize = 0;
        while i < n
            invariant
                n == text@.len(),
                text@ == self@,
                i <= n,
                forall|j: int| 0 <= j < i ==> is_symbol_char(#[trigger] text@[j]),
            decreases n - i,
        {
            let c = text.get_char(i);
            if !allowed_in_symbol(c, is_alphanumeric(c)) {
                return false;
            }
            i += 1;
        }
        true
    }

    pub fn as_str(&self) -> (text: &str)
        ensures
            text@ == self@,
    {
        self.0.as_str()
    }

    /// A copy of the symbol.
    pub fn duplicate(&self) -> (copy: Symbol)
        ensures
            copy == *self,
    {
        Symbol(self.0.clone())
    }

    /// Whether two symbols hold the same text.
    pub fn same_as(&self, other: &Symbol) -> (same: bool)
        ensures
            same == (self@ == other@),
    {
        self.0 == other.0
    }
}

/// Kinds of market data.
#[derive(Debug, Clone, Copy, PartialEq, Eq, Structural)]
pub enum MarketDataType {
    Trade,
    Quote,
    OrderBook,
    Kline,
}

/// Side of an order or trade.
#[derive(Debug, Clone, Copy, PartialEq, Eq, Structural)]
pub enum Side {
    Buy,
    Sell,
}

impl Side {
    /// Sign of the side: `1` for a buy, `-1` for a sell.
    pub fn multiplier(&self) -> (sign: i64)
        ensures
            sign == (if *self == Side::Buy { 1i64 } else { -1i64 }),
    {
        match self {
            Side::Buy => 1,
            Side::Sell => -1,
        }
    }
}

/// Exchange identifier.
#[derive(Debug, Clone, Copy, PartialEq, Eq, Hash, Structural)]
pub enum Exchange {
    Binance,
    Coinbase,
    Kraken,
    Bitstamp,
    Gemini,
}

impl Exchange {
    /// Display name of the exchange.
    pub fn name(&self) -> (name: &'static str)
        ensures
            name@ == (match *self {
                Exchange::Binance => "Binance"@,
                Exchange::Coinbase => "Coinbase"@,
                Exchange::Kraken => "Kraken"@,
                Exchange::Bitstamp => "Bitstamp"@,
                Exchange::Gemini => "Gemini"@,
            }),
    {
        match self {
            Exchange::Binance => "Binance",
            Exchange::Coinbase => "Coinbase",
            Exchange::Kraken => "Kraken",
            Exchange::Bitstamp => "Bitstamp",
            Exchange::Gemini => "Gemini",
        }
    }
}

/// Envelope of a message as it came from an exchange.
#[derive(Debug, Clone)]
pub struct ExchangeMessage {
    pub timestamp: u64,
    pub symbol: Symbol,
    pub data: MarketDataType,
    pub exchange: Exchange,
    pub sequence: u64,
}

/// How long an order stays in force.
#[derive(Debug, Clone, Copy, PartialEq, Eq, Structural)]
pub enum TimeInForce {
    GTC,
    IOC,
    FOK,
    GTX,
}

/// A trade in exchange-independent form. Price and quantity are fixed-point
/// with eight fractional digits, times are milliseconds since the epoch.
#[derive(Debug, Clone)]
pub struct UniversalTrade {
    pub exchange: Exchange,
    pub symbol: Symbol,
    pub price: u64,
    pub quantity: u64,
    pub side: Side,
    pub timestamp_exchange: u64,
    pub timestamp_local: u64,
    pub trade_id: String,
}

/// Best bid and ask in exchange-independent form.
#[derive(Debug, Clone)]
pub struct UniversalQuote {
    pub exchange: Exchange,
    pub symbol: Symbol,
    pub bid_price: u64,
    pub bid_size: u64,
    pub ask_price: u64,
    pub ask_size: u64,
    pub timestamp_exchange: u64,
    pub timestamp_local: u64,
}

/// An incremental depth update in exchange-independent form: the level
/// changes of the update ids `first_sequence ..= sequence`. A level with size
/// zero is a removal.
#[derive(Debug, Clone)]
pub struct UniversalOrderBook {
    pub exchange: Exchange,
    pub symbol: Symbol,
    pub bids: Vec<(u64, u64)>,
    pub asks: Vec<(u64, u64)>,
    pub timestamp_exchange: u64,
    pub timestamp_local: u64,
    pub first_sequence: u64,
    pub sequence: u64,
}

/// A normalized market-data event.
#[derive(Debug, Clone)]
pub enum UniversalMarketData {
    Trade(UniversalTrade),
    Quote(UniversalQuote),
    OrderBook(UniversalOrderBook),
}

impl UniversalMarketData {
    /// Local receive time of the event.
    pub fn timestamp(&self) -> (time: u64)
        ensures
            time == (match *self {
                UniversalMarketData::Trade(t) => t.timestamp_local,
                UniversalMarketData::Quote(q) => q.timestamp_local,
                UniversalMarketData::OrderBook(b) => b.timestamp_local,
            }),
    {
        match self {
            UniversalMarketData::Trade(t) => t.timestamp_local,
            UniversalMarketData::Quote(q) => q.timestamp_local,
            UniversalMarketData::OrderBook(b) => b.timestamp_local,
        }
    }

    /// Symbol the event is about.
    pub fn symbol(&self) -> (symbol: &Symbol)
        ensures
            *symbol == (match *self {
                UniversalMarketData::Trade(t) => t.symbol,
                UniversalMarketData::Quote(q) => q.symbol,
                UniversalMarketData::OrderBook(b) => b.symbol,
            }),
    {
        match self {
            UniversalMarketData::Trade(t) => &t.symbol,
            UniversalMarketData::Quote(q) => &q.symbol,
            UniversalMarketData::OrderBook(b) => &b.symbol,
        }
    }
}

} // verus!
