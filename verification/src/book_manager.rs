//! The registry of order books: one book per symbol, found by symbol, fed
//! with updates, and scanned for arbitrage.

use vstd::prelude::*;
use vstd::string::*;
use dashmap::DashMap;
use crate::arbitrage::{
    direct_between, find_direct_between, find_triangular_among, opportunities, ranked,
    sort_by_profit, triangular_among, ArbitrageOpportunity, Opportunity, Triangle,
};
use crate::clock::{unix_millis, Stopwatch};
use crate::connection::bumped;
use crate::errors::ExchangeError;
use crate::types::{UniversalMarketData, UniversalOrderBook};
use crate::decimal::{append_unsigned, digits_of};
use crate::orderbook::{
    first_bad_text, level_values, BookState, DepthSnapshot, DepthUpdate, OrderBook,
};

verus! {

/// `dashmap::DashMap`, a concurrent hash map, taken as an opaque value.
/// What a map of symbols holds is named by [`slots`].
#[verifier::external_type_specification]
#[verifier::external_body]
#[verifier::reject_recursive_types(K)]
#[verifier::reject_recursive_types(V)]
#[verifier::reject_recursive_types(S)]
pub struct ExDashMap<K, V, S>(DashMap<K, V, S>);

/// What an index of symbols holds: the slot of each symbol in it.
pub uninterp spec fn slots(index: DashMap<String, usize>) -> Map<Seq<char>, usize>;

/// Calls `DashMap::new`, which makes a map without entries.
#[verifier::external_body]
fn index_new() -> (index: DashMap<String, usize>)
    ensures
        slots(index) =~= Map::empty(),
{
    DashMap::new()
}

/// Calls `DashMap::get` and copies the value out of the guard: the slot
/// stored for the symbol, none where the symbol is no key.
#[verifier::external_body]
fn index_get(index: &DashMap<String, usize>, symbol: &str) -> (slot: Option<usize>)
    ensures
        slot == (if slots(*index).contains_key(symbol@) {
            Some(slots(*index)[symbol@])
        } else {
            None::<usize>
        }),
{
    index.get(symbol).map(|entry| *entry.value())
}

/// Calls `DashMap::insert`, which stores the slot for the symbol, in place
/// of any slot stored for it before, and leaves every other entry alone.
/// The call is made through `&mut` so that nobody else holds the map.
#[verifier::external_body]
fn index_insert(index: &mut DashMap<String, usize>, symbol: String, slot: usize)
    ensures
        slots(*final(index)) == slots(*old(index)).insert(symbol@, slot),
{
    index.insert(symbol, slot);
}

/// An update that took longer than this many microseconds counts as slow.
pub const SLOW_UPDATE_MICROS: u64 = 100;

/// What to look for when books are scanned for arbitrage. Gains, sizes and
/// the stake are fixed-point with eight fractional digits.
#[derive(Debug)]
pub struct ArbitrageConfig {
    /// Pairs of symbols that price the same asset.
    pub direct_pairs: Vec<(String, String)>,
    /// Triangles of symbols that close a cycle of three assets.
    pub triangles: Vec<Triangle>,
    /// Gain in basis points above which an opportunity is reported.
    pub threshold_bps: u64,
    /// Size reported with a direct opportunity.
    pub direct_size: u64,
    /// Amount of the quote asset sent round a triangle.
    pub stake: u64,
    /// Shortest time between two scans, in milliseconds.
    pub min_scan_interval_ms: u64,
}

impl ArbitrageConfig {
    /// The configuration that is used where none is given: BTCUSDT against
    /// BTCBUSD, the triangle of BTCUSDT, ETHUSDT and ETHBTC, a threshold of
    /// one basis point, a direct size of 0.1, a stake of 1000 and scans at
    /// least 100 ms apart.
    pub open spec fn is_default(&self) -> bool {
        &&& self.direct_pairs@.len() == 1
        &&& self.direct_pairs@[0].0@ == "BTCUSDT"@
        &&& self.direct_pairs@[0].1@ == "BTCBUSD"@
        &&& self.triangles@.len() == 1
        &&& self.triangles@[0].base_symbol@ == "BTCUSDT"@
        &&& self.triangles@[0].alt_symbol@ == "ETHUSDT"@
        &&& self.triangles@[0].cross_symbol@ == "ETHBTC"@
        &&& self.triangles@[0].forward_label@ == "BTC-ETH-USD"@
        &&& self.triangles@[0].reverse_label@ == "ETH-BTC-USD"@
        &&& self.threshold_bps == 100_000_000
        &&& self.direct_size == 10_000_000
        &&& self.stake == 100_000_000_000
        &&& self.min_scan_interval_ms == 100
    }
}

impl Default for ArbitrageConfig {
    /// BTCUSDT against BTCBUSD, the triangle of BTCUSDT, ETHUSDT and ETHBTC,
    /// a threshold of one basis point, a direct size of 0.1, a stake of 1000
    /// and scans at least 100 ms apart.
    fn default() -> (config: ArbitrageConfig)
        ensures
            config.is_default(),
    {
        let mut direct_pairs: Vec<(String, String)> = Vec::new();
        direct_pairs.push((String::from_str("BTCUSDT"), String::from_str("BTCBUSD")));
        let mut triangles: Vec<Triangle> = Vec::new();
        triangles.push(
            Triangle {
                base_symbol: String::from_str("BTCUSDT"),
                alt_symbol: String::from_str("ETHUSDT"),
                cross_symbol: String::from_str("ETHBTC"),
                forward_label: String::from_str("BTC-ETH-USD"),
                reverse_label: String::from_str("ETH-BTC-USD"),
            },
        );
        ArbitrageConfig {
            direct_pairs,
            triangles,
            threshold_bps: 100_000_000,
            direct_size: 10_000_000,
            stake: 100_000_000_000,
            min_scan_interval_ms: 100,
        }
    }
}

/// Index of the first book of `symbol`, or the number of books where there
/// is none.
pub open spec fn symbol_position(books: Seq<BookState>, symbol: Seq<char>) -> int
    decreases books.len(),
{
    if books.len() == 0 || books[0].symbol == symbol {
        0
    } else {
        1 + symbol_position(books.drop_first(), symbol)
    }
}

/// The book of `symbol`, if there is one.
pub open spec fn book_of(books: Seq<BookState>, symbol: Seq<char>) -> Option<BookState> {
    if symbol_position(books, symbol) < books.len() {
        Some(books[symbol_position(books, symbol)])
    } else {
        None
    }
}

/// No two books share a symbol.
pub open spec fn distinct_symbols(books: Seq<BookState>) -> bool {
    forall|i: int, j: int|
        0 <= i < j < books.len() ==> (#[trigger] books[i]).symbol != (#[trigger] books[j]).symbol
}

/// The books after `book` is installed: it takes the place of the book of
/// its symbol, or the last place where its symbol is new.
pub open spec fn installed(books: Seq<BookState>, book: BookState) -> Seq<BookState> {
    let at = symbol_position(books, book.symbol);
    if at < books.len() {
        books.update(at, book)
    } else {
        books.push(book)
    }
}

/// The update counts after a book of `symbol` is installed: its count
/// starts at zero.
pub open spec fn installed_counts(
    books: Seq<BookState>,
    counts: Seq<u64>,
    symbol: Seq<char>,
) -> Seq<u64> {
    let at = symbol_position(books, symbol);
    if at < books.len() {
        counts.update(at, 0)
    } else {
        counts.push(0)
    }
}

pub proof fn lemma_symbol_position(books: Seq<BookState>, symbol: Seq<char>)
    ensures
        0 <= symbol_position(books, symbol) <= books.len(),
        forall|j: int|
            0 <= j < symbol_position(books, symbol) ==> (#[trigger] books[j]).symbol != symbol,
        symbol_position(books, symbol) < books.len() ==> books[symbol_position(
            books,
            symbol,
        )].symbol == symbol,
    decreases books.len(),
{
    if books.len() == 0 || books[0].symbol == symbol {
    } else {
        let rest = books.drop_first();
        lemma_symbol_position(rest, symbol);
        assert forall|j: int| 0 <= j < symbol_position(books, symbol) implies (
        #[trigger] books[j]).symbol != symbol by {
            if j > 0 {
                assert(books[j] == rest[j - 1]);
            }
        }
        if symbol_position(books, symbol) < books.len() {
            assert(books[symbol_position(books, symbol)] == rest[symbol_position(rest, symbol)]);
        }
    }
}

/// There is one book per symbol, and a book that is installed never takes
/// another symbol's book away: after an installation the symbol has the
/// new book and every other symbol has the book that it had.
pub proof fn law_one_book_per_symbol(books: Seq<BookState>, book: BookState, other: Seq<char>)
    requires
        distinct_symbols(books),
    ensures
        distinct_symbols(installed(books, book)),
        installed(books, book).len() >= books.len(),
        book_of(installed(books, book), book.symbol) == Some(book),
        other != book.symbol ==> book_of(installed(books, book), other) == book_of(books, other),
{
    let after = installed(books, book);
    lemma_symbol_position(books, book.symbol);
    lemma_symbol_position(books, other);
    let at = symbol_position(books, book.symbol);
    assert forall|i: int, j: int| 0 <= i < j < after.len() implies (#[trigger] after[i]).symbol != (
    #[trigger] after[j]).symbol by {
        if at < books.len() {
            assert(after[i].symbol == books[i].symbol && after[j].symbol == books[j].symbol);
        } else if j == books.len() {
            assert(after[i] == books[i]);
        } else {
            assert(after[i] == books[i] && after[j] == books[j]);
        }
    }
    assert forall|j: int| 0 <= j < at implies (#[trigger] after[j]).symbol != book.symbol by {
        assert(after[j] == books[j]);
    }
    lemma_symbol_found(after, book.symbol, at);
    if other != book.symbol {
        let there = symbol_position(books, other);
        assert forall|j: int| 0 <= j < there implies (#[trigger] after[j]).symbol != other by {
            if j != at {
                assert(after[j] == books[j]);
            }
        }
        if there < books.len() {
            assert(there != at);
            assert(after[there] == books[there]);
            lemma_symbol_found(after, other, there);
        } else {
            assert forall|j: int| 0 <= j < after.len() implies (#[trigger] after[j]).symbol
                != other by {
                if j < books.len() && j != at {
                    assert(after[j] == books[j]);
                }
            }
            lemma_symbol_found(after, other, after.len() as int);
        }
    }
}

proof fn lemma_symbol_found(books: Seq<BookState>, symbol: Seq<char>, at: int)
    requires
        0 <= at <= books.len(),
        forall|j: int| 0 <= j < at ==> (#[trigger] books[j]).symbol != symbol,
        at < books.len() ==> books[at].symbol == symbol,
    ensures
        symbol_position(books, symbol) == at,
{
    lemma_symbol_position(books, symbol);
    let p = symbol_position(books, symbol);
    if p < at {
        assert(books[p].symbol == symbol);
    } else if at < p {
        assert(books[at].symbol == symbol);
    }
}

/// The opportunities of the configured pairs, pair by pair. A pair offers
/// nothing while one of its books is missing.
pub open spec fn direct_over(
    books: Seq<BookState>,
    pairs: Seq<(String, String)>,
    threshold_bps: u64,
    size: u64,
    now: u64,
) -> Seq<Opportunity>
    decreases pairs.len(),
{
    if pairs.len() == 0 {
        seq![]
    } else {
        direct_over(books, pairs.drop_last(), threshold_bps, size, now) + (match (
            book_of(books, pairs.last().0@),
            book_of(books, pairs.last().1@),
        ) {
            (Some(first), Some(second)) => direct_between(first, second, threshold_bps, size, now),
            _ => seq![],
        })
    }
}

/// The opportunities of the configured triangles, triangle by triangle. A
/// triangle offers nothing while one of its books is missing.
pub open spec fn triangular_over(
    books: Seq<BookState>,
    triangles: Seq<Triangle>,
    threshold_bps: u64,
    stake: u64,
    now: u64,
) -> Seq<Opportunity>
    decreases triangles.len(),
{
    if triangles.len() == 0 {
        seq![]
    } else {
        triangular_over(books, triangles.drop_last(), threshold_bps, stake, now) + (match (
            book_of(books, triangles.last().base_symbol@),
            book_of(books, triangles.last().alt_symbol@),
            book_of(books, triangles.last().cross_symbol@),
        ) {
            (Some(base), Some(alt), Some(cross)) => triangular_among(
                base,
                alt,
                cross,
                triangles.last().forward_label@,
                triangles.last().reverse_label@,
                threshold_bps,
                stake,
                now,
            ),
            _ => seq![],
        })
    }
}

/// The books that a run of snapshot fetches leaves: each snapshot that came
/// and can be read installs a book under its symbol; a fetch that failed,
/// or a snapshot that cannot be read, is skipped and blocks no other.
pub open spec fn loaded_books(
    snapshots: Seq<(String, Result<DepthSnapshot, ExchangeError>)>,
    time: u64,
) -> Seq<BookState>
    decreases snapshots.len(),
{
    if snapshots.len() == 0 {
        seq![]
    } else {
        let before = loaded_books(snapshots.drop_last(), time);
        match snapshots.last().1 {
            Ok(snapshot) => if first_bad_text(snapshot.bids@ + snapshot.asks@) is None {
                installed(
                    before,
                    BookState::from_snapshot(
                        snapshots.last().0@,
                        snapshot.last_update_id,
                        level_values(snapshot.bids@),
                        level_values(snapshot.asks@),
                        time,
                    ),
                )
            } else {
                before
            },
            Err(_) => before,
        }
    }
}

/// Time since the last scan, zero where the clock went back.
pub open spec fn since_scan(last: u64, now: u64) -> int {
    if now >= last {
        now - last
    } else {
        0
    }
}

/// A scan at the time `now` comes too soon where a scan has run before and
/// less than `interval` milliseconds have passed since. The first scan of
/// a registry never comes too soon: the interval lies between two scans.
pub open spec fn too_soon(last: Option<u64>, now: u64, interval: u64) -> bool {
    last matches Some(before) && since_scan(before, now) < interval
}

/// Figures of one book.
#[derive(Debug)]
pub struct BookStats {
    pub symbol: String,
    pub bids: usize,
    pub asks: usize,
    pub updates: u64,
}

/// Figures of a registry.
#[derive(Debug)]
pub struct ManagerStats {
    pub total_updates: u64,
    pub books: Vec<BookStats>,
}

/// One line of a report: symbol, levels per side, updates.
pub open spec fn stats_line(book: BookStats) -> Seq<char> {
    "  "@ + book.symbol@ + ": "@ + digits_of(book.bids as nat) + " bids, "@ + digits_of(
        book.asks as nat,
    ) + " asks, "@ + digits_of(book.updates as nat) + " updates\n"@
}

/// The lines of a report, book by book.
pub open spec fn stats_lines(books: Seq<BookStats>) -> Seq<char>
    decreases books.len(),
{
    if books.len() == 0 {
        Seq::empty()
    } else {
        stats_lines(books.drop_last()) + stats_line(books.last())
    }
}

impl ManagerStats {
    /// The figures as a report for people to read.
    pub open spec fn report(&self) -> Seq<char> {
        "Total updates: "@ + digits_of(self.total_updates as nat) + "\nBooks:\n"@ + stats_lines(
            self.books@,
        )
    }

    /// The figures as text: the count of all updates, then one line per
    /// book.
    pub fn render(&self) -> (text: String)
        ensures
            text@ == self.report(),
    {
        let mut text = String::from_str("Total updates: ");
        append_unsigned(&mut text, self.total_updates);
        text.append("\nBooks:\n");
        let ghost head = text@;
        let mut i: usize = 0;
        proof {
            assert(self.books@.take(0) =~= Seq::<BookStats>::empty());
            assert(head + stats_lines(self.books@.take(0)) =~= head);
        }
        while i < self.books.len()
            invariant
                i <= self.books@.len(),
                text@ == head + stats_lines(self.books@.take(i as int)),
            decreases self.books.len() - i,
        {
            let book = &self.books[i];
            let ghost before = text@;
            text.append("  ");
            text.append(book.symbol.as_str());
            text.append(": ");
            append_unsigned(&mut text, book.bids as u64);
            text.append(" bids, ");
            append_unsigned(&mut text, book.asks as u64);
            text.append(" asks, ");
            append_unsigned(&mut text, book.updates);
            text.append(" updates\n");
            proof {
                let next = self.books@.take(i + 1);
                assert(next.drop_last() =~= self.books@.take(i as int));
                assert(next.last() == *book);
                assert(text@ =~= before + stats_line(*book));
                assert(text@ =~= head + stats_lines(next));
            }
            i += 1;
        }
        proof {
            assert(self.books@.take(i as int) =~= self.books@);
        }
        text
    }
}

/// Order books of many symbols. The books stand in the order in which
/// their symbols first came; an index of symbols finds the place of a
/// symbol's book.
#[derive(Debug)]
pub struct OrderBookManager {
    index: DashMap<String, usize>,
    books: Vec<OrderBook>,
    update_counts: Vec<u64>,
    total_updates: u64,
    slow_updates: u64,
    last_latency_micros: u64,
    clock: Stopwatch,
    last_scan_ms: Option<u64>,
    config: ArbitrageConfig,
}

impl OrderBookManager {
    /// The books, in the order in which their symbols first came.
    pub closed spec fn books(&self) -> Seq<BookState> {
        self.books@.map_values(|book: OrderBook| book@)
    }

    /// Updates applied to each book since it was installed.
    pub closed spec fn update_counts(&self) -> Seq<u64> {
        self.update_counts@
    }

    /// Updates applied to all books.
    pub closed spec fn total_updates(&self) -> u64 {
        self.total_updates
    }

    /// Updates that took longer than [`SLOW_UPDATE_MICROS`].
    pub closed spec fn slow_updates(&self) -> u64 {
        self.slow_updates
    }

    /// Time that the last update took, in microseconds.
    pub closed spec fn last_latency(&self) -> u64 {
        self.last_latency_micros
    }

    /// Time of the last arbitrage scan, in milliseconds; none until a scan
    /// has run.
    pub closed spec fn last_scan(&self) -> Option<u64> {
        self.last_scan_ms
    }

    pub closed spec fn config(&self) -> ArbitrageConfig {
        self.config
    }

    /// Whether the books and counts of `after`, and `handled`, are what a
    /// normalized depth update makes of this registry. Without a book of
    /// the symbol the update is refused with `SymbolNotFound` and nothing
    /// changes. Otherwise the book takes the batch, and what it answers is
    /// returned; where it answers with success, the count of the symbol and
    /// the count of all updates go up by one.
    pub open spec fn depth_outcome(
        &self,
        after: &OrderBookManager,
        depth: UniversalOrderBook,
        handled: Result<(), ExchangeError>,
    ) -> bool {
        match book_of(self.books(), depth.symbol@) {
            None => {
                &&& handled matches Err(ExchangeError::SymbolNotFound { symbol: named })
                    && named@ == depth.symbol@
                &&& after.books() == self.books()
                &&& after.update_counts() == self.update_counts()
                &&& after.total_updates() == self.total_updates()
            },
            Some(book) => {
                let at = symbol_position(self.books(), depth.symbol@);
                &&& handled == book.update_result(depth.first_sequence)
                &&& after.books() == self.books().update(
                    at,
                    book.after_update(
                        depth.first_sequence,
                        depth.sequence,
                        depth.bids@,
                        depth.asks@,
                        depth.timestamp_exchange,
                    ),
                )
                &&& after.update_counts() == (if handled is Ok {
                    self.update_counts().update(at, bumped(self.update_counts()[at]))
                } else {
                    self.update_counts()
                })
                &&& after.total_updates() == (if handled is Ok {
                    bumped(self.total_updates())
                } else {
                    self.total_updates()
                })
            },
        }
    }

    /// The index knows exactly the symbols of the books, each with the
    /// place of its book; every book has its update count; every book is
    /// well formed.
    pub closed spec fn wf(&self) -> bool {
        &&& self.update_counts@.len() == self.books@.len()
        &&& forall|i: int|
            0 <= i < self.books@.len() ==> slots(self.index).contains_key(
                (#[trigger] self.books@[i])@.symbol,
            ) && slots(self.index)[self.books@[i]@.symbol] == i
        &&& forall|symbol: Seq<char>| #[trigger]
            slots(self.index).contains_key(symbol) ==> slots(self.index)[symbol]
                < self.books@.len() && self.books@[slots(self.index)[symbol] as int]@.symbol
                == symbol
        &&& forall|i: int| 0 <= i < self.books@.len() ==> (#[trigger] self.books@[i])@.wf()
    }

    /// What well-formedness means for the books: one book per symbol, one
    /// count per book, every book with ascending ladders.
    pub proof fn lemma_wf(&self)
        requires
            self.wf(),
        ensures
            distinct_symbols(self.books()),
            self.update_counts().len() == self.books().len(),
            forall|i: int| 0 <= i < self.books().len() ==> (#[trigger] self.books()[i]).wf(),
    {
        assert forall|i: int, j: int| 0 <= i < j < self.books().len() implies (
        #[trigger] self.books()[i]).symbol != (#[trigger] self.books()[j]).symbol by {
            assert(slots(self.index)[self.books@[i]@.symbol] == i);
            assert(slots(self.index)[self.books@[j]@.symbol] == j);
        }
        assert forall|i: int| 0 <= i < self.books().len() implies (#[trigger] self.books()[i]).wf() by {
            assert(self.books@[i]@.wf());
        }
    }

    /// A registry stays well formed when one book gives way to a well-formed
    /// book of the same symbol and nothing else moves.
    proof fn lemma_book_replaced(&self, after: &OrderBookManager, at: int)
        requires
            self.wf(),
            0 <= at < self.books@.len(),
            after.index == self.index,
            after.books@.len() == self.books@.len(),
            after.update_counts@.len() == self.update_counts@.len(),
            forall|i: int|
                0 <= i < self.books@.len() && i != at ==> #[trigger] after.books@[i]
                    == self.books@[i],
            after.books@[at]@.symbol == self.books@[at]@.symbol,
            after.books@[at]@.wf(),
        ensures
            after.wf(),
            after.books() == self.books().update(at, after.books@[at]@),
    {
        assert(after.books() =~= self.books().update(at, after.books@[at]@));
        assert forall|i: int| 0 <= i < after.books@.len() implies slots(after.index).contains_key(
            (#[trigger] after.books@[i])@.symbol,
        ) && slots(after.index)[after.books@[i]@.symbol] == i by {
            if i != at {
                assert(after.books@[i] == self.books@[i]);
            }
            assert(slots(self.index).contains_key(self.books@[i]@.symbol));
        }
        assert forall|key: Seq<char>| #[trigger]
            slots(after.index).contains_key(key) implies slots(after.index)[key]
            < after.books@.len() && after.books@[slots(after.index)[key] as int]@.symbol
            == key by {
            let slot = slots(self.index)[key];
            if slot != at {
                assert(after.books@[slot as int] == self.books@[slot as int]);
            }
        }
        assert forall|i: int| 0 <= i < after.books@.len() implies (#[trigger] after.books@[i])@.wf() by {
            if i != at {
                assert(after.books@[i] == self.books@[i]);
                assert(self.books@[i]@.wf());
            }
        }
    }

    /// A registry without books, with the default arbitrage configuration.
    pub fn new() -> (manager: OrderBookManager)
        ensures
            manager.wf(),
            manager.books() == Seq::<BookState>::empty(),
            manager.update_counts() == Seq::<u64>::empty(),
            manager.total_updates() == 0,
            manager.slow_updates() == 0,
            manager.last_scan() is None,
            manager.config().is_default(),
    {
        OrderBookManager::with_config(ArbitrageConfig::default())
    }

    /// A registry without books.
    pub fn with_config(config: ArbitrageConfig) -> (manager: OrderBookManager)
        ensures
            manager.wf(),
            manager.books() == Seq::<BookState>::empty(),
            manager.update_counts() == Seq::<u64>::empty(),
            manager.total_updates() == 0,
            manager.slow_updates() == 0,
            manager.last_scan() is None,
            manager.config() == config,
    {
        let manager = OrderBookManager {
            index: index_new(),
            books: Vec::new(),
            update_counts: Vec::new(),
            total_updates: 0,
            slow_updates: 0,
            last_latency_micros: 0,
            clock: Stopwatch::start(),
            last_scan_ms: None,
            config,
        };
        proof {
            assert(manager.books() =~= Seq::<BookState>::empty());
        }
        manager
    }

    /// Place of the book of `symbol`.
    fn lookup(&self, symbol: &str) -> (slot: Option<usize>)
        requires
            self.wf(),
        ensures
            match slot {
                Some(at) => at < self.books().len() && at == symbol_position(
                    self.books(),
                    symbol@,
                ),
                None => symbol_position(self.books(), symbol@) == self.books().len(),
            },
    {
        let slot = index_get(&self.index, symbol);
        proof {
            self.lemma_wf();
            let books = self.books();
            match slot {
                Some(at) => {
                    assert(self.books@[at as int]@.symbol == symbol@);
                    assert(books[at as int].symbol == symbol@);
                    assert forall|j: int| 0 <= j < at implies (#[trigger] books[j]).symbol
                        != symbol@ by {
                        assert(books[j].symbol != books[at as int].symbol);
                    }
                    lemma_symbol_found(books, symbol@, at as int);
                },
                None => {
                    assert forall|j: int| 0 <= j < books.len() implies (#[trigger] books[j]).symbol
                        != symbol@ by {
                        assert(slots(self.index).contains_key(self.books@[j]@.symbol));
                    }
                    lemma_symbol_found(books, symbol@, books.len() as int);
                },
            }
        }
        slot
    }

    /// Installs a book under its symbol: in place of the book that the
    /// symbol had, or as a new book. Its update count starts at zero.
    pub fn insert_book(&mut self, book: OrderBook)
        requires
            old(self).wf(),
        ensures
            final(self).wf(),
            final(self).books() == installed(old(self).books(), book@),
            final(self).update_counts() == installed_counts(
                old(self).books(),
                old(self).update_counts(),
                book@.symbol,
            ),
            final(self).total_updates() == old(self).total_updates(),
            final(self).slow_updates() == old(self).slow_updates(),
            final(self).last_latency() == old(self).last_latency(),
            final(self).last_scan() == old(self).last_scan(),
            final(self).config() == old(self).config(),
    {
        let symbol = String::from_str(book.symbol());
        // Every book is well formed; the book says so when asked.
        let _ = book.verify_integrity();
        match self.lookup(symbol.as_str()) {
            Some(at) => {
                self.books.set(at, book);
                self.update_counts.set(at, 0);
                proof {
                    lemma_symbol_position(old(self).books(), symbol@);
                    assert(old(self).books()[at as int] == old(self).books@[at as int]@);
                    old(self).lemma_book_replaced(&*self, at as int);
                }
            },
            None => {
                let at = self.books.len();
                index_insert(&mut self.index, symbol, at);
                self.books.push(book);
                self.update_counts.push(0);
                proof {
                    assert(self.books() =~= installed(old(self).books(), book@));
                    assert forall|i: int| 0 <= i < self.books@.len() implies slots(
                        self.index,
                    ).contains_key((#[trigger] self.books@[i])@.symbol) && slots(
                        self.index,
                    )[self.books@[i]@.symbol] == i by {
                        if i != at {
                            assert(self.books@[i] == old(self).books@[i]);
                            assert(old(self).books()[i] == old(self).books@[i]@);
                            assert(old(self).books()[i].symbol != book@.symbol) by {
                                lemma_symbol_position(old(self).books(), book@.symbol);
                            }
                            assert(slots(old(self).index).contains_key(old(self).books@[i]@.symbol));
                            assert(slots(old(self).index)[old(self).books@[i]@.symbol] == i);
                            assert(symbol@ == book@.symbol);
                            assert(old(self).books@[i]@.symbol != symbol@);
                            assert(slots(self.index) == slots(old(self).index).insert(symbol@, at));
                        } else {
                            assert(self.books@[i] == book);
                            assert(symbol@ == book@.symbol);
                            assert(slots(self.index).contains_key(symbol@));
                            assert(slots(self.index)[symbol@] == at);
                            assert(self.books@[i]@.symbol == symbol@);
                        }
                        assert(slots(self.index).contains_key(self.books@[i]@.symbol));
                        assert(slots(self.index)[self.books@[i]@.symbol] == i);
                    }
                    assert forall|key: Seq<char>| #[trigger]
                        slots(self.index).contains_key(key) implies slots(self.index)[key]
                        < self.books@.len() && self.books@[slots(self.index)[key] as int]@.symbol
                        == key by {
                        if key != book@.symbol {
                            let slot = slots(old(self).index)[key];
                            assert(self.books@[slot as int] == old(self).books@[slot as int]);
                        }
                    }
                    assert forall|i: int| 0 <= i < self.books@.len() implies (
                    #[trigger] self.books@[i])@.wf() by {
                        if i != at {
                            assert(self.books@[i] == old(self).books@[i]);
                        }
                    }
                }
            },
        }
    }

    /// The book of `symbol`, if there is one.
    pub fn get_book(&self, symbol: &str) -> (found: Option<&OrderBook>)
        requires
            self.wf(),
        ensures
            match found {
                Some(book) => book_of(self.books(), symbol@) == Some(book@),
                None => book_of(self.books(), symbol@) is None,
            },
    {
        match self.lookup(symbol) {
            Some(at) => Some(&self.books[at]),
            None => None,
        }
    }

    /// Installs the book of a snapshot in text form under `symbol`, in
    /// place of the book that the symbol had. This is how a stale book is
    /// brought back into step. Where the snapshot cannot be read, nothing
    /// changes and the offending text comes back inside the error.
    pub fn install_snapshot(&mut self, symbol: &str, snapshot: &DepthSnapshot, time: u64) -> (done:
        Result<(), ExchangeError>)
        requires
            old(self).wf(),
        ensures
            final(self).wf(),
            final(self).total_updates() == old(self).total_updates(),
            final(self).slow_updates() == old(self).slow_updates(),
            final(self).last_latency() == old(self).last_latency(),
            final(self).last_scan() == old(self).last_scan(),
            final(self).config() == old(self).config(),
            match first_bad_text(snapshot.bids@ + snapshot.asks@) {
                Some(text) => {
                    &&& done matches Err(error) && error.is_parse_of(text)
                    &&& final(self).books() == old(self).books()
                    &&& final(self).update_counts() == old(self).update_counts()
                },
                None => {
                    &&& done is Ok
                    &&& final(self).books() == installed(
                        old(self).books(),
                        BookState::from_snapshot(
                            symbol@,
                            snapshot.last_update_id,
                            level_values(snapshot.bids@),
                            level_values(snapshot.asks@),
                            time,
                        ),
                    )
                    &&& final(self).update_counts() == installed_counts(
                        old(self).books(),
                        old(self).update_counts(),
                        symbol@,
                    )
                },
            },
    {
        match OrderBook::from_snapshot(symbol, snapshot, time) {
            Ok(book) => {
                proof {
                    lemma_no_bad_text(snapshot.bids@, snapshot.asks@);
                }
                self.insert_book(book);
                Ok(())
            },
            Err(error) => Err(error),
        }
    }

    /// Builds a registry from the outcome of one snapshot fetch per symbol.
    /// A fetch that failed, or a snapshot that cannot be read, is skipped;
    /// the other symbols get their books all the same.
    pub fn initialize(
        snapshots: Vec<(String, Result<DepthSnapshot, ExchangeError>)>,
        time: u64,
    ) -> (manager: OrderBookManager)
        ensures
            manager.wf(),
            manager.books() == loaded_books(snapshots@, time),
            manager.total_updates() == 0,
            manager.slow_updates() == 0,
            manager.last_scan() is None,
            manager.config().is_default(),
            forall|i: int|
                0 <= i < manager.update_counts().len() ==> #[trigger] manager.update_counts()[i]
                    == 0,
    {
        let mut manager = OrderBookManager::new();
        let mut i: usize = 0;
        while i < snapshots.len()
            invariant
                i <= snapshots.len(),
                manager.wf(),
                manager.books() == loaded_books(snapshots@.take(i as int), time),
                manager.total_updates() == 0,
                manager.slow_updates() == 0,
                manager.last_scan() is None,
                manager.config().is_default(),
                forall|k: int|
                    0 <= k < manager.update_counts().len() ==> #[trigger] manager.update_counts()[k]
                        == 0,
            decreases snapshots.len() - i,
        {
            let entry = &snapshots[i];
            proof {
                assert(snapshots@.take(i + 1).drop_last() =~= snapshots@.take(i as int));
                assert(snapshots@.take(i + 1).last() == snapshots@[i as int]);
                manager.lemma_wf();
                lemma_symbol_position(manager.books(), entry.0@);
            }
            match &entry.1 {
                Ok(snapshot) => {
                    let _ = manager.install_snapshot(entry.0.as_str(), snapshot, time);
                },
                Err(_) => {},
            }
            i += 1;
        }
        proof {
            assert(snapshots@.take(i as int) =~= snapshots@);
        }
        manager
    }

    /// Routes an update in text form to the book of `symbol` and counts it.
    ///
    /// Without a book of the symbol the update is refused with
    /// `SymbolNotFound` and nothing changes. Otherwise the book takes the
    /// update as [`OrderBook::apply_update_at`] says, and what the book
    /// answers is returned; where it answers with success, the count of the
    /// symbol and the count of all updates go up by one.
    pub fn process_update_at(&mut self, symbol: &str, update: &DepthUpdate, now: u64) -> (handled:
        Result<(), ExchangeError>)
        requires
            old(self).wf(),
        ensures
            final(self).wf(),
            final(self).slow_updates() == old(self).slow_updates(),
            final(self).last_latency() == old(self).last_latency(),
            final(self).last_scan() == old(self).last_scan(),
            final(self).config() == old(self).config(),
            match book_of(old(self).books(), symbol@) {
                None => {
                    &&& handled matches Err(ExchangeError::SymbolNotFound { symbol: named })
                        && named@ == symbol@
                    &&& final(self).books() == old(self).books()
                    &&& final(self).update_counts() == old(self).update_counts()
                    &&& final(self).total_updates() == old(self).total_updates()
                },
                Some(book) => {
                    let at = symbol_position(old(self).books(), symbol@);
                    &&& book.wire_update_answer(*update, handled)
                    &&& final(self).books() == old(self).books().update(
                        at,
                        book.after_wire_update(*update, now),
                    )
                    &&& final(self).update_counts() == (if handled is Ok {
                        old(self).update_counts().update(at, bumped(old(self).update_counts()[at]))
                    } else {
                        old(self).update_counts()
                    })
                    &&& final(self).total_updates() == (if handled is Ok {
                        bumped(old(self).total_updates())
                    } else {
                        old(self).total_updates()
                    })
                },
            },
    {
        let at = match self.lookup(symbol) {
            Some(at) => at,
            None => {
                return Err(ExchangeError::SymbolNotFound { symbol: String::from_str(symbol) });
            },
        };
        proof {
            lemma_symbol_position(self.books(), symbol@);
            assert(self.books()[at as int] == self.books@[at as int]@);
        }
        let handled = self.books[at].apply_update_at(update, now);
        if handled.is_ok() {
            let count = self.update_counts[at];
            self.update_counts.set(at, if count < u64::MAX { count + 1 } else { count });
            if self.total_updates < u64::MAX {
                self.total_updates = self.total_updates + 1;
            }
        }
        proof {
            old(self).lemma_book_replaced(&*self, at as int);
        }
        handled
    }

    /// Routes a normalized depth update to the book of its symbol and
    /// counts it, as [`OrderBookManager::process_update_at`] does for an
    /// update in text form. The levels are numbers already, so the book
    /// answers with success or with the refusal of a gap.
    pub fn process_depth(&mut self, depth: &UniversalOrderBook) -> (handled: Result<
        (),
        ExchangeError,
    >)
        requires
            old(self).wf(),
        ensures
            final(self).wf(),
            final(self).slow_updates() == old(self).slow_updates(),
            final(self).last_latency() == old(self).last_latency(),
            final(self).last_scan() == old(self).last_scan(),
            final(self).config() == old(self).config(),
            old(self).depth_outcome(final(self), *depth, handled),
    {
        let at = match self.lookup(depth.symbol.as_str()) {
            Some(at) => at,
            None => {
                return Err(
                    ExchangeError::SymbolNotFound { symbol: String::from_str(depth.symbol.as_str()) },
                );
            },
        };
        proof {
            lemma_symbol_position(self.books(), depth.symbol@);
            assert(self.books()[at as int] == self.books@[at as int]@);
        }
        let handled = self.books[at].apply_changes(
            depth.first_sequence,
            depth.sequence,
            &depth.bids,
            &depth.asks,
            depth.timestamp_exchange,
        );
        if handled.is_ok() {
            let count = self.update_counts[at];
            self.update_counts.set(at, if count < u64::MAX { count + 1 } else { count });
            if self.total_updates < u64::MAX {
                self.total_updates = self.total_updates + 1;
            }
        }
        proof {
            old(self).lemma_book_replaced(&*self, at as int);
        }
        handled
    }

    /// Routes a market-data event: a depth update goes to the book of its
    /// symbol, as [`OrderBookManager::process_depth`] says, and what the
    /// book answers comes back; trades and quotes concern no book, change
    /// nothing and answer nothing.
    pub fn process_event(&mut self, event: &UniversalMarketData) -> (routed: Option<
        Result<(), ExchangeError>,
    >)
        requires
            old(self).wf(),
        ensures
            final(self).wf(),
            final(self).slow_updates() == old(self).slow_updates(),
            final(self).last_latency() == old(self).last_latency(),
            final(self).last_scan() == old(self).last_scan(),
            final(self).config() == old(self).config(),
            match *event {
                UniversalMarketData::OrderBook(depth) => routed matches Some(handled)
                    && old(self).depth_outcome(final(self), depth, handled),
                _ => {
                    &&& routed is None
                    &&& final(self).books() == old(self).books()
                    &&& final(self).update_counts() == old(self).update_counts()
                    &&& final(self).total_updates() == old(self).total_updates()
                },
            },
    {
        match event {
            UniversalMarketData::OrderBook(depth) => Some(self.process_depth(depth)),
            _ => None,
        }
    }

    /// Records how long an update took, in microseconds, and counts it as
    /// slow where it took longer than [`SLOW_UPDATE_MICROS`]. A slow update
    /// is no failure.
    pub fn record_latency(&mut self, micros: u64)
        requires
            old(self).wf(),
        ensures
            final(self).wf(),
            final(self).books() == old(self).books(),
            final(self).update_counts() == old(self).update_counts(),
            final(self).total_updates() == old(self).total_updates(),
            final(self).last_scan() == old(self).last_scan(),
            final(self).config() == old(self).config(),
            final(self).last_latency() == micros,
            final(self).slow_updates() == (if micros > SLOW_UPDATE_MICROS {
                bumped(old(self).slow_updates())
            } else {
                old(self).slow_updates()
            }),
    {
        self.last_latency_micros = micros;
        if micros > SLOW_UPDATE_MICROS && self.slow_updates < u64::MAX {
            self.slow_updates = self.slow_updates + 1;
        }
    }

    /// Routes an update as [`OrderBookManager::process_update_at`] does,
    /// with the wall clock for an update without event time, and records
    /// how long an update took that a book accepted. What the clocks say is
    /// not known beforehand: the contract holds for whatever they say.
    pub fn process_update(&mut self, symbol: String, update: DepthUpdate) -> (handled: Result<
        (),
        ExchangeError,
    >)
        requires
            old(self).wf(),
        ensures
            final(self).wf(),
            final(self).last_scan() == old(self).last_scan(),
            final(self).config() == old(self).config(),
            handled is Err ==> final(self).slow_updates() == old(self).slow_updates()
                && final(self).last_latency() == old(self).last_latency(),
            handled is Ok ==> final(self).slow_updates() == (if final(self).last_latency()
                > SLOW_UPDATE_MICROS {
                bumped(old(self).slow_updates())
            } else {
                old(self).slow_updates()
            }),
            match book_of(old(self).books(), symbol@) {
                None => {
                    &&& handled matches Err(ExchangeError::SymbolNotFound { symbol: named })
                        && named@ == symbol@
                    &&& final(self).books() == old(self).books()
                    &&& final(self).update_counts() == old(self).update_counts()
                    &&& final(self).total_updates() == old(self).total_updates()
                },
                Some(book) => {
                    let at = symbol_position(old(self).books(), symbol@);
                    &&& book.wire_update_answer(update, handled)
                    &&& exists|now: u64|
                        final(self).books() == old(self).books().update(
                            at,
                            book.after_wire_update(update, now),
                        )
                    &&& final(self).update_counts() == (if handled is Ok {
                        old(self).update_counts().update(at, bumped(old(self).update_counts()[at]))
                    } else {
                        old(self).update_counts()
                    })
                    &&& final(self).total_updates() == (if handled is Ok {
                        bumped(old(self).total_updates())
                    } else {
                        old(self).total_updates()
                    })
                },
            },
    {
        let started = self.clock.elapsed_micros();
        let now = unix_millis();
        let handled = self.process_update_at(symbol.as_str(), &update, now);
        if handled.is_ok() {
            let finished = self.clock.elapsed_micros();
            let taken = if finished >= started {
                finished - started
            } else {
                0
            };
            self.record_latency(taken);
        }
        handled
    }

    fn collect_direct(&self, now: u64, found: &mut Vec<ArbitrageOpportunity>)
        requires
            self.wf(),
        ensures
            opportunities(final(found)@) == opportunities(old(found)@) + direct_over(
                self.books(),
                self.config().direct_pairs@,
                self.config().threshold_bps,
                self.config().direct_size,
                now,
            ),
    {
        let ghost before = opportunities(found@);
        let ghost pairs = self.config.direct_pairs@;
        let mut i: usize = 0;
        assert(opportunities(found@) =~= before + direct_over(
            self.books(),
            pairs.take(0),
            self.config.threshold_bps,
            self.config.direct_size,
            now,
        ));
        while i < self.config.direct_pairs.len()
            invariant
                self.wf(),
                pairs == self.config.direct_pairs@,
                i <= pairs.len(),
                opportunities(found@) == before + direct_over(
                    self.books(),
                    pairs.take(i as int),
                    self.config.threshold_bps,
                    self.config.direct_size,
                    now,
                ),
            decreases pairs.len() - i,
        {
            let pair = &self.config.direct_pairs[i];
            proof {
                assert(pairs.take(i + 1).drop_last() =~= pairs.take(i as int));
                assert(pairs.take(i + 1).last() == pairs[i as int]);
            }
            let ghost so_far = opportunities(found@);
            match (self.get_book(pair.0.as_str()), self.get_book(pair.1.as_str())) {
                (Some(first), Some(second)) => {
                    find_direct_between(
                        first,
                        second,
                        self.config.threshold_bps,
                        self.config.direct_size,
                        now,
                        found,
                    );
                },
                _ => {},
            }
            proof {
                let step = direct_over(
                    self.books(),
                    pairs.take(i + 1),
                    self.config.threshold_bps,
                    self.config.direct_size,
                    now,
                );
                assert(opportunities(found@) =~= before + step);
            }
            i += 1;
        }
        proof {
            assert(pairs.take(i as int) =~= pairs);
        }
    }

    fn collect_triangular(&self, now: u64, found: &mut Vec<ArbitrageOpportunity>)
        requires
            self.wf(),
        ensures
            opportunities(final(found)@) == opportunities(old(found)@) + triangular_over(
                self.books(),
                self.config().triangles@,
                self.config().threshold_bps,
                self.config().stake,
                now,
            ),
    {
        let ghost before = opportunities(found@);
        let ghost triangles = self.config.triangles@;
        let mut i: usize = 0;
        assert(opportunities(found@) =~= before + triangular_over(
            self.books(),
            triangles.take(0),
            self.config.threshold_bps,
            self.config.stake,
            now,
        ));
        while i < self.config.triangles.len()
            invariant
                self.wf(),
                triangles == self.config.triangles@,
                i <= triangles.len(),
                opportunities(found@) == before + triangular_over(
                    self.books(),
                    triangles.take(i as int),
                    self.config.threshold_bps,
                    self.config.stake,
                    now,
                ),
            decreases triangles.len() - i,
        {
            let triangle = &self.config.triangles[i];
            proof {
                assert(triangles.take(i + 1).drop_last() =~= triangles.take(i as int));
                assert(triangles.take(i + 1).last() == triangles[i as int]);
            }
            match (
                self.get_book(triangle.base_symbol.as_str()),
                self.get_book(triangle.alt_symbol.as_str()),
                self.get_book(triangle.cross_symbol.as_str()),
            ) {
                (Some(base), Some(alt), Some(cross)) => {
                    find_triangular_among(
                        base,
                        alt,
                        cross,
                        triangle,
                        self.config.threshold_bps,
                        self.config.stake,
                        now,
                        found,
                    );
                },
                _ => {},
            }
            proof {
                let step = triangular_over(
                    self.books(),
                    triangles.take(i + 1),
                    self.config.threshold_bps,
                    self.config.stake,
                    now,
                );
                assert(opportunities(found@) =~= before + step);
            }
            i += 1;
        }
        proof {
            assert(triangles.take(i as int) =~= triangles);
        }
    }

    /// The opportunities of the configured pairs, stamped with `now`: for
    /// each pair whose books both exist and show a best bid and a best ask,
    /// buying in one and selling in the other, either way, where the gain
    /// is above the threshold.
    pub fn find_direct_arbitrage_at(&self, now: u64) -> (found: Vec<ArbitrageOpportunity>)
        requires
            self.wf(),
        ensures
            opportunities(found@) == direct_over(
                self.books(),
                self.config().direct_pairs@,
                self.config().threshold_bps,
                self.config().direct_size,
                now,
            ),
    {
        let mut found: Vec<ArbitrageOpportunity> = Vec::new();
        proof {
            assert(opportunities(found@) =~= Seq::<Opportunity>::empty());
        }
        self.collect_direct(now, &mut found);
        proof {
            let all = direct_over(
                self.books(),
                self.config().direct_pairs@,
                self.config().threshold_bps,
                self.config().direct_size,
                now,
            );
            assert(Seq::<Opportunity>::empty() + all =~= all);
        }
        found
    }

    /// The opportunities of the configured pairs, stamped with the time on
    /// the registry's clock.
    pub fn find_direct_arbitrage(&self) -> (found: Vec<ArbitrageOpportunity>)
        requires
            self.wf(),
        ensures
            exists|now: u64|
                opportunities(found@) == direct_over(
                    self.books(),
                    self.config().direct_pairs@,
                    self.config().threshold_bps,
                    self.config().direct_size,
                    now,
                ),
    {
        let now = self.clock.elapsed_millis();
        self.find_direct_arbitrage_at(now)
    }

    /// The opportunities of the configured triangles, stamped with `now`:
    /// for each triangle whose three books exist and show a best bid and a
    /// best ask, the round trip of the stake either way round, where the
    /// gain is above the threshold.
    pub fn find_triangular_arbitrage_at(&self, now: u64) -> (found: Vec<ArbitrageOpportunity>)
        requires
            self.wf(),
        ensures
            opportunities(found@) == triangular_over(
                self.books(),
                self.config().triangles@,
                self.config().threshold_bps,
                self.config().stake,
                now,
            ),
    {
        let mut found: Vec<ArbitrageOpportunity> = Vec::new();
        proof {
            assert(opportunities(found@) =~= Seq::<Opportunity>::empty());
        }
        self.collect_triangular(now, &mut found);
        proof {
            let all = triangular_over(
                self.books(),
                self.config().triangles@,
                self.config().threshold_bps,
                self.config().stake,
                now,
            );
            assert(Seq::<Opportunity>::empty() + all =~= all);
        }
        found
    }

    /// The opportunities of the configured triangles, stamped with the time
    /// on the registry's clock.
    pub fn find_triangular_arbitrage(&self) -> (found: Vec<ArbitrageOpportunity>)
        requires
            self.wf(),
        ensures
            exists|now: u64|
                opportunities(found@) == triangular_over(
                    self.books(),
                    self.config().triangles@,
                    self.config().threshold_bps,
                    self.config().stake,
                    now,
                ),
    {
        let now = self.clock.elapsed_millis();
        self.find_triangular_arbitrage_at(now)
    }

    /// All opportunities at the time `now`, in milliseconds: direct ones,
    /// then triangular ones, sorted by falling gain.
    ///
    /// The registry limits its own scans. A call that comes sooner after
    /// the last scan than the configuration allows finds nothing and leaves
    /// the time of the last scan alone. Any other call, the first scan of a
    /// registry among them, scans and moves that time to `now`.
    pub fn find_all_arbitrage_at(&mut self, now: u64) -> (found: Vec<ArbitrageOpportunity>)
        requires
            old(self).wf(),
        ensures
            final(self).wf(),
            final(self).books() == old(self).books(),
            final(self).update_counts() == old(self).update_counts(),
            final(self).total_updates() == old(self).total_updates(),
            final(self).slow_updates() == old(self).slow_updates(),
            final(self).last_latency() == old(self).last_latency(),
            final(self).config() == old(self).config(),
            scanned(
                old(self).books(),
                old(self).config(),
                old(self).last_scan(),
                now,
                opportunities(found@),
                final(self).last_scan(),
            ),
    {
        let mut found: Vec<ArbitrageOpportunity> = Vec::new();
        let too_soon = match self.last_scan_ms {
            Some(before) => {
                let elapsed = if now >= before {
                    now - before
                } else {
                    0
                };
                elapsed < self.config.min_scan_interval_ms
            },
            None => false,
        };
        if too_soon {
            proof {
                assert(opportunities(found@) =~= Seq::<Opportunity>::empty());
            }
            return found;
        }
        self.last_scan_ms = Some(now);
        proof {
            assert(opportunities(found@) =~= Seq::<Opportunity>::empty());
        }
        self.collect_direct(now, &mut found);
        self.collect_triangular(now, &mut found);
        proof {
            let direct = direct_over(
                self.books(),
                self.config().direct_pairs@,
                self.config().threshold_bps,
                self.config().direct_size,
                now,
            );
            assert(Seq::<Opportunity>::empty() + direct =~= direct);
        }
        sort_by_profit(found)
    }

    /// All opportunities at the time on the registry's clock, which counts
    /// from the making of the registry. The contract holds for whatever the
    /// clock says; the first scan of a registry runs whatever it says.
    pub fn find_all_arbitrage(&mut self) -> (found: Vec<ArbitrageOpportunity>)
        requires
            old(self).wf(),
        ensures
            final(self).wf(),
            final(self).books() == old(self).books(),
            final(self).update_counts() == old(self).update_counts(),
            final(self).total_updates() == old(self).total_updates(),
            final(self).slow_updates() == old(self).slow_updates(),
            final(self).last_latency() == old(self).last_latency(),
            final(self).config() == old(self).config(),
            exists|now: u64| #[trigger]
                scanned(
                    old(self).books(),
                    old(self).config(),
                    old(self).last_scan(),
                    now,
                    opportunities(found@),
                    final(self).last_scan(),
                ),
            old(self).last_scan() is None ==> final(self).last_scan() is Some,
    {
        let now = self.clock.elapsed_millis();
        self.find_all_arbitrage_at(now)
    }

    /// Figures of the registry: the count of all updates and, book by book
    /// in the order of their coming, symbol, levels per side and updates.
    pub fn get_stats(&self) -> (stats: ManagerStats)
        requires
            self.wf(),
        ensures
            stats.total_updates == self.total_updates(),
            stats.books@.len() == self.books().len(),
            forall|i: int|
                0 <= i < self.books().len() ==> {
                    &&& (#[trigger] stats.books@[i]).symbol@ == self.books()[i].symbol
                    &&& stats.books@[i].bids == self.books()[i].bids.len()
                    &&& stats.books@[i].asks == self.books()[i].asks.len()
                    &&& stats.books@[i].updates == self.update_counts()[i]
                },
    {
        let mut books: Vec<BookStats> = Vec::new();
        let mut i: usize = 0;
        while i < self.books.len()
            invariant
                self.wf(),
                i <= self.books@.len(),
                books@.len() == i,
                forall|k: int|
                    0 <= k < i ==> {
                        &&& (#[trigger] books@[k]).symbol@ == self.books()[k].symbol
                        &&& books@[k].bids == self.books()[k].bids.len()
                        &&& books@[k].asks == self.books()[k].asks.len()
                        &&& books@[k].updates == self.update_counts()[k]
                    },
            decreases self.books.len() - i,
        {
            let book = &self.books[i];
            proof {
                assert(self.books()[i as int] == self.books@[i as int]@);
            }
            books.push(
                BookStats {
                    symbol: String::from_str(book.symbol()),
                    bids: book.bid_count(),
                    asks: book.ask_count(),
                    updates: self.update_counts[i],
                },
            );
            i += 1;
        }
        ManagerStats { total_updates: self.total_updates, books }
    }

    pub fn book_count(&self) -> (count: usize)
        ensures
            count == self.books().len(),
    {
        self.books.len()
    }

    /// Updates applied to the book of `symbol` since it was installed.
    pub fn updates_of(&self, symbol: &str) -> (count: Option<u64>)
        requires
            self.wf(),
        ensures
            count == (if symbol_position(self.books(), symbol@) < self.books().len() {
                Some(self.update_counts()[symbol_position(self.books(), symbol@)])
            } else {
                None
            }),
    {
        match self.lookup(symbol) {
            Some(at) => Some(self.update_counts[at]),
            None => None,
        }
    }

    pub fn update_total(&self) -> (count: u64)
        ensures
            count == self.total_updates(),
    {
        self.total_updates
    }

    /// Time of the last arbitrage scan; none until a scan has run.
    pub fn last_scan_at(&self) -> (time: Option<u64>)
        ensures
            time == self.last_scan(),
    {
        self.last_scan_ms
    }

    pub fn slow_update_count(&self) -> (count: u64)
        ensures
            count == self.slow_updates(),
    {
        self.slow_updates
    }

    pub fn arbitrage_config(&self) -> (config: &ArbitrageConfig)
        ensures
            *config == self.config(),
    {
        &self.config
    }
}

/// Every opportunity of a scan: those of the pairs, then those of the
/// triangles, sorted by falling gain.
pub open spec fn all_over(books: Seq<BookState>, config: ArbitrageConfig, now: u64) -> Seq<
    Opportunity,
> {
    ranked(
        direct_over(books, config.direct_pairs@, config.threshold_bps, config.direct_size, now)
            + triangular_over(books, config.triangles@, config.threshold_bps, config.stake, now),
    )
}

/// What a scan at the time `now` comes to, given the time of the scan
/// before, if there was one: nothing, and no change, where it comes too
/// soon after that scan; every opportunity, and `now` as the time of the
/// last scan, otherwise.
pub open spec fn scanned(
    books: Seq<BookState>,
    config: ArbitrageConfig,
    last_before: Option<u64>,
    now: u64,
    found: Seq<Opportunity>,
    last_after: Option<u64>,
) -> bool {
    if too_soon(last_before, now, config.min_scan_interval_ms) {
        found.len() == 0 && last_after == last_before
    } else {
        last_after == Some(now) && found == all_over(books, config, now)
    }
}

/// With one pair configured, the direct opportunities are those between
/// the two books of the pair, and none while one of the books is missing.
pub proof fn law_scan_of_one_pair(
    books: Seq<BookState>,
    pair: (String, String),
    threshold_bps: u64,
    size: u64,
    now: u64,
)
    ensures
        direct_over(books, seq![pair], threshold_bps, size, now) == (match (
            book_of(books, pair.0@),
            book_of(books, pair.1@),
        ) {
            (Some(first), Some(second)) => direct_between(first, second, threshold_bps, size, now),
            _ => seq![],
        }),
{
    let pairs = seq![pair];
    assert(pairs.drop_last() =~= Seq::<(String, String)>::empty());
    assert(pairs.last() == pair);
    let found = match (book_of(books, pair.0@), book_of(books, pair.1@)) {
        (Some(first), Some(second)) => direct_between(first, second, threshold_bps, size, now),
        _ => seq![],
    };
    assert(direct_over(books, pairs.drop_last(), threshold_bps, size, now)
        =~= Seq::<Opportunity>::empty());
    assert(Seq::<Opportunity>::empty() + found =~= found);
}

/// With one triangle configured, the triangular opportunities are those
/// among the three books of the triangle, and none while one of the books
/// is missing.
pub proof fn law_scan_of_one_triangle(
    books: Seq<BookState>,
    triangle: Triangle,
    threshold_bps: u64,
    stake: u64,
    now: u64,
)
    ensures
        triangular_over(books, seq![triangle], threshold_bps, stake, now) == (match (
            book_of(books, triangle.base_symbol@),
            book_of(books, triangle.alt_symbol@),
            book_of(books, triangle.cross_symbol@),
        ) {
            (Some(base), Some(alt), Some(cross)) => triangular_among(
                base,
                alt,
                cross,
                triangle.forward_label@,
                triangle.reverse_label@,
                threshold_bps,
                stake,
                now,
            ),
            _ => seq![],
        }),
{
    let triangles = seq![triangle];
    assert(triangles.drop_last() =~= Seq::<Triangle>::empty());
    assert(triangles.last() == triangle);
    let found = match (
        book_of(books, triangle.base_symbol@),
        book_of(books, triangle.alt_symbol@),
        book_of(books, triangle.cross_symbol@),
    ) {
        (Some(base), Some(alt), Some(cross)) => triangular_among(
            base,
            alt,
            cross,
            triangle.forward_label@,
            triangle.reverse_label@,
            threshold_bps,
            stake,
            now,
        ),
        _ => seq![],
    };
    assert(triangular_over(books, triangles.drop_last(), threshold_bps, stake, now)
        =~= Seq::<Opportunity>::empty());
    assert(Seq::<Opportunity>::empty() + found =~= found);
}

/// The first scan of a registry is never held back: whatever the clock
/// says, it finds every opportunity that the books hold.
pub proof fn law_first_scan_runs(
    books: Seq<BookState>,
    config: ArbitrageConfig,
    now: u64,
    found: Seq<Opportunity>,
    last_after: Option<u64>,
)
    requires
        scanned(books, config, None, now, found, last_after),
    ensures
        found == all_over(books, config, now),
        last_after == Some(now),
{
}

/// Two scans are at least the configured interval apart: a call that comes
/// sooner after a scan finds nothing and leaves the time of that scan
/// alone, and a call that comes no sooner scans.
pub proof fn law_scans_keep_their_distance(
    books: Seq<BookState>,
    config: ArbitrageConfig,
    before: u64,
    now: u64,
    found: Seq<Opportunity>,
    last_after: Option<u64>,
)
    requires
        scanned(books, config, Some(before), now, found, last_after),
    ensures
        since_scan(before, now) < config.min_scan_interval_ms ==> found.len() == 0 && last_after
            == Some(before),
        since_scan(before, now) >= config.min_scan_interval_ms ==> found == all_over(
            books,
            config,
            now,
        ) && last_after == Some(now),
{
}

proof fn lemma_no_bad_text(front: Seq<[String; 2]>, back: Seq<[String; 2]>)
    ensures
        first_bad_text(front + back) is None <==> first_bad_text(front) is None && first_bad_text(
            back,
        ) is None,
    decreases front.len(),
{
    if front.len() == 0 {
        assert(front + back =~= back);
    } else {
        assert((front + back)[0] == front[0]);
        assert((front + back).drop_first() =~= front.drop_first() + back);
        lemma_no_bad_text(front.drop_first(), back);
    }
}

} // verus!
