//! Arbitrage between order books: the arithmetic of a round trip and the
//! opportunities that a pair or a triangle of books offers.
//!
//! All figures are fixed-point with eight fractional digits. A round trip
//! whose figures outgrow 128 bits, or that divides by a price of zero, has
//! no gain and offers nothing.

use vstd::prelude::*;
use vstd::string::*;
use crate::orderbook::{BookState, OrderBook};
use crate::types::Side;

verus! {

/// Fixed-point product of an amount and a price; none where the product of
/// the raw figures is beyond `u128`.
pub open spec fn fp_mul(amount: u128, price: u64) -> Option<u128> {
    if amount * price > u128::MAX {
        None
    } else {
        Some(((amount * price) / 100_000_000) as u128)
    }
}

/// Fixed-point quotient of an amount and a price; none where the price is
/// zero or the scaled amount is beyond `u128`.
pub open spec fn fp_div(amount: u128, price: u64) -> Option<u128> {
    if price == 0 || amount * 100_000_000 > u128::MAX {
        None
    } else {
        Some(((amount * 100_000_000) / (price as int)) as u128)
    }
}

/// Gain of turning `start` into `end`, in basis points of `start`: zero
/// where nothing is gained, none where `start` is zero or the figure is
/// beyond `u128`.
pub open spec fn gain_bps(start: u128, end: u128) -> Option<u128> {
    if start == 0 {
        None
    } else if end <= start {
        Some(0)
    } else if (end - start) * 1_000_000_000_000 > u128::MAX {
        None
    } else {
        Some((((end - start) * 1_000_000_000_000) / (start as int)) as u128)
    }
}

/// Gain of buying at `ask` in one book and selling at `bid` in another.
pub open spec fn direct_gain(bid: u64, ask: u64) -> Option<u128> {
    gain_bps(ask as u128, bid as u128)
}

/// What is left of `stake` after it buys the base asset, the base asset
/// buys the alternative asset, and the alternative asset is sold for the
/// quote asset again.
pub open spec fn forward_proceeds(
    stake: u64,
    base_ask: u64,
    cross_ask: u64,
    alt_bid: u64,
) -> Option<u128> {
    match fp_div(stake as u128, base_ask) {
        Some(base) => match fp_div(base, cross_ask) {
            Some(alt) => fp_mul(alt, alt_bid),
            None => None,
        },
        None => None,
    }
}

/// What is left of `stake` after it buys the alternative asset, the
/// alternative asset is sold for the base asset, and the base asset is sold
/// for the quote asset again.
pub open spec fn reverse_proceeds(
    stake: u64,
    alt_ask: u64,
    cross_bid: u64,
    base_bid: u64,
) -> Option<u128> {
    match fp_div(stake as u128, alt_ask) {
        Some(alt) => match fp_mul(alt, cross_bid) {
            Some(base) => fp_mul(base, base_bid),
            None => None,
        },
        None => None,
    }
}

/// Gain of a round trip that turns `stake` into `proceeds`.
pub open spec fn round_trip_gain(stake: u64, proceeds: Option<u128>) -> Option<u128> {
    match proceeds {
        Some(end) => gain_bps(stake as u128, end),
        None => None,
    }
}

/// A gain is worth reporting when it exists and is above the threshold.
pub open spec fn pays(gain: Option<u128>, threshold_bps: u64) -> bool {
    gain matches Some(bps) && bps > threshold_bps
}

pub fn multiply(amount: u128, price: u64) -> (product: Option<u128>)
    ensures
        product == fp_mul(amount, price),
{
    match amount.checked_mul(price as u128) {
        Some(raw) => Some(raw / 100_000_000),
        None => None,
    }
}

pub fn divide(amount: u128, price: u64) -> (quotient: Option<u128>)
    ensures
        quotient == fp_div(amount, price),
{
    if price == 0 {
        return None;
    }
    match amount.checked_mul(100_000_000) {
        Some(raw) => Some(raw / (price as u128)),
        None => None,
    }
}

/// Gain of turning `start` into `end`, in basis points of `start`.
pub fn gain(start: u128, end: u128) -> (bps: Option<u128>)
    ensures
        bps == gain_bps(start, end),
{
    if start == 0 {
        return None;
    }
    if end <= start {
        return Some(0);
    }
    match (end - start).checked_mul(1_000_000_000_000) {
        Some(raw) => Some(raw / start),
        None => None,
    }
}

/// A chance to gain by trading between books.
#[derive(Debug)]
pub struct ArbitrageOpportunity {
    pub symbol_pair: (String, String),
    /// Gain in basis points.
    pub profit_bps: u128,
    pub side: Side,
    pub size: u64,
    pub exchange_buy: String,
    pub exchange_sell: String,
    /// When the opportunity was seen, on the clock of the caller.
    pub detected_at: u64,
}

/// What an opportunity says.
pub struct Opportunity {
    pub symbol_pair: (Seq<char>, Seq<char>),
    pub profit_bps: u128,
    pub side: Side,
    pub size: u64,
    pub exchange_buy: Seq<char>,
    pub exchange_sell: Seq<char>,
    pub detected_at: u64,
}

impl View for ArbitrageOpportunity {
    type V = Opportunity;

    open spec fn view(&self) -> Opportunity {
        Opportunity {
            symbol_pair: (self.symbol_pair.0@, self.symbol_pair.1@),
            profit_bps: self.profit_bps,
            side: self.side,
            size: self.size,
            exchange_buy: self.exchange_buy@,
            exchange_sell: self.exchange_sell@,
            detected_at: self.detected_at,
        }
    }
}

/// What a list of opportunities says.
pub open spec fn opportunities(list: Seq<ArbitrageOpportunity>) -> Seq<Opportunity> {
    list.map_values(|o: ArbitrageOpportunity| o@)
}

/// The opportunity of buying in the book of `buy` and selling in the book
/// of `sell`.
pub open spec fn direct_opportunity(
    buy: Seq<char>,
    sell: Seq<char>,
    profit_bps: u128,
    size: u64,
    now: u64,
) -> Opportunity {
    Opportunity {
        symbol_pair: (buy, sell),
        profit_bps,
        side: Side::Buy,
        size,
        exchange_buy: buy,
        exchange_sell: sell,
        detected_at: now,
    }
}

/// The opportunities between two books: buying in the first and selling in
/// the second, then the other way round, each where both best prices exist
/// and the gain is above the threshold.
pub open spec fn direct_between(
    first: BookState,
    second: BookState,
    threshold_bps: u64,
    size: u64,
    now: u64,
) -> Seq<Opportunity> {
    if first.best_bid() is None || first.best_ask() is None || second.best_bid() is None
        || second.best_ask() is None {
        seq![]
    } else {
        let forth = direct_gain(second.best_bid().unwrap().0, first.best_ask().unwrap().0);
        let back = direct_gain(first.best_bid().unwrap().0, second.best_ask().unwrap().0);
        (if pays(forth, threshold_bps) {
            seq![direct_opportunity(first.symbol, second.symbol, forth.unwrap(), size, now)]
        } else {
            seq![]
        }) + (if pays(back, threshold_bps) {
            seq![direct_opportunity(second.symbol, first.symbol, back.unwrap(), size, now)]
        } else {
            seq![]
        })
    }
}

fn direct_one(buy: &OrderBook, sell: &OrderBook, profit_bps: u128, size: u64, now: u64) -> (found:
    ArbitrageOpportunity)
    ensures
        found@ == direct_opportunity(buy@.symbol, sell@.symbol, profit_bps, size, now),
{
    ArbitrageOpportunity {
        symbol_pair: (String::from_str(buy.symbol()), String::from_str(sell.symbol())),
        profit_bps,
        side: Side::Buy,
        size,
        exchange_buy: String::from_str(buy.symbol()),
        exchange_sell: String::from_str(sell.symbol()),
        detected_at: now,
    }
}

/// Looks for opportunities between two books and appends them to `found`.
pub fn find_direct_between(
    first: &OrderBook,
    second: &OrderBook,
    threshold_bps: u64,
    size: u64,
    now: u64,
    found: &mut Vec<ArbitrageOpportunity>,
)
    ensures
        opportunities(final(found)@) == opportunities(old(found)@) + direct_between(
            first@,
            second@,
            threshold_bps,
            size,
            now,
        ),
{
    let ghost before = opportunities(found@);
    let bid1 = first.best_bid();
    let ask1 = first.best_ask();
    let bid2 = second.best_bid();
    let ask2 = second.best_ask();
    match (bid1, ask1, bid2, ask2) {
        (Some((bid1, _)), Some((ask1, _)), Some((bid2, _)), Some((ask2, _))) => {
            match gain(ask1 as u128, bid2 as u128) {
                Some(bps) => {
                    if bps > threshold_bps as u128 {
                        found.push(direct_one(first, second, bps, size, now));
                    }
                },
                None => {},
            }
            let ghost middle = opportunities(found@);
            match gain(ask2 as u128, bid1 as u128) {
                Some(bps) => {
                    if bps > threshold_bps as u128 {
                        found.push(direct_one(second, first, bps, size, now));
                    }
                },
                None => {},
            }
            proof {
                assert(opportunities(found@) =~= before + direct_between(
                    first@,
                    second@,
                    threshold_bps,
                    size,
                    now,
                ));
            }
        },
        _ => {
            proof {
                assert(opportunities(found@) =~= before + direct_between(
                    first@,
                    second@,
                    threshold_bps,
                    size,
                    now,
                ));
            }
        },
    }
}

/// Three books that close a cycle of three assets: the base asset priced in
/// the quote asset, the alternative asset priced in the quote asset, and the
/// alternative asset priced in the base asset. The labels name the two ways
/// round.
#[derive(Debug)]
pub struct Triangle {
    pub base_symbol: String,
    pub alt_symbol: String,
    pub cross_symbol: String,
    pub forward_label: String,
    pub reverse_label: String,
}

/// The opportunity of one way round a triangle.
pub open spec fn triangular_opportunity(
    label: Seq<char>,
    path: Seq<char>,
    profit_bps: u128,
    stake: u64,
    now: u64,
) -> Opportunity {
    Opportunity {
        symbol_pair: (label, "Triangular"@),
        profit_bps,
        side: Side::Buy,
        size: stake,
        exchange_buy: path,
        exchange_sell: "Triangular"@,
        detected_at: now,
    }
}

/// The opportunities round a triangle of books: quote to base to
/// alternative to quote, then quote to alternative to base to quote, each
/// where all six best prices exist and the gain on `stake` is above the
/// threshold.
pub open spec fn triangular_among(
    base: BookState,
    alt: BookState,
    cross: BookState,
    forward_label: Seq<char>,
    reverse_label: Seq<char>,
    threshold_bps: u64,
    stake: u64,
    now: u64,
) -> Seq<Opportunity> {
    if base.best_bid() is None || base.best_ask() is None || alt.best_bid() is None
        || alt.best_ask() is None || cross.best_bid() is None || cross.best_ask() is None {
        seq![]
    } else {
        let forth = round_trip_gain(
            stake,
            forward_proceeds(
                stake,
                base.best_ask().unwrap().0,
                cross.best_ask().unwrap().0,
                alt.best_bid().unwrap().0,
            ),
        );
        let back = round_trip_gain(
            stake,
            reverse_proceeds(
                stake,
                alt.best_ask().unwrap().0,
                cross.best_bid().unwrap().0,
                base.best_bid().unwrap().0,
            ),
        );
        (if pays(forth, threshold_bps) {
            seq![triangular_opportunity(forward_label, "Path1"@, forth.unwrap(), stake, now)]
        } else {
            seq![]
        }) + (if pays(back, threshold_bps) {
            seq![triangular_opportunity(reverse_label, "Path2"@, back.unwrap(), stake, now)]
        } else {
            seq![]
        })
    }
}

fn triangular_one(label: &str, path: &str, profit_bps: u128, stake: u64, now: u64) -> (found:
    ArbitrageOpportunity)
    ensures
        found@ == triangular_opportunity(label@, path@, profit_bps, stake, now),
{
    ArbitrageOpportunity {
        symbol_pair: (String::from_str(label), String::from_str("Triangular")),
        profit_bps,
        side: Side::Buy,
        size: stake,
        exchange_buy: String::from_str(path),
        exchange_sell: String::from_str("Triangular"),
        detected_at: now,
    }
}

/// What `stake` becomes on the way quote, base, alternative, quote.
pub fn forward_round_trip(stake: u64, base_ask: u64, cross_ask: u64, alt_bid: u64) -> (proceeds:
    Option<u128>)
    ensures
        proceeds == forward_proceeds(stake, base_ask, cross_ask, alt_bid),
{
    match divide(stake as u128, base_ask) {
        Some(base) => match divide(base, cross_ask) {
            Some(alt) => multiply(alt, alt_bid),
            None => None,
        },
        None => None,
    }
}

/// What `stake` becomes on the way quote, alternative, base, quote.
pub fn reverse_round_trip(stake: u64, alt_ask: u64, cross_bid: u64, base_bid: u64) -> (proceeds:
    Option<u128>)
    ensures
        proceeds == reverse_proceeds(stake, alt_ask, cross_bid, base_bid),
{
    match divide(stake as u128, alt_ask) {
        Some(alt) => match multiply(alt, cross_bid) {
            Some(base) => multiply(base, base_bid),
            None => None,
        },
        None => None,
    }
}

fn round_trip(stake: u64, proceeds: Option<u128>) -> (bps: Option<u128>)
    ensures
        bps == round_trip_gain(stake, proceeds),
{
    match proceeds {
        Some(end) => gain(stake as u128, end),
        None => None,
    }
}

/// Looks for opportunities round a triangle of books and appends them to
/// `found`.
pub fn find_triangular_among(
    base: &OrderBook,
    alt: &OrderBook,
    cross: &OrderBook,
    triangle: &Triangle,
    threshold_bps: u64,
    stake: u64,
    now: u64,
    found: &mut Vec<ArbitrageOpportunity>,
)
    ensures
        opportunities(final(found)@) == opportunities(old(found)@) + triangular_among(
            base@,
            alt@,
            cross@,
            triangle.forward_label@,
            triangle.reverse_label@,
            threshold_bps,
            stake,
            now,
        ),
{
    let ghost before = opportunities(found@);
    let ghost expected = triangular_among(
        base@,
        alt@,
        cross@,
        triangle.forward_label@,
        triangle.reverse_label@,
        threshold_bps,
        stake,
        now,
    );
    match (
        base.best_bid(),
        base.best_ask(),
        alt.best_bid(),
        alt.best_ask(),
        cross.best_bid(),
        cross.best_ask(),
    ) {
        (
            Some((base_bid, _)),
            Some((base_ask, _)),
            Some((alt_bid, _)),
            Some((alt_ask, _)),
            Some((cross_bid, _)),
            Some((cross_ask, _)),
        ) => {
            let forth = round_trip(stake, forward_round_trip(stake, base_ask, cross_ask, alt_bid));
            match forth {
                Some(bps) => {
                    if bps > threshold_bps as u128 {
                        found.push(
                            triangular_one(triangle.forward_label.as_str(), "Path1", bps, stake, now),
                        );
                    }
                },
                None => {},
            }
            let back = round_trip(stake, reverse_round_trip(stake, alt_ask, cross_bid, base_bid));
            match back {
                Some(bps) => {
                    if bps > threshold_bps as u128 {
                        found.push(
                            triangular_one(triangle.reverse_label.as_str(), "Path2", bps, stake, now),
                        );
                    }
                },
                None => {},
            }
            proof {
                assert(opportunities(found@) =~= before + expected);
            }
        },
        _ => {
            proof {
                assert(opportunities(found@) =~= before + expected);
            }
        },
    }
}

/// Number of opportunities at the head of `list` that gain at least
/// `profit_bps`.
pub open spec fn leading_at_least(list: Seq<Opportunity>, profit_bps: u128) -> int
    decreases list.len(),
{
    if list.len() == 0 || list[0].profit_bps < profit_bps {
        0
    } else {
        1 + leading_at_least(list.drop_first(), profit_bps)
    }
}

/// `list` with `item` put behind the leading opportunities that gain at
/// least as much.
pub open spec fn ranked_insert(list: Seq<Opportunity>, item: Opportunity) -> Seq<Opportunity> {
    list.insert(leading_at_least(list, item.profit_bps), item)
}

/// The opportunities of `list` by falling gain; those of equal gain keep
/// the order in which `list` has them.
pub open spec fn ranked(list: Seq<Opportunity>) -> Seq<Opportunity>
    decreases list.len(),
{
    if list.len() == 0 {
        seq![]
    } else {
        ranked_insert(ranked(list.drop_last()), list.last())
    }
}

/// Gains do not rise along the list.
pub open spec fn descending(list: Seq<Opportunity>) -> bool {
    forall|i: int, j: int|
        0 <= i < j < list.len() ==> (#[trigger] list[i]).profit_bps >= (
        #[trigger] list[j]).profit_bps
}

proof fn lemma_leading(list: Seq<Opportunity>, profit_bps: u128)
    ensures
        0 <= leading_at_least(list, profit_bps) <= list.len(),
        forall|i: int|
            0 <= i < leading_at_least(list, profit_bps) ==> (#[trigger] list[i]).profit_bps
                >= profit_bps,
        leading_at_least(list, profit_bps) < list.len() ==> list[leading_at_least(
            list,
            profit_bps,
        )].profit_bps < profit_bps,
    decreases list.len(),
{
    if list.len() == 0 || list[0].profit_bps < profit_bps {
    } else {
        let rest = list.drop_first();
        lemma_leading(rest, profit_bps);
        assert forall|i: int| 0 <= i < leading_at_least(list, profit_bps) implies (
        #[trigger] list[i]).profit_bps >= profit_bps by {
            if i > 0 {
                assert(list[i] == rest[i - 1]);
            }
        }
        if leading_at_least(list, profit_bps) < list.len() {
            assert(list[leading_at_least(list, profit_bps)] == rest[leading_at_least(
                rest,
                profit_bps,
            )]);
        }
    }
}

proof fn lemma_leading_is(list: Seq<Opportunity>, profit_bps: u128, at: int)
    requires
        0 <= at <= list.len(),
        forall|i: int| 0 <= i < at ==> (#[trigger] list[i]).profit_bps >= profit_bps,
        at < list.len() ==> list[at].profit_bps < profit_bps,
    ensures
        leading_at_least(list, profit_bps) == at,
{
    lemma_leading(list, profit_bps);
    let k = leading_at_least(list, profit_bps);
    if k < at {
        assert(list[k].profit_bps >= profit_bps);
    } else if at < k {
        assert(list[at].profit_bps >= profit_bps);
    }
}

/// Ranking puts the opportunities in falling order of gain and neither
/// drops nor invents one.
pub proof fn law_ranked_is_sorted(list: Seq<Opportunity>)
    ensures
        descending(ranked(list)),
        ranked(list).len() == list.len(),
        ranked(list).to_multiset() == list.to_multiset(),
    decreases list.len(),
{
    broadcast use vstd::seq_lib::group_to_multiset_ensures;

    if list.len() == 0 {
        assert(list =~= Seq::<Opportunity>::empty());
    } else {
        let front = list.drop_last();
        let item = list.last();
        law_ranked_is_sorted(front);
        let sorted = ranked(front);
        lemma_leading(sorted, item.profit_bps);
        let at = leading_at_least(sorted, item.profit_bps);
        let after = sorted.insert(at, item);
        assert forall|i: int, j: int| 0 <= i < j < after.len() implies (
        #[trigger] after[i]).profit_bps >= (#[trigger] after[j]).profit_bps by {
            let si = if i < at { i } else { i - 1 };
            let sj = if j < at { j } else { j - 1 };
            if i == at {
                assert(after[j] == sorted[sj]);
                if sj > at {
                    assert(sorted[at].profit_bps >= sorted[sj].profit_bps);
                }
            } else if j == at {
                assert(after[i] == sorted[si]);
            } else {
                assert(after[i] == sorted[si] && after[j] == sorted[sj]);
            }
        }
        assert(after.remove(at) =~= sorted);
        assert(after[at] == item);
        assert(after.to_multiset().remove(item) =~= sorted.to_multiset());
        assert(after.to_multiset().count(item) > 0) by {
            assert(after.contains(item));
        }
        assert(after.to_multiset() =~= sorted.to_multiset().insert(item));
        assert(list =~= front.push(item));
        assert(list.to_multiset() =~= front.to_multiset().insert(item));
    }
}

/// Sorts opportunities by falling gain. Opportunities of equal gain keep
/// their order.
pub fn sort_by_profit(list: Vec<ArbitrageOpportunity>) -> (sorted: Vec<ArbitrageOpportunity>)
    ensures
        opportunities(sorted@) == ranked(opportunities(list@)),
{
    let ghost all = opportunities(list@);
    let mut rest = list;
    let mut sorted: Vec<ArbitrageOpportunity> = Vec::new();
    let ghost mut done: int = 0;
    assert(all.take(0) =~= Seq::<Opportunity>::empty());
    while rest.len() > 0
        invariant
            0 <= done <= all.len(),
            opportunities(rest@) == all.skip(done),
            opportunities(sorted@) == ranked(all.take(done)),
        decreases rest.len(),
    {
        let ghost waiting = rest@;
        proof {
            assert(opportunities(waiting).len() == waiting.len());
            assert(all.skip(done).len() == all.len() - done);
            assert(all.skip(done)[0] == opportunities(waiting)[0]);
        }
        let item = rest.remove(0);
        let mut at: usize = 0;
        while at < sorted.len() && sorted[at].profit_bps >= item.profit_bps
            invariant
                at <= sorted@.len(),
                forall|i: int|
                    0 <= i < at ==> (#[trigger] opportunities(sorted@)[i]).profit_bps
                        >= item.profit_bps,
            decreases sorted.len() - at,
        {
            at += 1;
        }
        proof {
            let views = opportunities(sorted@);
            if at < sorted@.len() {
                assert(views[at as int].profit_bps < item.profit_bps);
            }
            lemma_leading_is(views, item.profit_bps, at as int);
            assert(all[done] == item@);
            assert(all.take(done + 1).drop_last() =~= all.take(done));
            assert(all.take(done + 1).last() == item@);
            assert(opportunities(sorted@.insert(at as int, item)) =~= views.insert(
                at as int,
                item@,
            ));
            assert(opportunities(rest@) =~= all.skip(done + 1)) by {
                assert(rest@ =~= waiting.skip(1));
                assert forall|i: int| 0 <= i < rest@.len() implies opportunities(rest@)[i]
                    == all.skip(done + 1)[i] by {
                    assert(opportunities(waiting)[i + 1] == all.skip(done)[i + 1]);
                }
            }
            done = done + 1;
        }
        sorted.insert(at, item);
    }
    proof {
        assert(all.take(done) =~= all);
    }
    sorted
}

} // verus!
