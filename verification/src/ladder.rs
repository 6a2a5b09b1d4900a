//! One side of an order book: price levels kept in ascending price order.

use vstd::prelude::*;

verus! {

/// A resting quantity at a price. In an update, size zero asks for removal.
#[derive(Debug, Clone, Copy, PartialEq, Eq, Structural)]
pub struct PriceLevel {
    pub price: u64,
    pub size: u64,
}

/// A sequence of levels is a ladder when prices strictly ascend and every
/// size is positive.
pub open spec fn is_ladder(levels: Seq<PriceLevel>) -> bool {
    &&& forall|i: int, j: int|
        0 <= i < j < levels.len() ==> (#[trigger] levels[i]).price < (#[trigger] levels[j]).price
    &&& forall|i: int| 0 <= i < levels.len() ==> (#[trigger] levels[i]).size > 0
}

/// The levels as a map from price to size. Where a price occurs twice, the
/// later level counts.
pub open spec fn ladder_map(levels: Seq<PriceLevel>) -> Map<u64, u64>
    decreases levels.len(),
{
    if levels.len() == 0 {
        Map::empty()
    } else {
        ladder_map(levels.drop_last()).insert(levels.last().price, levels.last().size)
    }
}

/// The ladder that holds exactly the entries of `sizes`.
pub open spec fn ladder_of(sizes: Map<u64, u64>) -> Seq<PriceLevel> {
    choose|levels: Seq<PriceLevel>| is_ladder(levels) && ladder_map(levels) == sizes
}

/// What one level change does to a side: size zero removes the price, any
/// other size replaces whatever stood there.
pub open spec fn set_level(sizes: Map<u64, u64>, price: u64, size: u64) -> Map<u64, u64> {
    if size == 0 {
        sizes.remove(price)
    } else {
        sizes.insert(price, size)
    }
}

/// Level changes applied in the order in which they are listed.
pub open spec fn apply_levels(sizes: Map<u64, u64>, changes: Seq<(u64, u64)>) -> Map<u64, u64>
    decreases changes.len(),
{
    if changes.len() == 0 {
        sizes
    } else {
        set_level(apply_levels(sizes, changes.drop_last()), changes.last().0, changes.last().1)
    }
}

/// Number of levels priced below `price`, which is where `price` stands or
/// would stand in the ladder.
pub open spec fn rank(levels: Seq<PriceLevel>, price: u64) -> int
    decreases levels.len(),
{
    if levels.len() == 0 {
        0
    } else if levels.last().price < price {
        levels.len() as int
    } else {
        rank(levels.drop_last(), price)
    }
}

/// Every level of a ladder is an entry of its map, and the map has no other.
pub proof fn lemma_ladder_entries(levels: Seq<PriceLevel>)
    requires
        is_ladder(levels),
    ensures
        forall|i: int|
            0 <= i < levels.len() ==> ladder_map(levels).contains_key((#[trigger] levels[i]).price)
                && ladder_map(levels)[levels[i].price] == levels[i].size,
        forall|price: u64| #[trigger]
            ladder_map(levels).contains_key(price) ==> exists|i: int|
                0 <= i < levels.len() && (#[trigger] levels[i]).price == price,
        forall|price: u64| #[trigger]
            ladder_map(levels).contains_key(price) ==> ladder_map(levels)[price] > 0,
        ladder_map(levels).dom().finite(),
        ladder_map(levels).len() == levels.len(),
    decreases levels.len(),
{
    if levels.len() > 0 {
        let front = levels.drop_last();
        let top = levels.last();
        assert(is_ladder(front)) by {
            assert forall|i: int, j: int| 0 <= i < j < front.len() implies (#[trigger] front[i]).price
                < (#[trigger] front[j]).price by {
                assert(front[i] == levels[i] && front[j] == levels[j]);
            }
            assert forall|i: int| 0 <= i < front.len() implies (#[trigger] front[i]).size > 0 by {
                assert(front[i] == levels[i]);
            }
        }
        lemma_ladder_entries(front);
        assert forall|i: int| 0 <= i < levels.len() implies ladder_map(levels).contains_key(
            (#[trigger] levels[i]).price,
        ) && ladder_map(levels)[levels[i].price] == levels[i].size by {
            if i < front.len() {
                assert(front[i] == levels[i]);
                assert(levels[i].price < levels[levels.len() - 1].price);
            }
        }
        assert forall|price: u64| #[trigger]
            ladder_map(levels).contains_key(price) implies exists|i: int|
            0 <= i < levels.len() && (#[trigger] levels[i]).price == price by {
            if price == top.price {
                assert(levels[levels.len() - 1].price == price);
            } else {
                let i = choose|i: int| 0 <= i < front.len() && (#[trigger] front[i]).price == price;
                assert(levels[i] == front[i]);
            }
        }
        assert forall|price: u64| #[trigger]
            ladder_map(levels).contains_key(price) implies ladder_map(levels)[price] > 0 by {
            if price == top.price {
                assert(levels[levels.len() - 1].size > 0);
            }
        }
        assert(!ladder_map(front).contains_key(top.price)) by {
            if ladder_map(front).contains_key(top.price) {
                let i = choose|i: int|
                    0 <= i < front.len() && (#[trigger] front[i]).price == top.price;
                assert(front[i] == levels[i]);
                assert(levels[i].price < levels[levels.len() - 1].price);
            }
        }
    }
}

/// In a ladder, the rank of a price splits the levels into those below it and
/// those at or above it.
pub proof fn lemma_rank(levels: Seq<PriceLevel>, price: u64)
    requires
        is_ladder(levels),
    ensures
        0 <= rank(levels, price) <= levels.len(),
        forall|i: int| 0 <= i < rank(levels, price) ==> (#[trigger] levels[i]).price < price,
        forall|i: int|
            rank(levels, price) <= i < levels.len() ==> (#[trigger] levels[i]).price >= price,
    decreases levels.len(),
{
    if levels.len() > 0 {
        let front = levels.drop_last();
        if levels.last().price < price {
            assert forall|i: int| 0 <= i < levels.len() implies (#[trigger] levels[i]).price
                < price by {
                if i < levels.len() - 1 {
                    assert(levels[i].price < levels[levels.len() - 1].price);
                }
            }
        } else {
            assert(is_ladder(front)) by {
                assert forall|i: int, j: int| 0 <= i < j < front.len() implies (
                #[trigger] front[i]).price < (#[trigger] front[j]).price by {
                    assert(front[i] == levels[i] && front[j] == levels[j]);
                }
                assert forall|i: int| 0 <= i < front.len() implies (#[trigger] front[i]).size
                    > 0 by {
                    assert(front[i] == levels[i]);
                }
            }
            lemma_rank(front, price);
            assert forall|i: int| 0 <= i < rank(levels, price) implies (#[trigger] levels[i]).price
                < price by {
                assert(front[i] == levels[i]);
            }
            assert forall|i: int| rank(levels, price) <= i < levels.len() implies (
            #[trigger] levels[i]).price >= price by {
                if i < front.len() {
                    assert(front[i] == levels[i]);
                }
            }
        }
    }
}

/// The split that `lemma_rank` describes is the only one.
pub proof fn lemma_rank_is(levels: Seq<PriceLevel>, price: u64, at: int)
    requires
        is_ladder(levels),
        0 <= at <= levels.len(),
        forall|i: int| 0 <= i < at ==> (#[trigger] levels[i]).price < price,
        forall|i: int| at <= i < levels.len() ==> (#[trigger] levels[i]).price >= price,
    ensures
        rank(levels, price) == at,
{
    lemma_rank(levels, price);
    let r = rank(levels, price);
    if r < at {
        assert(levels[r].price < price);
    } else if at < r {
        assert(levels[at].price >= price);
    }
}

/// An ascending ladder is determined by its map: two ladders with the same
/// entries are the same sequence.
pub proof fn lemma_ladder_unique(a: Seq<PriceLevel>, b: Seq<PriceLevel>)
    requires
        is_ladder(a),
        is_ladder(b),
        ladder_map(a) == ladder_map(b),
    ensures
        a == b,
    decreases a.len(),
{
    lemma_ladder_entries(a);
    lemma_ladder_entries(b);
    assert(a.len() == b.len());
    if a.len() > 0 {
        let n = a.len() as int;
        let ta = a[n - 1];
        let tb = b[n - 1];
        // The top of each ladder is the highest key of the shared map.
        assert(ta.price == tb.price) by {
            let ia = choose|i: int| 0 <= i < b.len() && (#[trigger] b[i]).price == ta.price;
            let ib = choose|i: int| 0 <= i < a.len() && (#[trigger] a[i]).price == tb.price;
            if ia < n - 1 {
                assert(b[ia].price < b[n - 1].price);
            }
            if ib < n - 1 {
                assert(a[ib].price < a[n - 1].price);
            }
        }
        assert(ta == tb);
        let fa = a.drop_last();
        let fb = b.drop_last();
        assert(is_ladder(fa)) by {
            assert forall|i: int, j: int| 0 <= i < j < fa.len() implies (#[trigger] fa[i]).price < (
            #[trigger] fa[j]).price by {
                assert(fa[i] == a[i] && fa[j] == a[j]);
            }
            assert forall|i: int| 0 <= i < fa.len() implies (#[trigger] fa[i]).size > 0 by {
                assert(fa[i] == a[i]);
            }
        }
        assert(is_ladder(fb)) by {
            assert forall|i: int, j: int| 0 <= i < j < fb.len() implies (#[trigger] fb[i]).price < (
            #[trigger] fb[j]).price by {
                assert(fb[i] == b[i] && fb[j] == b[j]);
            }
            assert forall|i: int| 0 <= i < fb.len() implies (#[trigger] fb[i]).size > 0 by {
                assert(fb[i] == b[i]);
            }
        }
        lemma_ladder_entries(fa);
        lemma_ladder_entries(fb);
        assert(ladder_map(fa) =~= ladder_map(a).remove(ta.price)) by {
            if ladder_map(fa).contains_key(ta.price) {
                let i = choose|i: int| 0 <= i < fa.len() && (#[trigger] fa[i]).price == ta.price;
                assert(fa[i] == a[i]);
                assert(a[i].price < a[n - 1].price);
            }
        }
        assert(ladder_map(fb) =~= ladder_map(b).remove(tb.price)) by {
            if ladder_map(fb).contains_key(tb.price) {
                let i = choose|i: int| 0 <= i < fb.len() && (#[trigger] fb[i]).price == tb.price;
                assert(fb[i] == b[i]);
                assert(b[i].price < b[n - 1].price);
            }
        }
        lemma_ladder_unique(fa, fb);
        assert(a =~= fa.push(ta));
        assert(b =~= fb.push(tb));
    } else {
        assert(a =~= b);
    }
}

/// A ladder is the ladder of its own map.
pub proof fn lemma_ladder_of_map(levels: Seq<PriceLevel>)
    requires
        is_ladder(levels),
    ensures
        ladder_of(ladder_map(levels)) == levels,
{
    let chosen = ladder_of(ladder_map(levels));
    assert(is_ladder(chosen) && ladder_map(chosen) == ladder_map(levels));
    lemma_ladder_unique(chosen, levels);
}

/// One side of a book. The levels always form a ladder.
#[derive(Debug)]
pub struct PriceLadder {
    levels: Vec<PriceLevel>,
}

impl View for PriceLadder {
    type V = Seq<PriceLevel>;

    closed spec fn view(&self) -> Seq<PriceLevel> {
        self.levels@
    }
}

impl PriceLadder {
    #[verifier::type_invariant]
    spec fn ascending(self) -> bool {
        is_ladder(self.levels@)
    }

    pub fn new() -> (ladder: PriceLadder)
        ensures
            ladder@ == Seq::<PriceLevel>::empty(),
    {
        PriceLadder { levels: Vec::new() }
    }

    pub fn len(&self) -> (count: usize)
        ensures
            count == self@.len(),
            is_ladder(self@),
    {
        proof {
            use_type_invariant(self);
        }
        self.levels.len()
    }

    /// The level at `index`, counted from the lowest price.
    pub fn level(&self, index: usize) -> (level: PriceLevel)
        requires
            index < self@.len(),
        ensures
            level == self@[index as int],
    {
        self.levels[index]
    }

    pub fn lowest(&self) -> (level: Option<PriceLevel>)
        ensures
            is_ladder(self@),
            match level {
                Some(l) => self@.len() > 0 && l == self@.first(),
                None => self@.len() == 0,
            },
    {
        proof {
            use_type_invariant(self);
        }
        if self.levels.len() == 0 {
            None
        } else {
            Some(self.levels[0])
        }
    }

    pub fn highest(&self) -> (level: Option<PriceLevel>)
        ensures
            is_ladder(self@),
            match level {
                Some(l) => self@.len() > 0 && l == self@.last(),
                None => self@.len() == 0,
            },
    {
        proof {
            use_type_invariant(self);
        }
        let n = self.levels.len();
        if n == 0 {
            None
        } else {
            Some(self.levels[n - 1])
        }
    }

    /// Where `price` stands or would stand, found by bisection.
    pub fn position(&self, price: u64) -> (at: usize)
        ensures
            at == rank(self@, price),
            at <= self@.len(),
    {
        proof {
            use_type_invariant(self);
        }
        let mut low: usize = 0;
        let mut high: usize = self.levels.len();
        while low < high
            invariant
                is_ladder(self.levels@),
                low <= high <= self.levels@.len(),
                forall|i: int| 0 <= i < low ==> (#[trigger] self.levels@[i]).price < price,
                forall|i: int|
                    high <= i < self.levels@.len() ==> (#[trigger] self.levels@[i]).price >= price,
            decreases high - low,
        {
            let middle = low + (high - low) / 2;
            if self.levels[middle].price < price {
                assert forall|i: int| 0 <= i < middle + 1 implies (#[trigger] self.levels@[i]).price
                    < price by {
                    if i < middle {
                        assert(self.levels@[i].price < self.levels@[middle as int].price);
                    }
                }
                low = middle + 1;
            } else {
                assert forall|i: int| middle <= i < self.levels@.len() implies (
                #[trigger] self.levels@[i]).price >= price by {
                    if middle < i {
                        assert(self.levels@[middle as int].price < self.levels@[i].price);
                    }
                }
                high = middle;
            }
        }
        proof {
            lemma_rank_is(self.levels@, price, low as int);
        }
        low
    }

    /// The size that rests at `price`, if any.
    pub fn size_at(&self, price: u64) -> (size: Option<u64>)
        ensures
            size == (if ladder_map(self@).contains_key(price) {
                Some(ladder_map(self@)[price])
            } else {
                None
            }),
    {
        proof {
            use_type_invariant(self);
            lemma_ladder_entries(self.levels@);
            lemma_rank(self.levels@, price);
        }
        let at = self.position(price);
        if at < self.levels.len() && self.levels[at].price == price {
            Some(self.levels[at].size)
        } else {
            proof {
                if ladder_map(self@).contains_key(price) {
                    let i = choose|i: int|
                        0 <= i < self.levels@.len() && (#[trigger] self.levels@[i]).price == price;
                    if i > at {
                        assert(self.levels@[at as int].price < self.levels@[i].price);
                    }
                }
            }
            None
        }
    }

    /// Applies one level change: size zero takes the price out, any other
    /// size puts the level in or overwrites the size that stood there.
    pub fn set(&mut self, price: u64, size: u64)
        ensures
            is_ladder(final(self)@),
            ladder_map(final(self)@) == set_level(ladder_map(old(self)@), price, size),
    {
        proof {
            use_type_invariant(&*self);
            lemma_ladder_entries(self.levels@);
            lemma_rank(self.levels@, price);
        }
        let at = self.position(price);
        let present = at < self.levels.len() && self.levels[at].price == price;
        let ghost before = self.levels@;
        let mut levels: Vec<PriceLevel> = Vec::new();
        std::mem::swap(&mut self.levels, &mut levels);
        if size == 0 {
            if present {
                proof {
                    lemma_removed(before, at as int);
                }
                levels.remove(at);
            } else {
                proof {
                    lemma_absent(before, price);
                    assert(ladder_map(before).remove(price) =~= ladder_map(before));
                }
            }
        } else {
            let level = PriceLevel { price, size };
            if present {
                proof {
                    lemma_replaced(before, at as int, size);
                }
                levels.set(at, level);
            } else {
                proof {
                    lemma_inserted(before, at as int, level);
                }
                levels.insert(at, level);
            }
        }
        self.levels = levels;
    }

    /// Applies level changes in the order in which they are listed.
    pub fn apply(&mut self, changes: &Vec<(u64, u64)>)
        ensures
            is_ladder(final(self)@),
            ladder_map(final(self)@) == apply_levels(ladder_map(old(self)@), changes@),
    {
        proof {
            use_type_invariant(&*self);
        }
        let mut done: usize = 0;
        while done < changes.len()
            invariant
                done <= changes.len(),
                is_ladder(self@),
                ladder_map(self@) == apply_levels(ladder_map(old(self)@), changes@.take(done as int)),
            decreases changes.len() - done,
        {
            let (price, size) = changes[done];
            self.set(price, size);
            proof {
                assert(changes@.take(done + 1).drop_last() =~= changes@.take(done as int));
            }
            done += 1;
        }
        proof {
            assert(changes@.take(done as int) =~= changes@);
        }
    }
}

/// A price that stands on no level is no key of the map.
proof fn lemma_absent(levels: Seq<PriceLevel>, price: u64)
    requires
        is_ladder(levels),
        !(rank(levels, price) < levels.len() && levels[rank(levels, price)].price == price),
    ensures
        !ladder_map(levels).contains_key(price),
{
    lemma_ladder_entries(levels);
    lemma_rank(levels, price);
    if ladder_map(levels).contains_key(price) {
        let at = rank(levels, price);
        let i = choose|i: int| 0 <= i < levels.len() && (#[trigger] levels[i]).price == price;
        if i > at {
            assert(levels[at].price < levels[i].price);
        }
    }
}

proof fn lemma_removed(levels: Seq<PriceLevel>, at: int)
    requires
        is_ladder(levels),
        0 <= at < levels.len(),
    ensures
        is_ladder(levels.remove(at)),
        ladder_map(levels.remove(at)) == ladder_map(levels).remove(levels[at].price),
{
    let after = levels.remove(at);
    assert(is_ladder(after)) by {
        assert forall|i: int, j: int| 0 <= i < j < after.len() implies (#[trigger] after[i]).price
            < (#[trigger] after[j]).price by {
            let si = if i < at { i } else { i + 1 };
            let sj = if j < at { j } else { j + 1 };
            assert(after[i] == levels[si] && after[j] == levels[sj]);
        }
        assert forall|i: int| 0 <= i < after.len() implies (#[trigger] after[i]).size > 0 by {
            let si = if i < at { i } else { i + 1 };
            assert(after[i] == levels[si]);
        }
    }
    lemma_ladder_entries(levels);
    lemma_ladder_entries(after);
    let gone = levels[at].price;
    assert forall|price: u64| ladder_map(after).contains_key(price) <==> ladder_map(
        levels,
    ).remove(gone).contains_key(price) by {
        if ladder_map(after).contains_key(price) {
            let i = choose|i: int| 0 <= i < after.len() && (#[trigger] after[i]).price == price;
            let si = if i < at { i } else { i + 1 };
            assert(after[i] == levels[si]);
            if si < at {
                assert(levels[si].price < levels[at].price);
            } else {
                assert(levels[at].price < levels[si].price);
            }
        }
        if ladder_map(levels).remove(gone).contains_key(price) {
            let i = choose|i: int| 0 <= i < levels.len() && (#[trigger] levels[i]).price == price;
            let ti = if i < at { i } else { i - 1 };
            assert(after[ti] == levels[i]);
        }
    }
    assert forall|price: u64| ladder_map(after).contains_key(price) implies ladder_map(after)[price]
        == ladder_map(levels).remove(gone)[price] by {
        let i = choose|i: int| 0 <= i < after.len() && (#[trigger] after[i]).price == price;
        let si = if i < at { i } else { i + 1 };
        assert(after[i] == levels[si]);
    }
    assert(ladder_map(after) =~= ladder_map(levels).remove(gone));
}

proof fn lemma_replaced(levels: Seq<PriceLevel>, at: int, size: u64)
    requires
        is_ladder(levels),
        0 <= at < levels.len(),
        size > 0,
    ensures
        is_ladder(levels.update(at, PriceLevel { price: levels[at].price, size })),
        ladder_map(levels.update(at, PriceLevel { price: levels[at].price, size })) == ladder_map(
            levels,
        ).insert(levels[at].price, size),
{
    let price = levels[at].price;
    let after = levels.update(at, PriceLevel { price, size });
    assert(is_ladder(after)) by {
        assert forall|i: int, j: int| 0 <= i < j < after.len() implies (#[trigger] after[i]).price
            < (#[trigger] after[j]).price by {
            assert(after[i].price == levels[i].price && after[j].price == levels[j].price);
        }
        assert forall|i: int| 0 <= i < after.len() implies (#[trigger] after[i]).size > 0 by {
            if i != at {
                assert(after[i] == levels[i]);
            }
        }
    }
    lemma_ladder_entries(levels);
    lemma_ladder_entries(after);
    assert forall|other: u64| ladder_map(after).contains_key(other) <==> ladder_map(levels).insert(
        price,
        size,
    ).contains_key(other) by {
        if ladder_map(after).contains_key(other) {
            let i = choose|i: int| 0 <= i < after.len() && (#[trigger] after[i]).price == other;
            assert(after[i].price == levels[i].price);
        }
        if ladder_map(levels).insert(price, size).contains_key(other) {
            if other == price {
                assert(after[at].price == price);
            } else {
                let i = choose|i: int|
                    0 <= i < levels.len() && (#[trigger] levels[i]).price == other;
                assert(after[i] == levels[i]);
            }
        }
    }
    assert forall|other: u64| ladder_map(after).contains_key(other) implies ladder_map(after)[other]
        == ladder_map(levels).insert(price, size)[other] by {
        let i = choose|i: int| 0 <= i < after.len() && (#[trigger] after[i]).price == other;
        if i != at {
            assert(after[i] == levels[i]);
            if i < at {
                assert(levels[i].price < levels[at].price);
            } else {
                assert(levels[at].price < levels[i].price);
            }
        }
    }
    assert(ladder_map(after) =~= ladder_map(levels).insert(price, size));
}

proof fn lemma_inserted(levels: Seq<PriceLevel>, at: int, level: PriceLevel)
    requires
        is_ladder(levels),
        at == rank(levels, level.price),
        !(at < levels.len() && levels[at].price == level.price),
        level.size > 0,
    ensures
        is_ladder(levels.insert(at, level)),
        ladder_map(levels.insert(at, level)) == ladder_map(levels).insert(level.price, level.size),
{
    lemma_rank(levels, level.price);
    let after = levels.insert(at, level);
    assert(is_ladder(after)) by {
        assert forall|i: int, j: int| 0 <= i < j < after.len() implies (#[trigger] after[i]).price
            < (#[trigger] after[j]).price by {
            let si = if i < at { i } else { i - 1 };
            let sj = if j < at { j } else { j - 1 };
            if i == at {
                assert(after[j] == levels[sj]);
                assert(levels[sj].price >= level.price);
                if sj > at {
                    assert(levels[at].price < levels[sj].price);
                }
            } else if j == at {
                assert(after[i] == levels[si]);
            } else {
                assert(after[i] == levels[si] && after[j] == levels[sj]);
            }
        }
        assert forall|i: int| 0 <= i < after.len() implies (#[trigger] after[i]).size > 0 by {
            if i != at {
                let si = if i < at { i } else { i - 1 };
                assert(after[i] == levels[si]);
            }
        }
    }
    lemma_ladder_entries(levels);
    lemma_ladder_entries(after);
    assert forall|other: u64| ladder_map(after).contains_key(other) <==> ladder_map(levels).insert(
        level.price,
        level.size,
    ).contains_key(other) by {
        if ladder_map(after).contains_key(other) {
            let i = choose|i: int| 0 <= i < after.len() && (#[trigger] after[i]).price == other;
            if i != at {
                let si = if i < at { i } else { i - 1 };
                assert(after[i] == levels[si]);
            }
        }
        if ladder_map(levels).insert(level.price, level.size).contains_key(other) {
            if other == level.price {
                assert(after[at].price == other);
            } else {
                let i = choose|i: int|
                    0 <= i < levels.len() && (#[trigger] levels[i]).price == other;
                let ti = if i < at { i } else { i + 1 };
                assert(after[ti] == levels[i]);
            }
        }
    }
    assert forall|other: u64| ladder_map(after).contains_key(other) implies ladder_map(after)[other]
        == ladder_map(levels).insert(level.price, level.size)[other] by {
        let i = choose|i: int| 0 <= i < after.len() && (#[trigger] after[i]).price == other;
        if i != at {
            let si = if i < at { i } else { i - 1 };
            assert(after[i] == levels[si]);
        }
    }
    assert(ladder_map(after) =~= ladder_map(levels).insert(level.price, level.size));
}

/// One level change turns the map of a ladder into the map of a ladder.
proof fn lemma_set_level_ladder(levels: Seq<PriceLevel>, price: u64, size: u64)
    requires
        is_ladder(levels),
    ensures
        exists|after: Seq<PriceLevel>|
            is_ladder(after) && ladder_map(after) == set_level(ladder_map(levels), price, size),
{
    lemma_rank(levels, price);
    let at = rank(levels, price);
    let present = at < levels.len() && levels[at].price == price;
    let target = set_level(ladder_map(levels), price, size);
    if size == 0 {
        if present {
            lemma_removed(levels, at);
            assert(is_ladder(levels.remove(at)) && ladder_map(levels.remove(at)) == target);
        } else {
            lemma_absent(levels, price);
            assert(ladder_map(levels).remove(price) =~= ladder_map(levels));
            assert(is_ladder(levels) && ladder_map(levels) == target);
        }
    } else {
        let level = PriceLevel { price, size };
        if present {
            lemma_replaced(levels, at, size);
            assert(is_ladder(levels.update(at, level)) && ladder_map(levels.update(at, level))
                == target);
        } else {
            lemma_inserted(levels, at, level);
            assert(is_ladder(levels.insert(at, level)) && ladder_map(levels.insert(at, level))
                == target);
        }
    }
}

/// Level changes turn the map of a ladder into the map of a ladder, so the
/// ladder of the changed map exists and holds exactly the changed entries.
pub proof fn lemma_changes_keep_ladder(levels: Seq<PriceLevel>, changes: Seq<(u64, u64)>)
    requires
        is_ladder(levels),
    ensures
        is_ladder(ladder_of(apply_levels(ladder_map(levels), changes))),
        ladder_map(ladder_of(apply_levels(ladder_map(levels), changes))) == apply_levels(
            ladder_map(levels),
            changes,
        ),
    decreases changes.len(),
{
    if changes.len() == 0 {
        lemma_ladder_of_map(levels);
    } else {
        lemma_changes_keep_ladder(levels, changes.drop_last());
        let before = ladder_of(apply_levels(ladder_map(levels), changes.drop_last()));
        lemma_set_level_ladder(before, changes.last().0, changes.last().1);
    }
}

/// After level changes, a price holds what the last change that names it
/// says: nothing where that change has size zero, its size otherwise. What
/// stood at the price before, and what earlier changes said, is forgotten.
pub proof fn lemma_last_change_wins(sizes: Map<u64, u64>, changes: Seq<(u64, u64)>, at: int)
    requires
        0 <= at < changes.len(),
        forall|later: int| at < later < changes.len() ==> (#[trigger] changes[later]).0 != changes[at].0,
    ensures
        changes[at].1 == 0 ==> !apply_levels(sizes, changes).contains_key(changes[at].0),
        changes[at].1 > 0 ==> apply_levels(sizes, changes).contains_key(changes[at].0)
            && apply_levels(sizes, changes)[changes[at].0] == changes[at].1,
    decreases changes.len(),
{
    if at < changes.len() - 1 {
        let front = changes.drop_last();
        assert(front[at] == changes[at]);
        assert forall|later: int| at < later < front.len() implies (#[trigger] front[later]).0
            != front[at].0 by {
            assert(front[later] == changes[later]);
        }
        lemma_last_change_wins(sizes, front, at);
        assert(changes[changes.len() - 1].0 != changes[at].0);
    }
}

/// Level changes leave alone every price that none of them names.
pub proof fn law_unnamed_price_stays(sizes: Map<u64, u64>, changes: Seq<(u64, u64)>, price: u64)
    requires
        forall|i: int| 0 <= i < changes.len() ==> (#[trigger] changes[i]).0 != price,
    ensures
        apply_levels(sizes, changes).contains_key(price) == sizes.contains_key(price),
        sizes.contains_key(price) ==> apply_levels(sizes, changes)[price] == sizes[price],
    decreases changes.len(),
{
    if changes.len() > 0 {
        let front = changes.drop_last();
        assert forall|i: int| 0 <= i < front.len() implies (#[trigger] front[i]).0 != price by {
            assert(front[i] == changes[i]);
        }
        law_unnamed_price_stays(sizes, front, price);
        assert(changes[changes.len() - 1].0 != price);
    }
}

/// After level changes, every price of the side stood there before or is
/// named by a change.
pub proof fn lemma_changed_prices(sizes: Map<u64, u64>, changes: Seq<(u64, u64)>, price: u64)
    requires
        apply_levels(sizes, changes).contains_key(price),
    ensures
        sizes.contains_key(price) || exists|i: int|
            0 <= i < changes.len() && (#[trigger] changes[i]).0 == price,
    decreases changes.len(),
{
    if changes.len() > 0 {
        let front = changes.drop_last();
        if changes.last().0 == price {
            assert(changes[changes.len() - 1].0 == price);
        } else {
            lemma_changed_prices(sizes, front, price);
            if !sizes.contains_key(price) {
                let i = choose|i: int| 0 <= i < front.len() && (#[trigger] front[i]).0 == price;
                assert(changes[i] == front[i]);
            }
        }
    }
}

} // verus!
