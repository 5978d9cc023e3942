//! One side's price -> quantity container: keys unique, ordered by
//! price ascending, and no stored entry with quantity zero.

use vstd::map::*;
use vstd::prelude::*;

use crate::messages::LevelUpdate;
use crate::messages::PriceLevel;
use crate::messages::Side;
use crate::messages::UpdateStatus;
use crate::messages::apply_updates;

verus! {

/// The price -> quantity map that a sequence of levels denotes. The
/// quantity picked for a price is that of any entry carrying it; with
/// unique prices the choice is determined.
spec fn levels_as_map(s: Seq<PriceLevel>) -> Map<u64, u64> {
    Map::new(
        |p: u64| exists|i: int| 0 <= i < s.len() && s[i].price == p,
        |p: u64| s[choose|i: int| 0 <= i < s.len() && s[i].price == p].quantity,
    )
}

/// Prices strictly increase along the sequence.
spec fn strictly_ascending(s: Seq<PriceLevel>) -> bool {
    forall|i: int, j: int| 0 <= i < j < s.len() ==> s[i].price < s[j].price
}

/// Every entry has a positive quantity.
spec fn all_positive(s: Seq<PriceLevel>) -> bool {
    forall|i: int| 0 <= i < s.len() ==> s[i].quantity > 0
}

/// On the bid side the better price is the higher one; on the ask side
/// the lower one.
pub open spec fn at_least_as_good(side: Side, a: u64, b: u64) -> bool {
    match side {
        Side::Bid => a >= b,
        Side::Ask => a <= b,
    }
}

/// `r` is the best level of `m` for `side`: `None` exactly when the map
/// is empty, otherwise the entry whose price beats every other key.
pub open spec fn is_best_of(m: Map<u64, u64>, side: Side, r: Option<PriceLevel>) -> bool {
    match r {
        None => forall|p: u64| !(#[trigger] m.contains_key(p)),
        Some(pl) => {
            &&& m.contains_key(pl.price)
            &&& m[pl.price] == pl.quantity
            &&& forall|p: u64| #[trigger] m.contains_key(p) ==> at_least_as_good(side, pl.price, p)
        },
    }
}

/// `s` lists exactly the entries of `m`, best price first.
pub open spec fn is_depth_of(m: Map<u64, u64>, side: Side, s: Seq<PriceLevel>) -> bool {
    &&& (forall|i: int| 0 <= i < s.len() ==> m.contains_key(#[trigger] s[i].price) && m[s[i].price]
        == s[i].quantity)
    &&& (forall|p: u64| #[trigger] m.contains_key(p) ==> exists|i: int|
        0 <= i < s.len() && s[i].price == p)
    &&& (forall|i: int, j: int| 0 <= i < j < s.len() ==> at_least_as_good(
        side,
        #[trigger] s[i].price,
        #[trigger] s[j].price,
    ) && s[i].price != s[j].price)
}

proof fn lemma_price_unique(s: Seq<PriceLevel>, i: int, j: int)
    requires
        strictly_ascending(s),
        0 <= i < s.len(),
        0 <= j < s.len(),
        s[i].price == s[j].price,
    ensures
        i == j,
{
    if i < j {
        assert(s[i].price < s[j].price);
    }
    if j < i {
        assert(s[j].price < s[i].price);
    }
}

proof fn lemma_entry_in_map(s: Seq<PriceLevel>, i: int)
    requires
        strictly_ascending(s),
        0 <= i < s.len(),
    ensures
        levels_as_map(s).contains_key(s[i].price),
        levels_as_map(s)[s[i].price] == s[i].quantity,
{
    let p = s[i].price;
    assert(levels_as_map(s).contains_key(p));
    let j = choose|j: int| 0 <= j < s.len() && s[j].price == p;
    lemma_price_unique(s, i, j);
}

proof fn lemma_map_absent(s: Seq<PriceLevel>, p: u64)
    requires
        forall|i: int| 0 <= i < s.len() ==> s[i].price != p,
    ensures
        !levels_as_map(s).contains_key(p),
        levels_as_map(s).remove(p) == levels_as_map(s),
{
    assert(levels_as_map(s).remove(p) =~= levels_as_map(s));
}

proof fn lemma_map_of_remove(s: Seq<PriceLevel>, i: int)
    requires
        strictly_ascending(s),
        0 <= i < s.len(),
    ensures
        strictly_ascending(s.remove(i)),
        all_positive(s) ==> all_positive(s.remove(i)),
        levels_as_map(s.remove(i)) == levels_as_map(s).remove(s[i].price),
{
    let t = s.remove(i);
    let p0 = s[i].price;
    assert(forall|j: int| 0 <= j < t.len() ==> #[trigger] t[j] == if j < i {
        s[j]
    } else {
        s[j + 1]
    });
    assert(strictly_ascending(t));
    assert_maps_equal!(levels_as_map(t), levels_as_map(s).remove(p0), p => {
        if levels_as_map(t).contains_key(p) {
            let j = choose|j: int| 0 <= j < t.len() && t[j].price == p;
            let k: int = if j < i { j } else { j + 1 };
            assert(t[j] == s[k]);
            lemma_entry_in_map(s, k);
            lemma_entry_in_map(t, j);
            if p == p0 {
                lemma_price_unique(s, k, i);
            }
        }
        if levels_as_map(s).remove(p0).contains_key(p) {
            let k = choose|k: int| 0 <= k < s.len() && s[k].price == p;
            if k == i {
                assert(p == p0);
            }
            let j: int = if k < i { k } else { k - 1 };
            assert(t[j] == s[k]);
            lemma_entry_in_map(t, j);
            lemma_entry_in_map(s, k);
        }
    });
}

proof fn lemma_map_of_insert(s: Seq<PriceLevel>, i: int, pl: PriceLevel)
    requires
        strictly_ascending(s),
        0 <= i <= s.len(),
        forall|j: int| 0 <= j < i ==> s[j].price < pl.price,
        forall|j: int| i <= j < s.len() ==> s[j].price > pl.price,
    ensures
        strictly_ascending(s.insert(i, pl)),
        all_positive(s) && pl.quantity > 0 ==> all_positive(s.insert(i, pl)),
        levels_as_map(s.insert(i, pl)) == levels_as_map(s).insert(pl.price, pl.quantity),
{
    let t = s.insert(i, pl);
    assert(forall|j: int| 0 <= j < t.len() ==> #[trigger] t[j] == if j < i {
        s[j]
    } else if j == i {
        pl
    } else {
        s[j - 1]
    });
    assert(strictly_ascending(t));
    assert forall|p: u64| levels_as_map(t).contains_key(p) implies levels_as_map(s).insert(
        pl.price,
        pl.quantity,
    ).contains_key(p) && levels_as_map(t)[p] == levels_as_map(s).insert(pl.price, pl.quantity)[p] by {
        let j = choose|j: int| 0 <= j < t.len() && t[j].price == p;
        lemma_entry_in_map(t, j);
        if j == i {
            assert(levels_as_map(t)[p] == pl.quantity);
        } else {
            let k: int = if j < i { j } else { j - 1 };
            assert(t[j] == s[k]);
            assert(s[k].price != pl.price);
            lemma_entry_in_map(s, k);
        }
    }
    assert forall|p: u64| levels_as_map(s).insert(pl.price, pl.quantity).contains_key(
        p,
    ) implies levels_as_map(t).contains_key(p) by {
        if p == pl.price {
            assert(t[i] == pl);
            lemma_entry_in_map(t, i);
        } else {
            let k = choose|k: int| 0 <= k < s.len() && s[k].price == p;
            let j: int = if k < i { k } else { k + 1 };
            assert(t[j] == s[k]);
            lemma_entry_in_map(t, j);
        }
    }
    assert(levels_as_map(t) =~= levels_as_map(s).insert(pl.price, pl.quantity));
}

/// One side's levels: a vector of (price, quantity) pairs kept strictly
/// ascending by price, quantities positive. Viewed as the price ->
/// quantity map it denotes.
pub struct PriceLevelMap {
    side: Side,
    levels: Vec<PriceLevel>,
}

impl View for PriceLevelMap {
    type V = Map<u64, u64>;

    closed spec fn view(&self) -> Map<u64, u64> {
        levels_as_map(self.levels@)
    }
}

impl PriceLevelMap {
    /// Which side of the book this map holds.
    pub closed spec fn side(&self) -> Side {
        self.side
    }

    /// Representation invariant: prices strictly ascending, quantities
    /// positive (deleted or zeroed levels are absent, never stored).
    pub closed spec fn well_formed(&self) -> bool {
        strictly_ascending(self.levels@) && all_positive(self.levels@)
    }

    /// An empty side.
    pub fn new(side: Side) -> (r: PriceLevelMap)
        ensures
            r.well_formed(),
            r.side() == side,
            r@ == Map::<u64, u64>::empty(),
    {
        let r = PriceLevelMap { side, levels: Vec::new() };
        proof {
            assert(r@ =~= Map::<u64, u64>::empty());
        }
        r
    }

    /// The index of the first level whose price is `price` or greater,
    /// found by binary search over the ascending prices.
    fn position_for(&self, price: u64) -> (i: usize)
        requires
            self.well_formed(),
        ensures
            i <= self.levels@.len(),
            forall|j: int| 0 <= j < i ==> self.levels@[j].price < price,
            i < self.levels@.len() ==> self.levels@[i as int].price >= price,
    {
        let mut lo: usize = 0;
        let mut hi: usize = self.levels.len();
        while lo < hi
            invariant
                self.well_formed(),
                lo <= hi <= self.levels@.len(),
                forall|j: int| 0 <= j < lo ==> self.levels@[j].price < price,
                forall|j: int| hi <= j < self.levels@.len() ==> self.levels@[j].price >= price,
            decreases hi - lo,
        {
            let mid = lo + (hi - lo) / 2;
            if self.levels[mid].price < price {
                proof {
                    assert forall|j: int| 0 <= j < mid + 1 implies self.levels@[j].price
                        < price by {
                        if j < mid {
                            assert(self.levels@[j].price < self.levels@[mid as int].price);
                        }
                    }
                }
                lo = mid + 1;
            } else {
                proof {
                    assert forall|j: int| mid <= j < self.levels@.len() implies self.levels@[j].price
                        >= price by {
                        if mid < j {
                            assert(self.levels@[mid as int].price < self.levels@[j].price);
                        }
                    }
                }
                hi = mid;
            }
        }
        lo
    }

    /// Removes the entry at `price` if present; a no-op if absent.
    pub fn remove(&mut self, price: u64)
        requires
            old(self).well_formed(),
        ensures
            final(self).well_formed(),
            final(self).side() == old(self).side(),
            final(self)@ == old(self)@.remove(price),
    {
        let i = self.position_for(price);
        if i < self.levels.len() && self.levels[i].price == price {
            proof {
                lemma_map_of_remove(self.levels@, i as int);
            }
            self.levels.remove(i);
        } else {
            proof {
                assert forall|j: int| 0 <= j < self.levels@.len() implies self.levels@[j].price
                    != price by {
                    if j >= i {
                        assert(self.levels@[i as int].price <= self.levels@[j].price);
                    }
                }
                lemma_map_absent(self.levels@, price);
            }
        }
    }

    /// Inserts or overwrites the entry at `price`; a zero quantity is
    /// normalized to a delete.
    pub fn upsert(&mut self, price: u64, quantity: u64)
        requires
            old(self).well_formed(),
        ensures
            final(self).well_formed(),
            final(self).side() == old(self).side(),
            quantity == 0 ==> final(self)@ == old(self)@.remove(price),
            quantity > 0 ==> final(self)@ == old(self)@.insert(price, quantity),
    {
        let ghost m0 = self@;
        self.remove(price);
        if quantity > 0 {
            let i = self.position_for(price);
            proof {
                assert(!self@.contains_key(price));
                assert forall|j: int| i <= j < self.levels@.len() implies self.levels@[j].price
                    > price by {
                    assert(self.levels@[i as int].price <= self.levels@[j].price);
                    lemma_entry_in_map(self.levels@, j);
                }
                lemma_map_of_insert(self.levels@, i as int, PriceLevel { price, quantity });
            }
            self.levels.insert(i, PriceLevel { price, quantity });
            proof {
                assert(m0.remove(price).insert(price, quantity) =~= m0.insert(price, quantity));
            }
        }
    }

    /// Applies a list of level updates in list order: `New` and `Change`
    /// upsert, `Delete` removes, a later entry for the same price wins.
    pub fn apply_all(&mut self, updates: &Vec<LevelUpdate>)
        requires
            old(self).well_formed(),
        ensures
            final(self).well_formed(),
            final(self).side() == old(self).side(),
            final(self)@ == apply_updates(old(self)@, updates@),
    {
        let ghost m0 = self@;
        let mut i: usize = 0;
        while i < updates.len()
            invariant
                self.well_formed(),
                self.side() == old(self).side(),
                i <= updates@.len(),
                self@ == apply_updates(m0, updates@.take(i as int)),
            decreases updates@.len() - i,
        {
            let u = updates[i];
            match u.status {
                UpdateStatus::Delete => self.remove(u.price),
                UpdateStatus::New => self.upsert(u.price, u.quantity),
                UpdateStatus::Change => self.upsert(u.price, u.quantity),
            }
            proof {
                assert(updates@.take(i + 1).drop_last() =~= updates@.take(i as int));
                assert(updates@.take(i + 1).last() == updates@[i as int]);
            }
            i = i + 1;
        }
        proof {
            assert(updates@.take(updates@.len() as int) =~= updates@);
        }
    }

    /// The best level: the highest price on the bid side, the lowest on
    /// the ask side; `None` exactly when the side is empty.
    pub fn best(&self) -> (r: Option<PriceLevel>)
        requires
            self.well_formed(),
        ensures
            is_best_of(self@, self.side(), r),
    {
        if self.levels.len() == 0 {
            None
        } else {
            let idx: usize = match self.side {
                Side::Bid => self.levels.len() - 1,
                Side::Ask => 0,
            };
            let pl = self.levels[idx];
            proof {
                lemma_entry_in_map(self.levels@, idx as int);
                assert forall|p: u64| #[trigger] self@.contains_key(p) implies at_least_as_good(
                    self.side,
                    pl.price,
                    p,
                ) by {
                    let j = choose|j: int|
                        0 <= j < self.levels@.len() && self.levels@[j].price == p;
                    assert(self.levels@[j].price == p);
                }
            }
            Some(pl)
        }
    }

    /// The full ordered view of the side, best price first.
    pub fn depth(&self) -> (r: Vec<PriceLevel>)
        requires
            self.well_formed(),
        ensures
            is_depth_of(self@, self.side(), r@),
    {
        let ghost s = self.levels@;
        let n = self.levels.len();
        let mut r: Vec<PriceLevel> = Vec::new();
        match self.side {
            Side::Ask => {
                let mut i: usize = 0;
                while i < n
                    invariant
                        n == s.len(),
                        s == self.levels@,
                        i <= n,
                        r@ == s.take(i as int),
                    decreases n - i,
                {
                    r.push(self.levels[i]);
                    proof {
                        assert(r@ =~= s.take(i + 1));
                    }
                    i = i + 1;
                }
                proof {
                    assert(r@ =~= s);
                }
            },
            Side::Bid => {
                let mut i: usize = n;
                while i > 0
                    invariant
                        n == s.len(),
                        s == self.levels@,
                        i <= n,
                        r@.len() == n - i,
                        forall|k: int| 0 <= k < r@.len() ==> #[trigger] r@[k] == s[n - 1 - k],
                    decreases i,
                {
                    i = i - 1;
                    r.push(self.levels[i]);
                }
            },
        }
        proof {
            assert forall|k: int| 0 <= k < r@.len() implies self@.contains_key(
                #[trigger] r@[k].price,
            ) && self@[r@[k].price] == r@[k].quantity by {
                let orig: int = if self.side is Ask {
                    k
                } else {
                    s.len() - 1 - k
                };
                assert(r@[k] == s[orig]);
                lemma_entry_in_map(s, orig);
            }
            assert forall|p: u64| #[trigger] self@.contains_key(p) implies exists|k: int|
                0 <= k < r@.len() && r@[k].price == p by {
                let j = choose|j: int| 0 <= j < s.len() && s[j].price == p;
                let k: int = if self.side is Ask {
                    j
                } else {
                    s.len() - 1 - j
                };
                assert(r@[k].price == p);
            }
        }
        r
    }
}

} // verus!
