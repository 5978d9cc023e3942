//! The records that the feed delivers, and the spec-level meaning of a
//! level update as an operation on a price -> quantity map.

use vstd::prelude::*;

verus! {

/// One side of the order book.
#[derive(Clone, Copy, Debug, PartialEq, Eq, Structural)]
pub enum Side {
    Bid,
    Ask,
}

/// The instruction carried by one level update.
///
/// `New` and `Change` both upsert; `Delete` removes the level.
#[derive(Clone, Copy, Debug, PartialEq, Eq, Structural)]
pub enum UpdateStatus {
    New,
    Change,
    Delete,
}

/// A (price, aggregate quantity) pair on one side of the book.
///
/// Prices and quantities are in integer ticks; a stored level always has
/// a positive quantity.
#[derive(Clone, Copy, Debug, PartialEq, Eq, Structural)]
pub struct PriceLevel {
    pub price: u64,
    pub quantity: u64,
}

/// A single instruction applied to one side's map.
#[derive(Clone, Copy, Debug, PartialEq, Eq, Structural)]
pub struct LevelUpdate {
    pub status: UpdateStatus,
    pub price: u64,
    pub quantity: u64,
}

/// The effect of one level update on a side's price -> quantity map.
///
/// A `Delete`, or an upsert with quantity zero, removes the price; any
/// other upsert inserts or overwrites it.
pub open spec fn apply_update(m: Map<u64, u64>, u: LevelUpdate) -> Map<u64, u64> {
    if u.status is Delete || u.quantity == 0 {
        m.remove(u.price)
    } else {
        m.insert(u.price, u.quantity)
    }
}

/// The effect of a list of level updates applied in list order: a later
/// entry for the same price wins.
pub open spec fn apply_updates(m: Map<u64, u64>, us: Seq<LevelUpdate>) -> Map<u64, u64>
    decreases us.len(),
{
    if us.len() == 0 {
        m
    } else {
        apply_update(apply_updates(m, us.drop_last()), us.last())
    }
}

/// A full-book message: the levels listed replace the entire side,
/// applied in list order into an empty map.
#[derive(Clone, Debug)]
pub struct Snapshot {
    pub sequence: u64,
    pub bids: Vec<LevelUpdate>,
    pub asks: Vec<LevelUpdate>,
}

/// An incremental message, valid only when `prev_sequence` equals the
/// book's last applied sequence.
#[derive(Clone, Debug)]
pub struct Delta {
    pub prev_sequence: u64,
    pub sequence: u64,
    pub bids: Vec<LevelUpdate>,
    pub asks: Vec<LevelUpdate>,
}

/// Applying the same level update twice in a row leaves the map exactly
/// as applying it once does.
pub proof fn lemma_apply_update_idempotent(m: Map<u64, u64>, u: LevelUpdate)
    ensures
        apply_update(apply_update(m, u), u) == apply_update(m, u),
{
    if u.status is Delete || u.quantity == 0 {
        assert(m.remove(u.price).remove(u.price) =~= m.remove(u.price));
    } else {
        assert(m.insert(u.price, u.quantity).insert(u.price, u.quantity) =~= m.insert(
            u.price,
            u.quantity,
        ));
    }
}

} // verus!
