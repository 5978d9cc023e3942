//! The order book: two price-level maps plus the last applied sequence
//! number, mutated only by whole snapshots and by deltas that chain to
//! the current sequence.

use vstd::prelude::*;

use crate::level_map::PriceLevelMap;
use crate::level_map::is_best_of;
use crate::level_map::is_depth_of;
use crate::messages::Delta;
use crate::messages::PriceLevel;
use crate::messages::Side;
use crate::messages::Snapshot;
use crate::messages::apply_updates;

verus! {

/// Why a delta was rejected: it was built from sequence `got`, but the
/// book's last applied sequence is `expected`.
#[derive(Clone, Copy, Debug, PartialEq, Eq, Structural)]
pub struct SequenceGap {
    pub expected: u64,
    pub got: u64,
}

/// The mathematical content of an order book: one price -> quantity map
/// per side, and the sequence number of the last applied message.
#[verifier::ext_equal]
pub struct BookModel {
    pub bids: Map<u64, u64>,
    pub asks: Map<u64, u64>,
    pub last_sequence: u64,
}

/// The book a snapshot denotes: each side built by applying the listed
/// levels in list order into an empty map.
pub open spec fn snapshot_model(s: Snapshot) -> BookModel {
    BookModel {
        bids: apply_updates(Map::<u64, u64>::empty(), s.bids@),
        asks: apply_updates(Map::<u64, u64>::empty(), s.asks@),
        last_sequence: s.sequence,
    }
}

/// A delta chains to a book exactly when it was built from the book's
/// last applied sequence.
pub open spec fn delta_chains(b: BookModel, d: Delta) -> bool {
    d.prev_sequence == b.last_sequence
}

/// The book after an accepted delta: both update lists applied in list
/// order, then the sequence advanced to the delta's.
pub open spec fn delta_model(b: BookModel, d: Delta) -> BookModel {
    BookModel {
        bids: apply_updates(b.bids, d.bids@),
        asks: apply_updates(b.asks, d.asks@),
        last_sequence: d.sequence,
    }
}

/// The map of the given side of a book.
pub open spec fn side_of(b: BookModel, side: Side) -> Map<u64, u64> {
    match side {
        Side::Bid => b.bids,
        Side::Ask => b.asks,
    }
}

/// The local replica of one instrument's book.
pub struct OrderBook {
    bids: PriceLevelMap,
    asks: PriceLevelMap,
    last_sequence: u64,
}

impl View for OrderBook {
    type V = BookModel;

    closed spec fn view(&self) -> BookModel {
        BookModel { bids: self.bids@, asks: self.asks@, last_sequence: self.last_sequence }
    }
}

impl OrderBook {
    /// Representation invariant: each side well formed and on its side.
    pub closed spec fn well_formed(&self) -> bool {
        &&& self.bids.well_formed() && self.bids.side() == Side::Bid
        &&& self.asks.well_formed() && self.asks.side() == Side::Ask
    }

    /// An empty, uninitialized book at sequence zero.
    pub fn new() -> (r: OrderBook)
        ensures
            r.well_formed(),
            r@.bids == Map::<u64, u64>::empty(),
            r@.asks == Map::<u64, u64>::empty(),
            r@.last_sequence == 0,
    {
        OrderBook {
            bids: PriceLevelMap::new(Side::Bid),
            asks: PriceLevelMap::new(Side::Ask),
            last_sequence: 0,
        }
    }

    /// Replaces both sides wholesale from the snapshot's level lists and
    /// sets the sequence to the snapshot's. Always succeeds.
    pub fn apply_snapshot(&mut self, s: &Snapshot)
        requires
            old(self).well_formed(),
        ensures
            final(self).well_formed(),
            final(self)@ == snapshot_model(*s),
    {
        self.bids = PriceLevelMap::new(Side::Bid);
        self.asks = PriceLevelMap::new(Side::Ask);
        self.bids.apply_all(&s.bids);
        self.asks.apply_all(&s.asks);
        self.last_sequence = s.sequence;
    }

    /// Applies a delta if and only if it chains to the book's last
    /// applied sequence; on a gap the book is left untouched.
    pub fn apply_delta(&mut self, d: &Delta) -> (r: Result<(), SequenceGap>)
        requires
            old(self).well_formed(),
        ensures
            final(self).well_formed(),
            delta_chains(old(self)@, *d) ==> r == Ok::<(), SequenceGap>(()) && final(self)@
                == delta_model(old(self)@, *d),
            !delta_chains(old(self)@, *d) ==> r == Err::<(), SequenceGap>(
                SequenceGap { expected: old(self)@.last_sequence, got: d.prev_sequence },
            ) && *final(self) == *old(self),
    {
        if d.prev_sequence != self.last_sequence {
            Err(SequenceGap { expected: self.last_sequence, got: d.prev_sequence })
        } else {
            self.bids.apply_all(&d.bids);
            self.asks.apply_all(&d.asks);
            self.last_sequence = d.sequence;
            Ok(())
        }
    }

    /// The best bid: the highest-priced bid level, if any.
    pub fn best_bid(&self) -> (r: Option<PriceLevel>)
        requires
            self.well_formed(),
        ensures
            is_best_of(self@.bids, Side::Bid, r),
    {
        self.bids.best()
    }

    /// The best ask: the lowest-priced ask level, if any.
    pub fn best_ask(&self) -> (r: Option<PriceLevel>)
        requires
            self.well_formed(),
        ensures
            is_best_of(self@.asks, Side::Ask, r),
    {
        self.asks.best()
    }

    /// The full ordered view of one side, best price first.
    pub fn depth(&self, side: Side) -> (r: Vec<PriceLevel>)
        requires
            self.well_formed(),
        ensures
            is_depth_of(side_of(self@, side), side, r@),
    {
        match side {
            Side::Bid => self.bids.depth(),
            Side::Ask => self.asks.depth(),
        }
    }

    /// The sequence number of the last applied snapshot or delta.
    pub fn last_sequence(&self) -> (r: u64)
        ensures
            r == self@.last_sequence,
    {
        self.last_sequence
    }
}

/// Causal-order application. From a book at some sequence, a first delta
/// built from that sequence and a second built from the first's result
/// chain exactly in that order: applied in causal order both are
/// accepted, while the second delta alone does not chain to the original
/// book, so `apply_delta` rejects it there and leaves the book at its
/// original sequence.
pub proof fn lemma_causal_order(b: BookModel, d1: Delta, d2: Delta)
    requires
        delta_chains(b, d1),
        d2.prev_sequence == d1.sequence,
        d1.sequence != b.last_sequence,
    ensures
        delta_chains(delta_model(b, d1), d2),
        delta_model(delta_model(b, d1), d2).last_sequence == d2.sequence,
        !delta_chains(b, d2),
{
}

/// The last applied sequence strictly increases across accepted deltas,
/// as long as the feed builds each delta from an earlier sequence than
/// the one it announces.
pub proof fn lemma_sequence_advances(b: BookModel, d: Delta)
    requires
        delta_chains(b, d),
        d.sequence > d.prev_sequence,
    ensures
        delta_model(b, d).last_sequence > b.last_sequence,
{
}

} // verus!
