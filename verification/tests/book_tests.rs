use orderbook::Delta;
use orderbook::LevelUpdate;
use orderbook::OrderBook;
use orderbook::PriceLevel;
use orderbook::PriceLevelMap;
use orderbook::SequenceGap;
use orderbook::Side;
use orderbook::Snapshot;
use orderbook::UpdateStatus;

fn upd(status: UpdateStatus, price: u64, quantity: u64) -> LevelUpdate {
    LevelUpdate { status, price, quantity }
}

#[test]
fn best_bid_is_highest_price() {
    let mut m = PriceLevelMap::new(Side::Bid);
    m.upsert(100, 2);
    m.upsert(101, 5);
    m.upsert(99, 1);
    assert_eq!(m.best(), Some(PriceLevel { price: 101, quantity: 5 }));
}

#[test]
fn best_ask_is_lowest_price() {
    let mut m = PriceLevelMap::new(Side::Ask);
    m.upsert(205, 3);
    m.upsert(200, 1);
    assert_eq!(m.best(), Some(PriceLevel { price: 200, quantity: 1 }));
}

#[test]
fn best_of_empty_side_is_none() {
    let m = PriceLevelMap::new(Side::Bid);
    assert_eq!(m.best(), None);
}

#[test]
fn change_applied_twice_equals_once() {
    let mut once = PriceLevelMap::new(Side::Bid);
    once.upsert(100, 2);
    once.upsert(101, 5);
    let mut twice = PriceLevelMap::new(Side::Bid);
    twice.upsert(100, 2);
    twice.upsert(101, 5);
    twice.upsert(101, 5);
    assert_eq!(once.depth(), twice.depth());
    assert_eq!(once.best(), twice.best());
}

#[test]
fn delete_removes_level() {
    let mut m = PriceLevelMap::new(Side::Bid);
    m.upsert(150, 4);
    m.remove(150);
    assert_eq!(m.best(), None);
    assert_eq!(m.depth(), Vec::new());
}

#[test]
fn delete_of_absent_price_is_noop() {
    let mut m = PriceLevelMap::new(Side::Bid);
    m.upsert(150, 4);
    m.remove(140);
    assert_eq!(m.depth(), vec![PriceLevel { price: 150, quantity: 4 }]);
}

#[test]
fn zero_quantity_upsert_deletes() {
    let mut m = PriceLevelMap::new(Side::Ask);
    m.upsert(150, 4);
    m.upsert(150, 0);
    assert_eq!(m.depth(), Vec::new());
}

#[test]
fn later_entry_for_same_price_wins() {
    let mut m = PriceLevelMap::new(Side::Bid);
    let updates = vec![
        upd(UpdateStatus::New, 100, 2),
        upd(UpdateStatus::Change, 100, 7),
    ];
    m.apply_all(&updates);
    assert_eq!(m.depth(), vec![PriceLevel { price: 100, quantity: 7 }]);
}

#[test]
fn depth_is_ordered_best_first() {
    let mut bid = PriceLevelMap::new(Side::Bid);
    bid.upsert(100, 2);
    bid.upsert(101, 5);
    bid.upsert(99, 1);
    assert_eq!(
        bid.depth(),
        vec![
            PriceLevel { price: 101, quantity: 5 },
            PriceLevel { price: 100, quantity: 2 },
            PriceLevel { price: 99, quantity: 1 },
        ]
    );
    let mut ask = PriceLevelMap::new(Side::Ask);
    ask.upsert(205, 3);
    ask.upsert(200, 1);
    assert_eq!(
        ask.depth(),
        vec![
            PriceLevel { price: 200, quantity: 1 },
            PriceLevel { price: 205, quantity: 3 },
        ]
    );
}

#[test]
fn snapshot_replaces_both_sides() {
    let mut book = OrderBook::new();
    book.apply_snapshot(&Snapshot {
        sequence: 7,
        bids: vec![upd(UpdateStatus::New, 90, 1)],
        asks: vec![upd(UpdateStatus::New, 110, 2)],
    });
    book.apply_snapshot(&Snapshot {
        sequence: 8,
        bids: vec![upd(UpdateStatus::New, 95, 3)],
        asks: vec![upd(UpdateStatus::New, 105, 4)],
    });
    assert_eq!(book.last_sequence(), 8);
    assert_eq!(book.best_bid(), Some(PriceLevel { price: 95, quantity: 3 }));
    assert_eq!(book.best_ask(), Some(PriceLevel { price: 105, quantity: 4 }));
    assert_eq!(book.depth(Side::Bid).len(), 1);
    assert_eq!(book.depth(Side::Ask).len(), 1);
}

#[test]
fn matching_delta_is_accepted_and_advances_sequence() {
    let mut book = OrderBook::new();
    book.apply_snapshot(&Snapshot {
        sequence: 10,
        bids: vec![upd(UpdateStatus::New, 100, 2)],
        asks: vec![],
    });
    let r = book.apply_delta(&Delta {
        prev_sequence: 10,
        sequence: 11,
        bids: vec![upd(UpdateStatus::Change, 100, 9)],
        asks: vec![upd(UpdateStatus::New, 120, 1)],
    });
    assert_eq!(r, Ok(()));
    assert_eq!(book.last_sequence(), 11);
    assert_eq!(book.best_bid(), Some(PriceLevel { price: 100, quantity: 9 }));
    assert_eq!(book.best_ask(), Some(PriceLevel { price: 120, quantity: 1 }));
}

#[test]
fn gapped_delta_is_rejected_without_mutation() {
    let mut book = OrderBook::new();
    book.apply_snapshot(&Snapshot {
        sequence: 10,
        bids: vec![upd(UpdateStatus::New, 100, 2)],
        asks: vec![],
    });
    let r = book.apply_delta(&Delta {
        prev_sequence: 9,
        sequence: 11,
        bids: vec![upd(UpdateStatus::Change, 100, 9)],
        asks: vec![],
    });
    assert_eq!(r, Err(SequenceGap { expected: 10, got: 9 }));
    assert_eq!(book.last_sequence(), 10);
    assert_eq!(book.best_bid(), Some(PriceLevel { price: 100, quantity: 2 }));
}

#[test]
fn causal_order_succeeds_out_of_order_fails() {
    let d_10_11 = Delta {
        prev_sequence: 10,
        sequence: 11,
        bids: vec![upd(UpdateStatus::New, 101, 5)],
        asks: vec![],
    };
    let d_11_12 = Delta {
        prev_sequence: 11,
        sequence: 12,
        bids: vec![upd(UpdateStatus::New, 102, 6)],
        asks: vec![],
    };
    let snap = Snapshot { sequence: 10, bids: vec![upd(UpdateStatus::New, 100, 2)], asks: vec![] };

    let mut in_order = OrderBook::new();
    in_order.apply_snapshot(&snap);
    assert_eq!(in_order.apply_delta(&d_10_11), Ok(()));
    assert_eq!(in_order.apply_delta(&d_11_12), Ok(()));
    assert_eq!(in_order.last_sequence(), 12);
    assert_eq!(in_order.best_bid(), Some(PriceLevel { price: 102, quantity: 6 }));

    let mut out_of_order = OrderBook::new();
    out_of_order.apply_snapshot(&snap);
    assert_eq!(
        out_of_order.apply_delta(&d_11_12),
        Err(SequenceGap { expected: 10, got: 11 })
    );
    assert_eq!(out_of_order.last_sequence(), 10);
    assert_eq!(out_of_order.best_bid(), Some(PriceLevel { price: 100, quantity: 2 }));
}

#[test]
fn delete_inside_delta_removes_level() {
    let mut book = OrderBook::new();
    book.apply_snapshot(&Snapshot {
        sequence: 1,
        bids: vec![upd(UpdateStatus::New, 150, 4), upd(UpdateStatus::New, 149, 2)],
        asks: vec![],
    });
    let r = book.apply_delta(&Delta {
        prev_sequence: 1,
        sequence: 2,
        bids: vec![upd(UpdateStatus::Delete, 150, 0)],
        asks: vec![],
    });
    assert_eq!(r, Ok(()));
    assert_eq!(book.best_bid(), Some(PriceLevel { price: 149, quantity: 2 }));
}
