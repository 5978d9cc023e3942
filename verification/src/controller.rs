//! The reconciliation controller: a state machine driving snapshot
//! acquisition and delta application, detecting sequence gaps and
//! triggering resynchronization within a bounded retry budget.

use vstd::prelude::*;

use crate::book::BookModel;
use crate::book::OrderBook;
use crate::book::delta_chains;
use crate::book::delta_model;
use crate::book::side_of;
use crate::book::snapshot_model;
use crate::level_map::is_best_of;
use crate::level_map::is_depth_of;
use crate::messages::Delta;
use crate::messages::PriceLevel;
use crate::messages::Side;
use crate::messages::Snapshot;

verus! {

/// Where the controller stands in its lifecycle. Resynchronization is
/// `AwaitingSnapshot` re-entered from `Live` with a positive count of
/// consecutive resyncs.
#[derive(Clone, Copy, Debug, PartialEq, Eq, Structural)]
pub enum ControllerState {
    Uninitialized,
    AwaitingSnapshot,
    Live,
    Halted,
}

/// What the controller asks its surroundings to do after an event.
#[derive(Clone, Copy, Debug, PartialEq, Eq, Structural)]
pub enum Action {
    /// Keep consuming the stream.
    Continue,
    /// Request the first snapshot of a fresh subscription.
    RequestSnapshot,
    /// The book was discarded: request a fresh snapshot and mark any
    /// rendered state as stale.
    Resync,
}

/// Fatal failure: the configured number of consecutive resyncs passed
/// without a stable live period; the engine halts rather than retrying
/// forever.
#[derive(Clone, Copy, Debug, PartialEq, Eq, Structural)]
pub struct DesynchronizationExceeded {
    /// How many consecutive resyncs had already been attempted.
    pub resyncs: u64,
}

/// Tuning knobs of the controller.
#[derive(Clone, Copy, Debug, PartialEq, Eq, Structural)]
pub struct ControllerConfig {
    /// How many consecutive resyncs are tolerated before the controller
    /// reports `DesynchronizationExceeded`. The counter is reset by a
    /// delta applied successfully while live.
    pub max_consecutive_resyncs: u64,
    /// How many deltas may be buffered while a snapshot is awaited, the
    /// oldest dropped on overflow; zero means such deltas are discarded.
    pub max_buffered_deltas: usize,
}

/// One record handed in by the surroundings: a decoded message, a
/// record that failed to decode, or a failure of the feed itself.
pub enum FeedEvent {
    SnapshotArrived(Snapshot),
    DeltaArrived(Delta),
    DecodeFailed,
    FeedUnavailable,
}

/// The mathematical state of the controller.
#[verifier::ext_equal]
pub struct ControllerModel {
    pub state: ControllerState,
    /// The replica: absent until a snapshot is applied, and between a
    /// detected gap and the next snapshot.
    pub book: Option<BookModel>,
    pub consecutive_resyncs: u64,
    /// Deltas buffered while a snapshot is awaited, oldest first.
    pub pending: Seq<Delta>,
    pub config: ControllerConfig,
}

/// Replays buffered deltas in arrival order: each one that chains to
/// the book reached so far is applied, the rest are dropped as stale.
pub open spec fn replay_deltas(b: BookModel, ds: Seq<Delta>) -> BookModel
    decreases ds.len(),
{
    if ds.len() == 0 {
        b
    } else {
        let prev = replay_deltas(b, ds.drop_last());
        if delta_chains(prev, ds.last()) {
            delta_model(prev, ds.last())
        } else {
            prev
        }
    }
}

/// A gap or a feed failure: the book is discarded and a fresh snapshot
/// requested, unless the resync budget is already exhausted, in which
/// case the controller halts with `DesynchronizationExceeded`.
pub open spec fn resync_step(m: ControllerModel) -> (ControllerModel, Result<
    Action,
    DesynchronizationExceeded,
>) {
    if m.consecutive_resyncs >= m.config.max_consecutive_resyncs {
        (
            ControllerModel {
                state: ControllerState::Halted,
                book: None,
                consecutive_resyncs: m.consecutive_resyncs,
                pending: Seq::<Delta>::empty(),
                config: m.config,
            },
            Err(DesynchronizationExceeded { resyncs: m.consecutive_resyncs }),
        )
    } else {
        (
            ControllerModel {
                state: ControllerState::AwaitingSnapshot,
                book: None,
                consecutive_resyncs: (m.consecutive_resyncs + 1) as u64,
                pending: m.pending,
                config: m.config,
            },
            Ok(Action::Resync),
        )
    }
}

/// The buffer after a delta arrives while a snapshot is awaited: kept
/// in arrival order, bounded by the configured size, oldest dropped on
/// overflow; with a zero bound the delta is discarded.
pub open spec fn buffered_pending(m: ControllerModel, d: Delta) -> Seq<Delta> {
    if m.config.max_buffered_deltas == 0 {
        m.pending
    } else if m.pending.len() < m.config.max_buffered_deltas {
        m.pending.push(d)
    } else {
        m.pending.drop_first().push(d)
    }
}

/// The transition relation of the controller: from a state and an event
/// to the next state and the result handed back to the caller. Defined
/// for the states in which events are consumed (`Live` and
/// `AwaitingSnapshot`).
pub open spec fn step_model(m: ControllerModel, ev: FeedEvent) -> (ControllerModel, Result<
    Action,
    DesynchronizationExceeded,
>) {
    match ev {
        FeedEvent::SnapshotArrived(s) => (
            ControllerModel {
                state: ControllerState::Live,
                book: Some(replay_deltas(snapshot_model(s), m.pending)),
                consecutive_resyncs: m.consecutive_resyncs,
                pending: Seq::<Delta>::empty(),
                config: m.config,
            },
            Ok(Action::Continue),
        ),
        FeedEvent::DeltaArrived(d) => match m.state {
            ControllerState::Live => {
                if delta_chains(m.book->Some_0, d) {
                    (
                        ControllerModel {
                            state: ControllerState::Live,
                            book: Some(delta_model(m.book->Some_0, d)),
                            consecutive_resyncs: 0,
                            pending: m.pending,
                            config: m.config,
                        },
                        Ok(Action::Continue),
                    )
                } else {
                    resync_step(m)
                }
            },
            _ => (
                ControllerModel {
                    state: m.state,
                    book: m.book,
                    consecutive_resyncs: m.consecutive_resyncs,
                    pending: buffered_pending(m, d),
                    config: m.config,
                },
                Ok(Action::Continue),
            ),
        },
        FeedEvent::DecodeFailed => (m, Ok(Action::Continue)),
        FeedEvent::FeedUnavailable => resync_step(m),
    }
}

/// Drives one order book from a stream of feed events, validating the
/// sequencing of every delta and resynchronizing on gaps.
pub struct ReconciliationController {
    config: ControllerConfig,
    state: ControllerState,
    book: OrderBook,
    book_present: bool,
    consecutive_resyncs: u64,
    pending: Vec<Delta>,
}

impl ReconciliationController {
    /// The controller's mathematical state.
    pub closed spec fn model(&self) -> ControllerModel {
        ControllerModel {
            state: self.state,
            book: if self.book_present {
                Some(self.book@)
            } else {
                None
            },
            consecutive_resyncs: self.consecutive_resyncs,
            pending: self.pending@,
            config: self.config,
        }
    }

    /// Representation invariant: the book is present exactly while
    /// live, deltas are buffered only while a snapshot is awaited and
    /// within the configured bound, and the resync counter never
    /// exceeds its budget.
    pub closed spec fn well_formed(&self) -> bool {
        &&& self.book.well_formed()
        &&& self.book_present <==> self.state is Live
        &&& self.pending@.len() <= self.config.max_buffered_deltas
        &&& self.state is Live ==> self.pending@.len() == 0
        &&& self.consecutive_resyncs <= self.config.max_consecutive_resyncs
    }

    /// A controller that has not yet been started.
    pub fn new(config: ControllerConfig) -> (r: ReconciliationController)
        ensures
            r.well_formed(),
            r.model() == (ControllerModel {
                state: ControllerState::Uninitialized,
                book: None,
                consecutive_resyncs: 0,
                pending: Seq::<Delta>::empty(),
                config,
            }),
    {
        let r = ReconciliationController {
            config,
            state: ControllerState::Uninitialized,
            book: OrderBook::new(),
            book_present: false,
            consecutive_resyncs: 0,
            pending: Vec::new(),
        };
        proof {
            assert(r.model().pending =~= Seq::<Delta>::empty());
            assert(r.model() =~~= (ControllerModel {
                state: ControllerState::Uninitialized,
                book: None,
                consecutive_resyncs: 0,
                pending: Seq::<Delta>::empty(),
                config,
            }));
        }
        r
    }

    /// Starts the controller: it moves to awaiting its first snapshot
    /// and asks the surroundings to request one.
    pub fn start(&mut self) -> (r: Action)
        requires
            old(self).well_formed(),
            old(self).model().state is Uninitialized,
        ensures
            final(self).well_formed(),
            final(self).model() == (ControllerModel {
                state: ControllerState::AwaitingSnapshot,
                ..old(self).model()
            }),
            r == Action::RequestSnapshot,
    {
        self.state = ControllerState::AwaitingSnapshot;
        Action::RequestSnapshot
    }

    /// The book was discarded after a gap or a feed failure: count the
    /// resync against the budget and either re-request a snapshot or
    /// halt with `DesynchronizationExceeded`.
    fn trigger_resync(&mut self) -> (r: Result<Action, DesynchronizationExceeded>)
        requires
            old(self).well_formed(),
        ensures
            final(self).well_formed(),
            final(self).model() == resync_step(old(self).model()).0,
            r == resync_step(old(self).model()).1,
    {
        self.book = OrderBook::new();
        self.book_present = false;
        if self.consecutive_resyncs >= self.config.max_consecutive_resyncs {
            self.state = ControllerState::Halted;
            self.pending = Vec::new();
            proof {
                assert(self.model().pending =~= Seq::<Delta>::empty());
                assert(self.model() =~~= resync_step(old(self).model()).0);
            }
            Err(DesynchronizationExceeded { resyncs: self.consecutive_resyncs })
        } else {
            self.state = ControllerState::AwaitingSnapshot;
            self.consecutive_resyncs = self.consecutive_resyncs + 1;
            proof {
                assert(self.model() =~~= resync_step(old(self).model()).0);
            }
            Ok(Action::Resync)
        }
    }

    /// Consumes one feed event and fully applies its effect before the
    /// next: exactly the transition `step_model` describes.
    pub fn handle_event(&mut self, ev: FeedEvent) -> (r: Result<
        Action,
        DesynchronizationExceeded,
    >)
        requires
            old(self).well_formed(),
            old(self).model().state is Live || old(self).model().state is AwaitingSnapshot,
        ensures
            final(self).well_formed(),
            final(self).model() == step_model(old(self).model(), ev).0,
            r == step_model(old(self).model(), ev).1,
    {
        let ghost pre = self.model();
        let ghost ev0 = ev;
        match ev {
            FeedEvent::SnapshotArrived(s) => {
                self.book.apply_snapshot(&s);
                self.book_present = true;
                let ghost base = snapshot_model(s);
                let mut i: usize = 0;
                while i < self.pending.len()
                    invariant
                        self.book.well_formed(),
                        self.book_present,
                        self.state == pre.state,
                        self.config == pre.config,
                        self.consecutive_resyncs == pre.consecutive_resyncs,
                        i <= self.pending@.len(),
                        self.pending@ == pre.pending,
                        self.book@ == replay_deltas(base, self.pending@.take(i as int)),
                    decreases self.pending@.len() - i,
                {
                    proof {
                        assert(self.pending@.take(i + 1).drop_last() =~= self.pending@.take(
                            i as int,
                        ));
                        assert(self.pending@.take(i + 1).last() == self.pending@[i as int]);
                    }
                    let _ = self.book.apply_delta(&self.pending[i]);
                    i = i + 1;
                }
                proof {
                    assert(self.pending@.take(self.pending@.len() as int) =~= self.pending@);
                }
                self.pending = Vec::new();
                self.state = ControllerState::Live;
                proof {
                    assert(self.model().pending =~= Seq::<Delta>::empty());
                    assert(self.model() =~~= step_model(pre, ev0).0);
                }
                Ok(Action::Continue)
            },
            FeedEvent::DeltaArrived(d) => {
                if self.book_present {
                    let applied = self.book.apply_delta(&d);
                    match applied {
                        Ok(_) => {
                            self.consecutive_resyncs = 0;
                            proof {
                                assert(self.model() =~~= step_model(pre, ev0).0);
                            }
                            Ok(Action::Continue)
                        },
                        Err(_) => {
                            let r = self.trigger_resync();
                            proof {
                                assert(self.model() =~~= step_model(pre, ev0).0);
                            }
                            r
                        },
                    }
                } else {
                    if self.config.max_buffered_deltas > 0 {
                        if self.pending.len() >= self.config.max_buffered_deltas {
                            self.pending.remove(0);
                            self.pending.push(d);
                            proof {
                                assert(pre.pending.drop_first() =~= self.model().pending.drop_last(
                                ));
                                assert(self.model().pending =~= buffered_pending(pre, ev0->DeltaArrived_0));
                            }
                        } else {
                            self.pending.push(d);
                        }
                    }
                    proof {
                        assert(self.model() =~~= step_model(pre, ev0).0);
                    }
                    Ok(Action::Continue)
                }
            },
            FeedEvent::DecodeFailed => Ok(Action::Continue),
            FeedEvent::FeedUnavailable => self.trigger_resync(),
        }
    }

    /// A synchronous point-in-time read of the best bid and best ask;
    /// both absent while no complete book is held.
    pub fn current_best(&self) -> (r: (Option<PriceLevel>, Option<PriceLevel>))
        requires
            self.well_formed(),
        ensures
            self.model().book is None ==> r == (None::<PriceLevel>, None::<PriceLevel>),
            self.model().book matches Some(b) ==> is_best_of(b.bids, Side::Bid, r.0) && is_best_of(
                b.asks,
                Side::Ask,
                r.1,
            ),
    {
        if self.book_present {
            (self.book.best_bid(), self.book.best_ask())
        } else {
            (None, None)
        }
    }

    /// The full ordered view of one side, best price first; empty while
    /// no complete book is held.
    pub fn current_depth(&self, side: Side) -> (r: Vec<PriceLevel>)
        requires
            self.well_formed(),
        ensures
            self.model().book is None ==> r@ == Seq::<PriceLevel>::empty(),
            self.model().book matches Some(b) ==> is_depth_of(side_of(b, side), side, r@),
    {
        if self.book_present {
            self.book.depth(side)
        } else {
            let r: Vec<PriceLevel> = Vec::new();
            proof {
                assert(r@ =~= Seq::<PriceLevel>::empty());
            }
            r
        }
    }

    /// The sequence number the held book stands at, if one is held.
    pub fn book_sequence(&self) -> (r: Option<u64>)
        ensures
            r == (match self.model().book {
                Some(b) => Some(b.last_sequence),
                None => None::<u64>,
            }),
    {
        if self.book_present {
            Some(self.book.last_sequence())
        } else {
            None
        }
    }

    /// Where the controller stands in its lifecycle.
    pub fn state(&self) -> (r: ControllerState)
        ensures
            r == self.model().state,
    {
        self.state
    }

    /// How many consecutive resyncs have occurred without a delta
    /// applied successfully while live.
    pub fn resync_count(&self) -> (r: u64)
        ensures
            r == self.model().consecutive_resyncs,
    {
        self.consecutive_resyncs
    }
}

} // verus!
