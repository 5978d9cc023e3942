//! A verified local replica of a remote exchange's price-level order book.
//!
//! The book is built from a full snapshot followed by a stream of
//! incremental deltas. Each delta names the sequence number it was built
//! from; a delta that does not chain to the book's last applied sequence
//! is a gap, and the replica must be resynchronized from a fresh snapshot.

mod book;
mod controller;
mod level_map;
mod messages;

pub use book::BookModel;
pub use book::OrderBook;
pub use book::SequenceGap;
pub use book::delta_chains;
pub use book::delta_model;
pub use book::lemma_causal_order;
pub use book::lemma_sequence_advances;
pub use book::side_of;
pub use book::snapshot_model;
pub use controller::Action;
pub use controller::ControllerConfig;
pub use controller::ControllerModel;
pub use controller::ControllerState;
pub use controller::DesynchronizationExceeded;
pub use controller::FeedEvent;
pub use controller::ReconciliationController;
pub use controller::buffered_pending;
pub use controller::replay_deltas;
pub use controller::resync_step;
pub use controller::step_model;
pub use level_map::PriceLevelMap;
pub use level_map::at_least_as_good;
pub use level_map::is_best_of;
pub use level_map::is_depth_of;
pub use messages::Delta;
pub use messages::LevelUpdate;
pub use messages::PriceLevel;
pub use messages::Side;
pub use messages::Snapshot;
pub use messages::UpdateStatus;
pub use messages::apply_update;
pub use messages::apply_updates;
pub use messages::lemma_apply_update_idempotent;
