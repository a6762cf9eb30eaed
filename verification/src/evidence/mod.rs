//! Measurement tickets, terminal receipts and their bounded retention.

pub mod submission;
pub mod receipts;
pub mod ring;
pub mod compatibility;
pub mod terminal_queue;
pub mod keyed;
pub mod ledger;
pub mod producer_queue;
pub mod store;
pub mod plan;
pub mod presentation;
pub mod session;
pub mod publication;
pub mod producer_lane;
