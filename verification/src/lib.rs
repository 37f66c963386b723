//! An event-sourced collaborative notebook core.
//!
//! The crate keeps an append-only, per-aggregate versioned event log, folds
//! the log deterministically into a notebook projection (documents, cells,
//! outputs), and assigns cells conflict-free ordering keys through a
//! fractional-index algebra.

pub mod broadcast;
pub mod client;
pub mod decode;
pub mod document;
pub mod event;
pub mod events_util;
pub mod fractional_index;
pub mod materializer;
pub mod projection;
pub mod server_core;
pub mod store;
pub mod strutil;
pub mod value;
