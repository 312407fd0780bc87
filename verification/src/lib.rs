//! Aggregation and view selection for a small list-sharing service.
//!
//! Users own named lists of items and befriend other users. This crate holds
//! the read-only logic that shapes stored records into view models: the
//! batched join behind the dashboard, the resolution of a single list with its
//! owner and items, and the choice between a fragment and a full page.
//!
//! The record store is not reached from here. Each aggregation is a small
//! machine that names the next read it needs as a [`Query`] and is handed the
//! store's [`Reply`]; the caller performs the reads.

pub mod dashboard;
pub mod ident;
pub mod records;
pub mod resolver;
pub mod selector;
pub mod store;
pub mod trace;
pub mod views;

pub use ident::RecordId;
pub use records::{AccessLevel, Friendship, List, ListItem, PrivacyLevel, Theme, Timestamp, User};
pub use store::{Failure, Query, Reply, Step};
