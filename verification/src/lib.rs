//! Management of long-running, resumable file downloads: job records with a
//! small lifecycle state machine, a keyed job store, the decision logic of a
//! resumable byte-range transfer, and startup reconciliation of jobs left
//! behind by an unclean shutdown.
//!
//! The crate holds the decision and bookkeeping logic only. The surrounding
//! application supplies the HTTP client, the filesystem, durable persistence
//! of the store document, and the event channel, and drives the transfer loop
//! with the functions of [`engine`] and the synchronized writes of
//! [`manager::Download`].

pub mod engine;
pub mod error;
pub mod machine;
pub mod manager;
pub mod models;
pub mod reconcile;
pub mod store;
pub mod utils;
