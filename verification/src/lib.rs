//! Client-side session and timeline core for a federated messaging client.
//!
//! The crate holds the logic a graphical client builds on: the login state
//! machine, the sync-cursor bookkeeping, the room registry for the sidebar,
//! and the reconciliation of the active room's timeline against live,
//! backfilled and locally optimistic events. Network transport, rendering and
//! file handling stay with the caller; the functions here decide, over plain
//! values, what each observed event does to the state.

pub mod bg;
pub mod config;
pub mod data;
pub mod ui;
pub mod util;
