//! Verified core of a playlist-transfer tool for a streaming music service.
//!
//! The library holds the logic worth proving: the credential lifecycle
//! (storage, expiry, refresh decisions), the sync engine (snapshot models,
//! transfer planning, deduplication, batched execution with per-item
//! failure isolation), and the state machine behind the interactive
//! account picker. All I/O — the network calls, the terminal — lives in
//! the surrounding application, which hands this crate plain values.

pub mod auth;
pub mod client;
pub mod credentials;
pub mod laws;
pub mod library;
pub mod sync;
pub mod errors;
pub mod tui;
