//! Leaderboard reconciliation library for a score-tracking chat bot.
//!
//! The core is a pure reconciliation engine: it turns a ranked list of
//! (identity, score) pairs, the resolution outcome for each identity, and a
//! snapshot of the current role holders into a display text, a set of role
//! grants, a set of role revokes, and a message action.  All network I/O
//! (score store queries, member lookups, role edits, message edits) lives
//! outside the library; the library receives their results as plain values
//! and decides what must happen next.

pub mod api;
pub mod commands;
pub mod config;
pub mod engine;
pub mod numfmt;
pub mod render;
pub mod store;
