//! My Codex: the verified core of a local-first Codex companion.
//!
//! The library holds the rules that decide what the companion shows: token
//! arithmetic, settings validation, the privacy-preserving session parser,
//! quota classification, refresh scheduling and notification thresholds.
//! Windows, trays, SQLite and child processes live in the application crate.
pub mod analytics;
pub mod text;
pub mod error;
pub mod settings;
pub mod quota;
pub mod wire;
pub mod skills;
pub mod json;
pub mod order;
pub mod record;
pub mod members;
pub mod digest;
pub mod paths;
pub mod session;
pub mod ingest;
pub mod schedule;
pub mod alerts;
pub mod desktop;
