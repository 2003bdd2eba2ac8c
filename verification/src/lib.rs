//! Analytical core for a real-time match assistant fed by periodic game-state
//! snapshots. The library keeps bounded per-entity position histories, diffs
//! consecutive snapshots into discrete events, classifies engagement activity
//! over sliding time windows, tracks rolling performance metrics, and composes
//! advisory text from all of these. Every function is specified and verified;
//! the surrounding process (HTTP ingestion, rendering) lives outside.

pub mod fights;
pub mod geom;
pub mod insights;
pub mod metrics;
pub mod snapshot;
pub mod text;
pub mod tracker;
