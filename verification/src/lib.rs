//! Local storage engine for a schema-versioned, sync-capable record store.
//!
//! The engine keeps each record as an overlay (local working copy) over a
//! mirror (last state known to be synchronized), tags overlay rows with a
//! sync status and a vector clock, and gates schema upgrades so that
//! incompatible transitions are refused instead of corrupting stored data.

pub mod error;
pub mod sync_status;
pub mod guid;
pub mod text;
pub mod records;
pub mod vclock;
pub mod schema;
pub mod meta;
pub mod upgrades;
pub mod version_req;
pub mod db;
pub mod bootstrap;
