//! Core of a music-library site builder: deterministic identifier
//! derivation, catalog aggregation from scanned source entries, and the
//! watch/rebuild supervision logic.

pub mod catalog;
pub mod ids;
pub mod watch;
