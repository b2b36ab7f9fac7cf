//! Core of a concurrent network prober: per-target round-trip-time records
//! with bounded sample history, derived statistics, a shared metrics table
//! updated by replacement-on-match, and the decision logic of a probe loop
//! with global cooperative cancellation.
//!
//! All round-trip times are carried as whole microseconds; loss rates are
//! carried as hundredths of a percent. Everything here is pure computation:
//! the sockets, timers, terminal and task plumbing live with the caller,
//! which feeds outcomes in and carries record snapshots out.

pub mod errlog;
pub mod probe;
pub mod record;
pub mod sample;
pub mod stats;
pub mod table;
pub mod view;
