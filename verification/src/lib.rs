//! Scheduling, retention and publication rules for a tiered on-disk cache of
//! gossip snapshots.
//!
//! The cache holds one delta snapshot per *scope* (a look-back duration), an
//! index of pointers that sends every granularity-aligned client timestamp to
//! the smallest snapshot covering it, and the ordered file-system steps that
//! swap a freshly built generation into place. Everything here is pure: the
//! embedding process performs the I/O that the library prescribes.

pub mod cycle;
pub mod decimal;
pub mod guarantees;
pub mod naming;
pub mod retention;
pub mod schedule;
pub mod scope;
pub mod snapshot;
pub mod upload;
