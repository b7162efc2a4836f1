//! Event-distribution core of a monitoring-data broker.
//!
//! Two pieces make up the core: a binary frame codec (`io`) that extracts
//! checksum-verified, length-delimited payload blocks from a raw byte
//! stream, and a multiplexing engine (`multiplexing`) that buffers, caches
//! and fans monitoring events out to per-subscriber delivery queues.

pub mod io;
pub mod multiplexing;
