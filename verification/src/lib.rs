//! Append-only collectors for consensus events, materialized as queryable
//! views by an external streaming engine.
//!
//! Each collection keeps a newline-delimited log of JSON-encoded records and
//! registers, via SQL statements, an ingestion source and a derived view with
//! the engine. The engine catches up with the log asynchronously, so reads
//! lag writes by a bounded interval. This crate verifies the logic of that
//! pattern: the append-only log with its framing, the SQL statement builders,
//! and the exact semantics each view gives to the ingested records (ordering,
//! deduplication, latest-wins selection, vote aggregation). The ingestion
//! watermark of the engine is modelled explicitly, so the staleness of reads
//! is part of every query's contract.

pub mod authority;
pub mod eventlog;
pub mod interface;
pub mod proposal;
pub mod sql;
pub mod voteset;

use vstd::prelude::*;

verus! {

/// An account address, held as the integer the logic compares by.
pub type Address = u64;

} // verus!
