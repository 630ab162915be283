//! Core of a distributed streaming database: the compaction-picking
//! subsystem of its LSM storage engine, together with the value-level
//! models that the surrounding components exchange (stream chunks, SQL
//! statement syntax trees, sink configuration and change events).
//!
//! Picking is pure computation over a snapshot of the LSM version: a
//! picker reads the levels and the in-flight bookkeeping and returns a
//! description of work, performing no I/O itself.

pub mod ast;
pub mod barrier;
pub mod base_level_compaction_picker;
pub mod kafka_config;
pub mod key_range;
pub mod level;
pub mod level_handler;
pub mod manual_compaction_picker;
pub mod min_overlap_compaction_picker;
pub mod overlap;
pub mod picker;
pub mod space_reclaim_compaction_picker;
pub mod sstable;
pub mod statement;
pub mod stream_chunk;
pub mod telemetry;
pub mod tier_compaction_picker;
pub mod ttl_reclaim_compaction_picker;
pub mod upsert;
