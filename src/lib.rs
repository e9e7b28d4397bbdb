//! A logger that persists log records to a database in batches.
//!
//! The library holds the decisions: which records are persisted
//! (`filter`), how a record becomes a bounded entry (`entry`, `adapter`),
//! when batches are handed to storage and acknowledged (`recorder`), and how
//! a batch becomes rows and rows read back as text (`storage`, `timestamp`).
//! The database, the channels and the tasks that carry those decisions out
//! live outside it.
pub mod adapter;
pub mod config;
pub mod entry;
pub mod filter;
pub mod recorder;
pub mod storage;
pub mod timestamp;
