//! Verified core of a work-stealing task scheduler and of a cache whose
//! entries expire, with a record written through for every value put into
//! it; and beside them a few small tools.
//!
//! Everything here is sequential and deterministic. Time is passed in as
//! plain integers, the outcome of an attempt on a lock is an input, and what
//! is to be written to a file is handed back as text. Threads, locks, clocks
//! and files live with the caller.
//!
//! The scheduler: [`task`], [`queue`], [`config`], [`worker`], [`balance`],
//! [`scheduler`]. The cache: [`cache`], [`read`], [`record`]. The tools: [`trie`] with
//! [`buffer`], [`datetime`] and [`rollup`], [`experiments`], [`grid`],
//! [`stars`], and [`text`], which the others use.

pub mod task;
pub mod queue;
pub mod config;
pub mod worker;
pub mod balance;
pub mod scheduler;
pub mod text;
pub mod record;
pub mod cache;
pub mod read;
pub mod buffer;
pub mod trie;
pub mod experiments;
pub mod datetime;
pub mod rollup;
pub mod grid;
pub mod stars;
