//! Evaluated entries and the construction of evaluation chunks.
//!
//! An evaluation chunk is the one executable asset that runs an ordered list of
//! entry assets when a target runtime loads it. This crate holds the ordered
//! entry collection, the capability check that admits an asset as an entry, the
//! identity and layout of the produced asset, and an explicit memo service that
//! deduplicates and invalidates chunk construction.

pub mod ids;
pub mod entries;
pub mod pool;
pub mod error;
pub mod capability;
pub mod evaluate;
pub mod memo;
