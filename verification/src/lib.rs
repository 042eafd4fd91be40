//! Verified core of a one-shot media-library migration: a selection filter
//! over a legacy beatmap catalog, a metadata inserter that normalizes and
//! deduplicates rows, and a content-addressed asset store with reference
//! counts and idempotent on-disk linking. All database and file-system
//! effects are decided here and carried out by the surrounding binary.
use vstd::prelude::*;

pub mod clock;
pub mod database;
pub mod digest;
pub mod hexfmt;
pub mod laws;
pub mod preflight;
pub mod records;
pub mod selection;
pub mod store;
pub mod textfmt;

verus! {

/// Difference between the windows epoch (0001-01-01) and the unix epoch
/// (1970-01-01), in windows ticks (1 tick = 100 ns).
pub const WIN_TO_UNIX_EPOCH: u64 = 621_355_968_000_000_000;

} // verus!
