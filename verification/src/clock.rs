//! Conversion of legacy modification timestamps into the date text stored on
//! a set row.
//!
//! Legacy timestamps are windows ticks: 100 ns units since 0001-01-01.
//! They reach the unix scale by subtracting the epoch difference and scaling
//! by 100; the nanosecond value is then rendered as date text.
use vstd::prelude::*;

use crate::WIN_TO_UNIX_EPOCH;

verus! {

/// Nanoseconds since the unix epoch for a windows-tick timestamp, when the
/// value is representable: the timestamp must not precede the unix epoch and
/// the scaled value must fit a signed 64-bit count.
pub open spec fn spec_ticks_to_nanos(ticks: u64) -> Option<i64> {
    if ticks >= WIN_TO_UNIX_EPOCH && (ticks - WIN_TO_UNIX_EPOCH) * 100 <= i64::MAX {
        Some(((ticks - WIN_TO_UNIX_EPOCH) * 100) as i64)
    } else {
        None
    }
}

/// Converts a windows-tick timestamp to nanoseconds since the unix epoch,
/// or reports that the value is out of range.
pub fn ticks_to_unix_nanos(ticks: u64) -> (r: Option<i64>)
    ensures
        r == spec_ticks_to_nanos(ticks),
{
    if ticks < WIN_TO_UNIX_EPOCH {
        return None;
    }
    let delta = ticks - WIN_TO_UNIX_EPOCH;
    if delta > (i64::MAX as u64) / 100 {
        return None;
    }
    Some((delta * 100) as i64)
}

/// The date text stored for a nanosecond timestamp: its calendar rendering
/// in UTC. The name fixes only that the text is a function of the
/// nanosecond value alone.
pub uninterp spec fn date_text_of(nanos: i64) -> Seq<char>;

/// Relies on chrono's TimeZone::timestamp_nanos for Utc (documented never to
/// fail) and DateTime::to_rfc3339_opts: the rendering of a UTC timestamp is
/// a function of the nanosecond value alone; the date-time separator is then
/// exchanged for a space, as the target schema stores it.
#[verifier::external_body]
pub fn format_date_added(nanos: i64) -> (r: String)
    ensures
        r@ == date_text_of(nanos),
{
    chrono::TimeZone::timestamp_nanos(&chrono::Utc, nanos)
        .to_rfc3339_opts(chrono::SecondsFormat::AutoSi, false)
        .replace("T", " ")
}

} // verus!
