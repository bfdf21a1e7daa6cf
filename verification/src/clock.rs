//! The machine's local time zone, as chrono reads it.
use crate::entry::{offset_in_range, timestamp_in_range};
use chrono::{Local, MappedLocalTime, TimeZone};
use vstd::prelude::*;

verus! {

/// Holds of every offset `local_offset_at` gives for the UTC second
/// `utc_secs`. Its body, private to this module, is only the range every such
/// offset lies in; outside this module nothing establishes it but a call of
/// `local_offset_at`, so a text said to be in local time uses the offsets the
/// time zone gave, not others of the same range.
pub closed spec fn zone_offset(utc_secs: i64, offset_secs: i32) -> bool {
    offset_in_range(offset_secs)
}

/// An offset the local time zone gives is under one day either way.
pub proof fn lemma_zone_offset_in_range(utc_secs: i64, offset_secs: i32)
    requires
        zone_offset(utc_secs, offset_secs),
    ensures
        offset_in_range(offset_secs),
{
}

/// The distance east of UTC, in seconds, of the machine's local time zone at
/// the UTC second `utc_secs`: `Local.timestamp_opt(utc_secs, 0)`, then the
/// offset of that time. Claimed: a value comes back exactly when chrono can
/// hold the second (`timestamp_opt` gives a single time exactly when
/// `DateTime::from_timestamp` does), and it is under one day either way, as
/// every `FixedOffset` is. Which value it is depends on the machine's time
/// zone and is not stated; chrono panics where it cannot read the zone, as
/// the original's display does.
#[verifier::external_body]
pub(crate) fn local_offset_at(utc_secs: i64) -> (r: Option<i32>)
    ensures
        r is Some <==> timestamp_in_range(utc_secs),
        r matches Some(o) ==> offset_in_range(o) && zone_offset(utc_secs, o),
{
    match Local.timestamp_opt(utc_secs, 0) {
        MappedLocalTime::Single(t) => Some(t.offset().local_minus_utc()),
        MappedLocalTime::Ambiguous(_, _) => None,
        MappedLocalTime::None => None,
    }
}

} // verus!
