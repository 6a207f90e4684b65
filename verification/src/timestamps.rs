//! The representable range of stored timestamps.
//!
//! Post times are kept as integer seconds since the Unix epoch. A stored
//! value is usable only if the calendar library on the read path can turn
//! it into a date; decoding a row whose seconds lie outside that range
//! must fail explicitly rather than panic or clamp.

use vstd::prelude::*;

verus! {

/// Seconds of the earliest calendar-representable instant.
pub const TS_MIN: i64 = -8334601228800;

/// Seconds of the latest calendar-representable instant.
pub const TS_MAX: i64 = 8210266876799;

/// Holds of the seconds values the calendar library can represent.
pub open spec fn timestamp_in_range(s: int) -> bool {
    TS_MIN <= s && s <= TS_MAX
}

/// Relies on chrono's `DateTime::<Utc>::from_timestamp` with zero
/// nanoseconds: it returns `Some` exactly when the seconds value names a
/// date between the first and the last representable calendar day, that
/// is when it lies in `TS_MIN ..= TS_MAX`.
#[verifier::external_body]
pub(crate) fn timestamp_representable(secs: i64) -> (r: bool)
    ensures
        r == timestamp_in_range(secs as int),
{
    chrono::DateTime::<chrono::Utc>::from_timestamp(secs, 0).is_some()
}

} // verus!
