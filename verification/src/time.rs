//! Conversion of the oplog's native timestamp representation into a UTC
//! calendar datetime model.

use vstd::prelude::*;

verus! {

/// The oplog's native timestamp: epoch seconds plus an intra-second ordinal
/// that the store uses to order writes within the same second.
#[derive(Clone, Copy, Debug, PartialEq, Eq, Structural)]
pub struct Timestamp {
    /// Seconds since the Unix epoch.
    pub time: u32,
    /// Ordering increment for writes within the same second.
    pub increment: u32,
}

/// A UTC datetime, modelled as seconds since the Unix epoch plus a
/// nanosecond sub-second component.
#[derive(Clone, Copy, Debug, PartialEq, Eq, Structural)]
pub struct UtcDatetime {
    /// Whole seconds since the Unix epoch.
    pub epoch_seconds: i64,
    /// Sub-second component, in nanoseconds.
    pub nanoseconds: u32,
}

/// The datetime a native oplog timestamp converts to: its seconds map to
/// epoch seconds, and its ordinal is placed verbatim into the nanosecond
/// slot.
pub open spec fn spec_timestamp_to_datetime(timestamp: Timestamp) -> UtcDatetime {
    UtcDatetime { epoch_seconds: timestamp.time as i64, nanoseconds: timestamp.increment }
}

/// Convert a native oplog timestamp into a UTC datetime.
///
/// The ordinal is placed verbatim into the nanosecond slot. This conflates a
/// sequencing counter with elapsed time: entries with a nonzero ordinal appear
/// to carry sub-second precision that does not reflect real clock resolution.
/// That mapping is kept deliberately, as the legacy behaviour of the format.
pub fn timestamp_to_datetime(timestamp: Timestamp) -> (r: UtcDatetime)
    ensures
        r == spec_timestamp_to_datetime(timestamp),
{
    UtcDatetime { epoch_seconds: timestamp.time as i64, nanoseconds: timestamp.increment }
}

} // verus!
