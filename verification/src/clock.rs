//! Time source for the filesystem layer. The harness carries no real-time
//! clock, so file timestamps are pinned to the epoch.

use vstd::prelude::*;

verus! {

/// A calendar timestamp as the filesystem layer records it.
#[derive(Clone, Copy, PartialEq, Eq, Structural, Debug)]
pub struct Timestamp {
    /// Years elapsed since 1970.
    pub year_since_1970: u8,
    /// Month, counted from zero.
    pub zero_indexed_month: u8,
    /// Day of the month, counted from zero.
    pub zero_indexed_day: u8,
    /// Hour of the day.
    pub hours: u8,
    /// Minute of the hour.
    pub minutes: u8,
    /// Second of the minute.
    pub seconds: u8,
}

impl Timestamp {
    /// Field ranges of a calendar timestamp.
    pub open spec fn wf(self) -> bool {
        &&& self.zero_indexed_month < 12
        &&& self.zero_indexed_day < 31
        &&& self.hours < 24
        &&& self.minutes < 60
        &&& self.seconds < 60
    }
}

/// The harness's time source: it has no battery-backed clock, so every
/// reading is the epoch.
pub struct Clock;

impl Clock {
    /// The fixed timestamp the harness stamps files with: all fields zero,
    /// a well-formed reading at the epoch.
    pub fn get_timestamp(&self) -> (t: Timestamp)
        ensures
            t.wf(),
            t.year_since_1970 == 0,
            t.zero_indexed_month == 0,
            t.zero_indexed_day == 0,
            t.hours == 0,
            t.minutes == 0,
            t.seconds == 0,
    {
        Timestamp {
            year_since_1970: 0,
            zero_indexed_month: 0,
            zero_indexed_day: 0,
            hours: 0,
            minutes: 0,
            seconds: 0,
        }
    }
}

} // verus!
