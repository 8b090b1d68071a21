//! The plain data holder types of the library: string wrappers for station and
//! line names, and day and time-of-day values as plain integers.

use vstd::prelude::*;

verus! {

/// A station identifier as the remote endpoint knows it: arbitrary text,
/// passed through verbatim, never validated locally.
#[derive(Clone, Debug)]
pub struct Station(pub String);

impl From<String> for Station {
    fn from(value: String) -> (r: Self) {
        Station(value)
    }
}

impl vstd::std_specs::convert::FromSpecImpl<String> for Station {
    open spec fn obeys_from_spec() -> bool {
        true
    }

    open spec fn from_spec(value: String) -> Self {
        Station(value)
    }
}

/// The display name of a service (train or other product), as printed on the
/// timetable page.
#[derive(Clone, Debug)]
pub struct Line(pub String);

impl From<String> for Line {
    fn from(value: String) -> (r: Self) {
        Line(value)
    }
}

impl vstd::std_specs::convert::FromSpecImpl<String> for Line {
    open spec fn obeys_from_spec() -> bool {
        true
    }

    open spec fn from_spec(value: String) -> Self {
        Line(value)
    }
}

/// A time of day in the fixed 24-hour `HH:MM` convention.
#[derive(Clone, Copy, Debug, PartialEq, Eq, Structural)]
pub struct TimeOfDay {
    pub hour: u8,
    pub minute: u8,
}

impl TimeOfDay {
    /// Both fields are inside the ranges the `HH:MM` convention allows.
    pub open spec fn wf(self) -> bool {
        self.hour < 24 && self.minute < 60
    }
}

/// A calendar date, held as plain year, month and day numbers.
#[derive(Clone, Copy, Debug, PartialEq, Eq, Structural)]
pub struct Date {
    pub year: i32,
    pub month: u8,
    pub day: u8,
}

impl Date {
    /// Month and day are inside the ranges any calendar allows.
    pub open spec fn wf(self) -> bool {
        1 <= self.month <= 12 && 1 <= self.day <= 31
    }
}

} // verus!
