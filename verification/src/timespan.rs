//! Plain-value models of time: a span of seconds and nanoseconds, and a
//! wall-clock instant split into calendar fields.

use vstd::prelude::*;

verus! {

pub const NANOS_PER_SEC: u32 = 1_000_000_000;

/// A non-negative span of time, as whole seconds plus nanoseconds.
#[derive(Clone, Copy, Debug, PartialEq, Eq, Structural, PartialOrd, Ord, Hash)]
pub struct TimeSpan {
    pub secs: u64,
    pub nanos: u32,
}

impl TimeSpan {
    /// A well-formed span carries fewer than a second's worth of nanoseconds.
    pub open spec fn wf(self) -> bool {
        self.nanos < NANOS_PER_SEC
    }

    /// Total length in nanoseconds.
    pub open spec fn total_nanos(self) -> int {
        self.secs * (NANOS_PER_SEC as int) + self.nanos
    }

    pub fn new(secs: u64, nanos: u32) -> (r: TimeSpan)
        requires
            nanos < NANOS_PER_SEC,
        ensures
            r == (TimeSpan { secs, nanos }),
            r.wf(),
    {
        TimeSpan { secs, nanos }
    }

    /// Strict order on spans.
    pub open spec fn spec_lt(self, other: TimeSpan) -> bool {
        self.total_nanos() < other.total_nanos()
    }

    pub fn lt(&self, other: &TimeSpan) -> (r: bool)
        requires
            self.wf(),
            other.wf(),
        ensures
            r == self.spec_lt(*other),
    {
        proof {
            let a_s = self.secs as int;
            let a_n = self.nanos as int;
            let b_s = other.secs as int;
            let b_n = other.nanos as int;
            let k = NANOS_PER_SEC as int;
            assert((a_s * k + a_n < b_s * k + b_n) == (a_s < b_s || (a_s == b_s && a_n
                < b_n))) by (nonlinear_arith)
                requires
                    0 <= a_n < k,
                    0 <= b_n < k,
                    0 <= a_s,
                    0 <= b_s,
            ;
        }
        self.secs < other.secs || (self.secs == other.secs && self.nanos < other.nanos)
    }
}

/// A wall-clock instant in UTC, split into calendar fields.
///
/// The calendar fields order instants exactly as the underlying timeline
/// does, so cleanup priority can compare them lexicographically.
#[derive(Clone, Copy, Debug, PartialEq, Eq, Structural, PartialOrd, Ord, Hash)]
pub struct UtcTime {
    pub year: u16,
    pub month: u8,
    pub day: u8,
    pub hour: u8,
    pub minute: u8,
    pub second: u8,
    pub nanos: u32,
}

impl UtcTime {
    pub open spec fn wf(self) -> bool {
        &&& 1970 <= self.year <= 9999
        &&& 1 <= self.month <= 12
        &&& 1 <= self.day <= 31
        &&& self.hour < 24
        &&& self.minute < 60
        &&& self.second < 60
        &&& self.nanos < NANOS_PER_SEC
    }

    /// The calendar fields as one tuple, ordered lexicographically.
    pub open spec fn key(self) -> (int, int, int, int, int, int, int) {
        (
            self.year as int,
            self.month as int,
            self.day as int,
            self.hour as int,
            self.minute as int,
            self.second as int,
            self.nanos as int,
        )
    }

    /// Strict lexicographic order on instants.
    pub open spec fn spec_lt(self, other: UtcTime) -> bool {
        if self.year != other.year {
            self.year < other.year
        } else if self.month != other.month {
            self.month < other.month
        } else if self.day != other.day {
            self.day < other.day
        } else if self.hour != other.hour {
            self.hour < other.hour
        } else if self.minute != other.minute {
            self.minute < other.minute
        } else if self.second != other.second {
            self.second < other.second
        } else {
            self.nanos < other.nanos
        }
    }

    pub fn lt(&self, other: &UtcTime) -> (r: bool)
        ensures
            r == self.spec_lt(*other),
    {
        if self.year != other.year {
            self.year < other.year
        } else if self.month != other.month {
            self.month < other.month
        } else if self.day != other.day {
            self.day < other.day
        } else if self.hour != other.hour {
            self.hour < other.hour
        } else if self.minute != other.minute {
            self.minute < other.minute
        } else if self.second != other.second {
            self.second < other.second
        } else {
            self.nanos < other.nanos
        }
    }

    /// Check well-formedness of the calendar fields.
    pub fn check_wf(&self) -> (r: bool)
        ensures
            r == self.wf(),
    {
        1970 <= self.year && self.year <= 9999 && 1 <= self.month && self.month <= 12
            && 1 <= self.day && self.day <= 31 && self.hour < 24 && self.minute < 60
            && self.second < 60 && self.nanos < NANOS_PER_SEC
    }

    /// The order is total: two instants that are not ordered either way are
    /// field-for-field equal.
    pub proof fn lemma_lt_total(a: UtcTime, b: UtcTime)
        ensures
            !a.spec_lt(b) && !b.spec_lt(a) ==> a == b,
            a.spec_lt(b) ==> !b.spec_lt(a),
    {
    }
}

} // verus!
