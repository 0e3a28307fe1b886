//! Clock times of one day, read with `chrono` and held as whole seconds.

use vstd::prelude::*;

verus! {

/// Seconds in a day: every `Time` lies below it.
pub const SECONDS_PER_DAY: u32 = 86_400;

/// A string that is no `HH:MM:SS` clock time.
#[derive(Clone, Copy, Debug, PartialEq, Eq)]
pub struct TimeFormatError;

/// A wall-clock time, as whole seconds since midnight.
#[derive(Clone, Copy, Debug, PartialEq, Eq)]
pub struct Time {
    secs: u32,
}

/// What `chrono` reads from the string `s` under the format string
/// `format`: the seconds since midnight of the time of day, or nothing
/// where it rejects the string.
pub uninterp spec fn clock_seconds(s: Seq<char>, format: Seq<char>) -> Option<u32>;

/// The format of a clock time: hours, minutes and seconds, with colons
/// between them.
pub open spec fn clock_format() -> Seq<char> {
    "%H:%M:%S"@
}

/// Whole minutes in `d` seconds, rounded toward zero.
pub open spec fn whole_minutes(d: int) -> int {
    if d >= 0 {
        d / 60
    } else {
        -((-d) / 60)
    }
}

/// The time a parser's reading stands for, if it stands for one.
pub open spec fn reading_time(r: Option<u32>) -> Option<int> {
    match r {
        Some(v) if v < SECONDS_PER_DAY => Some(v as int),
        _ => None,
    }
}

/// Calls `chrono::NaiveTime::parse_from_str` and hands back
/// `chrono::Timelike::num_seconds_from_midnight` of the time read.
/// Trusted: the result is a function of the string and the format alone,
/// named `clock_seconds`. A leap second (`:60`) comes back as second 59,
/// since that is what `num_seconds_from_midnight` counts.
#[verifier::external_body]
fn read_clock(s: &str, format: &str) -> (r: Option<u32>)
    ensures
        r == clock_seconds(s@, format@),
{
    match chrono::NaiveTime::parse_from_str(s, format) {
        Ok(t) => Some(chrono::Timelike::num_seconds_from_midnight(&t)),
        Err(_) => None,
    }
}

/// Calls `chrono::NaiveTime::signed_duration_since` on the two times of day
/// built by `chrono::NaiveTime::from_num_seconds_from_midnight_opt`, and
/// `chrono::TimeDelta::num_minutes` on the difference.
/// Trusted: for two whole-second times of one day the result is the
/// difference `to - from` in seconds, divided by 60 and rounded toward zero.
#[verifier::external_body]
fn minutes_between(from: u32, to: u32) -> (r: i64)
    requires
        from < SECONDS_PER_DAY,
        to < SECONDS_PER_DAY,
    ensures
        r == whole_minutes(to - from),
{
    let a = chrono::NaiveTime::from_num_seconds_from_midnight_opt(from, 0).unwrap();
    let b = chrono::NaiveTime::from_num_seconds_from_midnight_opt(to, 0).unwrap();
    b.signed_duration_since(a).num_minutes()
}

impl View for Time {
    type V = int;

    closed spec fn view(&self) -> int {
        self.secs as int
    }
}

impl Time {
    /// Every time built by this library lies within one day.
    pub open spec fn wf(&self) -> bool {
        0 <= self@ < SECONDS_PER_DAY
    }

    /// The time `hour:min:sec`, where that is a time of day.
    pub fn from_hms(hour: u32, min: u32, sec: u32) -> (r: Option<Time>)
        ensures
            (hour < 24 && min < 60 && sec < 60) <==> r.is_some(),
            r matches Some(t) ==> t.wf() && t@ == hour * 3600 + min * 60 + sec,
    {
        if hour < 24 && min < 60 && sec < 60 {
            Some(Time { secs: hour * 3600 + min * 60 + sec })
        } else {
            None
        }
    }

    /// Midnight, the earliest time of a day.
    pub fn midnight() -> (t: Time)
        ensures
            t.wf(),
            t@ == 0,
    {
        Time { secs: 0 }
    }

    /// The last second of a day.
    pub fn end_of_day() -> (t: Time)
        ensures
            t.wf(),
            t@ == SECONDS_PER_DAY - 1,
    {
        Time { secs: SECONDS_PER_DAY - 1 }
    }

    /// Seconds since midnight.
    pub fn seconds(&self) -> (r: u32)
        ensures
            r == self@,
    {
        self.secs
    }

    /// The hour of the day.
    pub fn hour(&self) -> (r: u32)
        ensures
            r == self@ / 3600,
    {
        self.secs / 3600
    }

    /// The minute of the hour.
    pub fn minute(&self) -> (r: u32)
        ensures
            r == (self@ / 60) % 60,
    {
        (self.secs / 60) % 60
    }

    /// The second of the minute.
    pub fn second(&self) -> (r: u32)
        ensures
            r == self@ % 60,
    {
        self.secs % 60
    }

    /// Whether `self` comes strictly before `other`.
    pub fn is_before(&self, other: &Time) -> (r: bool)
        ensures
            r == (self@ < other@),
    {
        self.secs < other.secs
    }

    /// Whether both are the same time of day.
    pub fn same_as(&self, other: &Time) -> (r: bool)
        ensures
            r == (self@ == other@),
    {
        self.secs == other.secs
    }
}

/// Turns what the parser read into a time: a reading within the day is that
/// time, anything else is a format error.
pub fn time_from_reading(reading: Option<u32>) -> (r: Result<Time, TimeFormatError>)
    ensures
        match reading_time(reading) {
            Some(v) => r.is_ok() && r.unwrap().wf() && r.unwrap()@ == v,
            None => r.is_err(),
        },
{
    match reading {
        Some(v) => {
            if v < SECONDS_PER_DAY {
                Ok(Time { secs: v })
            } else {
                Err(TimeFormatError)
            }
        },
        None => Err(TimeFormatError),
    }
}

/// Reads an `HH:MM:SS` clock time.
pub fn parse_time(s: &str) -> (r: Result<Time, TimeFormatError>)
    ensures
        match reading_time(clock_seconds(s@, clock_format())) {
            Some(v) => r.is_ok() && r.unwrap().wf() && r.unwrap()@ == v,
            None => r.is_err(),
        },
{
    time_from_reading(read_clock(s, "%H:%M:%S"))
}

/// Signed difference `b - a` in whole minutes.
pub fn duration_minutes(a: Time, b: Time) -> (r: i64)
    requires
        a.wf(),
        b.wf(),
    ensures
        r == whole_minutes(b@ - a@),
{
    minutes_between(a.secs, b.secs)
}

} // verus!
