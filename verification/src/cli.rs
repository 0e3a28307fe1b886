//! What the command line asks for, decided from the plain values that the
//! argument parser hands over.

use vstd::prelude::*;
use vstd::string::StrSliceExecFns;

verus! {

/// An argument that should be a number and is none.
#[derive(Clone, Copy, Debug, PartialEq, Eq, Structural)]
pub struct NumberError;

/// What `str::parse::<u8>` reads from a string: the number, or nothing
/// where it rejects the string.
pub uninterp spec fn decimal_u8(s: Seq<char>) -> Option<u8>;

/// What `str::parse::<i32>` reads from a string: the number, or nothing
/// where it rejects the string.
pub uninterp spec fn decimal_i32(s: Seq<char>) -> Option<i32>;

/// Calls `str::parse::<u8>`.
/// Trusted: the result is a function of the string alone, named
/// `decimal_u8`.
#[verifier::external_body]
fn read_u8(s: &str) -> (r: Option<u8>)
    ensures
        r == decimal_u8(s@),
{
    s.parse::<u8>().ok()
}

/// Calls `str::parse::<i32>`.
/// Trusted: the result is a function of the string alone, named
/// `decimal_i32`.
#[verifier::external_body]
fn read_i32(s: &str) -> (r: Option<i32>)
    ensures
        r == decimal_i32(s@),
{
    s.parse::<i32>().ok()
}

/// The highest day that can be asked for: Friday.
pub const LAST_DAY: u8 = 5;

/// Message for a day beyond Friday.
pub open spec fn day_too_large() -> Seq<char> {
    "Day must be less than 6"@
}

/// Message for an argument that is no number.
pub open spec fn not_a_number() -> Seq<char> {
    "Day must be a number"@
}

/// Judges a day argument that has been read: a number up to 5 passes, a
/// larger one and no number at all are refused, each with its message.
pub fn judge_day(read: Option<u8>) -> (r: Result<(), String>)
    ensures
        match read {
            Some(n) => if n > LAST_DAY {
                r.is_err() && r.unwrap_err()@ == day_too_large()
            } else {
                r.is_ok()
            },
            None => r.is_err() && r.unwrap_err()@ == not_a_number(),
        },
{
    match read {
        Some(n) => {
            if n > LAST_DAY {
                Err("Day must be less than 6".to_owned())
            } else {
                Ok(())
            }
        },
        None => Err("Day must be a number".to_owned()),
    }
}

/// Judges a week argument that has been read: any number passes.
pub fn judge_week(read: Option<u8>) -> (r: Result<(), String>)
    ensures
        match read {
            Some(_) => r.is_ok(),
            None => r.is_err() && r.unwrap_err()@ == not_a_number(),
        },
{
    match read {
        Some(_) => Ok(()),
        None => Err("Day must be a number".to_owned()),
    }
}

/// Checks a day argument: it must be a number from 0 to 5.
pub fn validate_day(v: &str) -> (r: Result<(), String>)
    ensures
        match decimal_u8(v@) {
            Some(n) => if n > LAST_DAY {
                r.is_err() && r.unwrap_err()@ == day_too_large()
            } else {
                r.is_ok()
            },
            None => r.is_err() && r.unwrap_err()@ == not_a_number(),
        },
{
    judge_day(read_u8(v))
}

/// Checks a week argument: it must be a number.
pub fn validate_week(v: &str) -> (r: Result<(), String>)
    ensures
        match decimal_u8(v@) {
            Some(_) => r.is_ok(),
            None => r.is_err() && r.unwrap_err()@ == not_a_number(),
        },
{
    judge_week(read_u8(v))
}

/// Which view of the timetable the `tui` command was given.
#[derive(Clone, Copy, Debug, PartialEq, Eq, Structural)]
pub enum TuiMode {
    /// The whole week.
    Week,
    /// A single day.
    Day,
    /// Neither was named.
    Plain,
}

/// What the display is to show: a week, and in it one day (0 for the next
/// day with lessons) or all of them.
#[derive(Clone, Copy, Debug, PartialEq, Eq, Structural)]
pub struct TuiRequest {
    pub week: i32,
    pub day: Option<i32>,
}

/// A number argument: absent, given and read, or given and unreadable.
#[derive(Clone, Copy, Debug, PartialEq, Eq, Structural)]
pub enum NumberArg {
    Absent,
    Read(i32),
    Unreadable,
}

/// The number argument that an optional string stands for.
pub open spec fn number_arg(arg: Option<Seq<char>>) -> NumberArg {
    match arg {
        None => NumberArg::Absent,
        Some(s) => match decimal_i32(s) {
            Some(n) => NumberArg::Read(n),
            None => NumberArg::Unreadable,
        },
    }
}

/// What the `tui` command asks for.
///
/// The week is the one given, else the current one; a week that cannot be
/// read is an error. For the whole week no day is picked. For a single day
/// the day is the one given, where none is given the next day with
/// lessons, and where it cannot be read the whole week. With neither named
/// the next day with lessons of the current week is shown.
pub open spec fn tui_choice(mode: TuiMode, week: NumberArg, day: NumberArg, current_week: i32)
    -> Result<TuiRequest, NumberError> {
    match mode {
        TuiMode::Plain => Ok(TuiRequest { week: current_week, day: Some(0) }),
        _ => match week {
            NumberArg::Unreadable => Err(NumberError),
            _ => {
                let week = match week {
                    NumberArg::Read(w) => w,
                    _ => current_week,
                };
                match mode {
                    TuiMode::Week => Ok(TuiRequest { week, day: None }),
                    _ => Ok(
                        TuiRequest {
                            week,
                            day: match day {
                                NumberArg::Absent => Some(0),
                                NumberArg::Read(d) => Some(d),
                                NumberArg::Unreadable => None,
                            },
                        },
                    ),
                }
            },
        },
    }
}

/// Reads an optional number argument.
pub fn read_number_arg(arg: Option<&str>) -> (r: NumberArg)
    ensures
        r == number_arg(
            match arg {
                Some(s) => Some(s@),
                None => None,
            },
        ),
{
    match arg {
        None => NumberArg::Absent,
        Some(s) => match read_i32(s) {
            Some(n) => NumberArg::Read(n),
            None => NumberArg::Unreadable,
        },
    }
}

/// Decides what the `tui` command asks for, from its arguments as read.
pub fn choose_tui(mode: TuiMode, week: NumberArg, day: NumberArg, current_week: i32) -> (r: Result<
    TuiRequest,
    NumberError,
>)
    ensures
        r == tui_choice(mode, week, day, current_week),
{
    match mode {
        TuiMode::Plain => Ok(TuiRequest { week: current_week, day: Some(0) }),
        TuiMode::Week => match week {
            NumberArg::Unreadable => Err(NumberError),
            NumberArg::Read(w) => Ok(TuiRequest { week: w, day: None }),
            NumberArg::Absent => Ok(TuiRequest { week: current_week, day: None }),
        },
        TuiMode::Day => {
            let week = match week {
                NumberArg::Unreadable => {
                    return Err(NumberError);
                },
                NumberArg::Read(w) => w,
                NumberArg::Absent => current_week,
            };
            let day = match day {
                NumberArg::Absent => Some(0),
                NumberArg::Read(d) => Some(d),
                NumberArg::Unreadable => None,
            };
            Ok(TuiRequest { week, day })
        },
    }
}

/// Decides what the `tui` command asks for, from its arguments as given.
pub fn tui_request(mode: TuiMode, week: Option<&str>, day: Option<&str>, current_week: i32) -> (r:
    Result<TuiRequest, NumberError>)
    ensures
        r == tui_choice(
            mode,
            number_arg(
                match week {
                    Some(s) => Some(s@),
                    None => None,
                },
            ),
            number_arg(
                match day {
                    Some(s) => Some(s@),
                    None => None,
                },
            ),
            current_week,
        ),
{
    choose_tui(mode, read_number_arg(week), read_number_arg(day), current_week)
}

/// The day that a command without a day argument means, and the day that
/// one with it means: 0 where none is given, an error where it cannot be
/// read.
pub fn day_argument(day: Option<&str>) -> (r: Result<i32, NumberError>)
    ensures
        r == match number_arg(
            match day {
                Some(s) => Some(s@),
                None => None,
            },
        ) {
            NumberArg::Absent => Ok::<i32, NumberError>(0),
            NumberArg::Read(d) => Ok(d),
            NumberArg::Unreadable => Err(NumberError),
        },
{
    match read_number_arg(day) {
        NumberArg::Absent => Ok(0),
        NumberArg::Read(d) => Ok(d),
        NumberArg::Unreadable => Err(NumberError),
    }
}

/// Where the lessons of a display come from.
#[derive(Clone, Copy, Debug, PartialEq, Eq, Structural)]
pub enum LessonSource {
    /// The next day that has lessons left.
    NextLessons,
    /// One day of the week asked for.
    SingleDay(i32),
    /// All five days of the week asked for.
    FullWeek,
}

/// The source that a request names: day 0 is the next day with lessons, any
/// other day is that day, and no day is the whole week.
pub fn lesson_source(day: Option<i32>) -> (r: LessonSource)
    ensures
        r == match day {
            Some(d) => if d == 0 {
                LessonSource::NextLessons
            } else {
                LessonSource::SingleDay(d)
            },
            None => LessonSource::FullWeek,
        },
{
    match day {
        Some(d) => {
            if d == 0 {
                LessonSource::NextLessons
            } else {
                LessonSource::SingleDay(d)
            }
        },
        None => LessonSource::FullWeek,
    }
}

/// Whether an output name means the standard output: the name `-` and the
/// empty name do.
pub fn is_standard_output(output: &str) -> (r: bool)
    ensures
        r == (output@.len() == 0 || output@ == "-"@),
{
    proof {
        reveal_strlit("-");
    }
    let n = output.unicode_len();
    if n == 0 {
        true
    } else if n == 1 {
        let c = output.get_char(0);
        proof {
            if c == '-' {
                assert(output@ =~= "-"@);
            }
        }
        c == '-'
    } else {
        false
    }
}

} // verus!
