//! Which day's lessons are asked for, and how a week's lessons fall into
//! its days.

use vstd::prelude::*;
use crate::lesson::{day_wf, LessonRecord, RawLesson, RawLessonView};
use crate::time::Time;

verus! {

/// Days of a school week, Monday to Friday.
pub const SCHOOL_DAYS: i32 = 5;

/// The day whose lessons are to be fetched.
#[derive(Clone, Copy, Debug, PartialEq, Eq, Structural)]
pub struct Target {
    /// Weekday number, Monday being 1.
    pub day: i32,
    /// Number of the week.
    pub week: i32,
    /// Whether this is a later day than today.
    pub next_day: bool,
}

/// The school day after `day` of `week`: the next day, or Monday of the
/// week after where `day` is Friday or later.
pub open spec fn day_after(day: i32, week: i32) -> Target {
    if day >= SCHOOL_DAYS {
        Target { day: 1, week: (week + 1) as i32, next_day: true }
    } else {
        Target { day: (day + 1) as i32, week, next_day: true }
    }
}

/// The latest end among `day`'s lessons, in seconds since midnight;
/// midnight for a day without lessons.
pub open spec fn latest_end(day: Seq<LessonRecord>) -> int
    decreases day.len(),
{
    if day.len() == 0 {
        0
    } else if day.last().end() > latest_end(day.drop_last()) {
        day.last().end()
    } else {
        latest_end(day.drop_last())
    }
}

/// The target on a day of the weekend: Monday of the week after.
/// Nothing on a school day, where today's lessons decide.
pub fn weekend_target(day: i32, week: i32) -> (r: Option<Target>)
    requires
        week < i32::MAX,
    ensures
        r == if day > SCHOOL_DAYS {
            Some(Target { day: 1, week: (week + 1) as i32, next_day: true })
        } else {
            None
        },
{
    if day > SCHOOL_DAYS {
        Some(Target { day: 1, week: week + 1, next_day: true })
    } else {
        None
    }
}

/// The time at which the last of a day's lessons ends.
pub fn last_lesson_end(lessons: &[LessonRecord]) -> (last: Time)
    requires
        day_wf(lessons@),
    ensures
        last.wf(),
        last@ == latest_end(lessons@),
{
    let mut last = Time::midnight();
    let mut i: usize = 0;
    while i < lessons.len()
        invariant
            day_wf(lessons@),
            i <= lessons@.len(),
            last.wf(),
            last@ == latest_end(lessons@.subrange(0, i as int)),
        decreases lessons@.len() - i,
    {
        proof {
            assert(lessons@[i as int].wf());
            assert(lessons@.subrange(0, i + 1).drop_last() =~= lessons@.subrange(0, i as int));
        }
        if last.is_before(&lessons[i].end_time) {
            last = lessons[i].end_time;
        }
        i += 1;
    }
    proof {
        assert(lessons@.subrange(0, lessons@.len() as int) =~= lessons@);
    }
    last
}

/// The target on a school day, given today's lessons and the time now:
/// today while the last lesson has not ended, else the school day after.
pub fn school_day_target(day: i32, week: i32, lessons: &[LessonRecord], now: Time) -> (r: Target)
    requires
        week < i32::MAX,
        day_wf(lessons@),
    ensures
        r == if now@ > latest_end(lessons@) {
            day_after(day, week)
        } else {
            Target { day, week, next_day: false }
        },
{
    let last = last_lesson_end(lessons);
    if last.is_before(&now) {
        if day >= SCHOOL_DAYS {
            Target { day: 1, week: week + 1, next_day: true }
        } else {
            Target { day: day + 1, week, next_day: true }
        }
    } else {
        Target { day, week, next_day: false }
    }
}

/// What each of `raws` says, in their order.
pub open spec fn raw_views(raws: Seq<RawLesson>) -> Seq<RawLessonView> {
    Seq::new(raws.len(), |i: int| raws[i]@)
}

/// The lessons of `lessons` that fall on `day`, in their order.
pub open spec fn of_day(lessons: Seq<RawLessonView>, day: int) -> Seq<RawLessonView>
    decreases lessons.len(),
{
    if lessons.len() == 0 {
        Seq::empty()
    } else if lessons.last().day_of_week_number == day {
        of_day(lessons.drop_last(), day).push(lessons.last())
    } else {
        of_day(lessons.drop_last(), day)
    }
}

/// Every lesson falls on a school day.
pub open spec fn on_school_days(lessons: Seq<RawLesson>) -> bool {
    forall|i: int|
        0 <= i < lessons.len() ==> 1 <= (#[trigger] lessons[i]).day_of_week_number <= SCHOOL_DAYS
}

/// The lessons that fall on one day, in the order they come in.
pub fn lessons_on(lessons: &[RawLesson], day: i32) -> (r: Vec<RawLesson>)
    ensures
        raw_views(r@) == of_day(raw_views(lessons@), day as int),
{
    let mut r: Vec<RawLesson> = Vec::new();
    let mut i: usize = 0;
    proof {
        assert(raw_views(lessons@.subrange(0, 0)) =~= Seq::<RawLessonView>::empty());
        assert(raw_views(r@) =~= Seq::<RawLessonView>::empty());
    }
    while i < lessons.len()
        invariant
            i <= lessons@.len(),
            raw_views(r@) == of_day(raw_views(lessons@.subrange(0, i as int)), day as int),
        decreases lessons@.len() - i,
    {
        let ghost before = r@;
        proof {
            assert(raw_views(lessons@.subrange(0, i + 1)).drop_last() =~= raw_views(
                lessons@.subrange(0, i as int),
            ));
            assert(raw_views(lessons@.subrange(0, i + 1)).last() == lessons@[i as int]@);
        }
        if lessons[i].day_of_week_number == day {
            let copy = lessons[i].clone();
            r.push(copy);
            proof {
                assert(raw_views(r@) =~= raw_views(before).push(copy@));
            }
        }
        i += 1;
    }
    proof {
        assert(lessons@.subrange(0, lessons@.len() as int) =~= lessons@);
    }
    r
}

/// Whether every lesson falls on a school day.
pub fn all_on_school_days(lessons: &[RawLesson]) -> (r: bool)
    ensures
        r == on_school_days(lessons@),
{
    let mut i: usize = 0;
    while i < lessons.len()
        invariant
            i <= lessons@.len(),
            forall|k: int|
                0 <= k < i ==> 1 <= (#[trigger] lessons@[k]).day_of_week_number <= SCHOOL_DAYS,
        decreases lessons@.len() - i,
    {
        if lessons[i].day_of_week_number < 1 || lessons[i].day_of_week_number > SCHOOL_DAYS {
            return false;
        }
        i += 1;
    }
    true
}

/// Sorts the lessons of a week into its five days, Monday first, each day
/// in the order its lessons come in. Nothing where a lesson falls on no
/// school day.
pub fn bucket_week(lessons: &[RawLesson]) -> (r: Option<Vec<Vec<RawLesson>>>)
    ensures
        match r {
            Some(days) => {
                &&& on_school_days(lessons@)
                &&& days@.len() == SCHOOL_DAYS
                &&& forall|d: int|
                    0 <= d < SCHOOL_DAYS ==> raw_views((#[trigger] days@[d])@) == of_day(
                        raw_views(lessons@),
                        d + 1,
                    )
            },
            None => !on_school_days(lessons@),
        },
{
    if !all_on_school_days(lessons) {
        return None;
    }
    let mut days: Vec<Vec<RawLesson>> = Vec::new();
    let mut day: i32 = 1;
    while day <= SCHOOL_DAYS
        invariant
            1 <= day <= SCHOOL_DAYS + 1,
            days@.len() == day - 1,
            forall|d: int|
                0 <= d < day - 1 ==> raw_views((#[trigger] days@[d])@) == of_day(
                    raw_views(lessons@),
                    d + 1,
                ),
        decreases SCHOOL_DAYS + 1 - day,
    {
        let ghost before = days@;
        let today = lessons_on(lessons, day);
        days.push(today);
        proof {
            assert forall|d: int| 0 <= d < day - 1 implies days@[d] == before[d] by {}
        }
        day += 1;
    }
    Some(days)
}

} // verus!
