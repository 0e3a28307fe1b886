//! The layout of all the columns that are shown together, computed once
//! before anything is drawn.

use vstd::prelude::*;
use crate::compose::{place_lessons, placements_upto, Placement};
use crate::constraints::{
    day_regions,
    generate_constraints,
    head_marks,
    schedule_fault,
    total_weight,
    DayLayout,
    Region,
};
use crate::lesson::{
    day_fault,
    day_wf,
    ingest_day,
    records_of,
    LayoutError,
    LessonRecord,
    RawLesson,
};
use crate::sort::{is_stable_sort, sort_lessons};
use crate::time::whole_minutes;
use crate::window::{all_idle, day_window, days_wf, is_window, Window};

verus! {

/// One day column, ready to be drawn.
#[derive(Debug)]
pub struct Column {
    /// The lessons of the day, earliest start first.
    pub lessons: Vec<LessonRecord>,
    /// Regions and pair heads of the column.
    pub layout: DayLayout,
    /// Where each lesson is drawn.
    pub placements: Vec<Placement>,
}

/// All the columns of one display, on one timescale.
#[derive(Debug)]
pub struct WeekLayout {
    /// The shared day window; none where no day has a lesson.
    pub window: Option<Window>,
    /// One entry per day, in the order given. A day that cannot be laid out
    /// holds its error and leaves the other days as they are.
    pub columns: Vec<Result<Column, LayoutError>>,
}

/// `column` is what `day` looks like in the window from `start` to `end`:
/// its lessons in stable order of start time, cut into regions that fill
/// the window, or the schedule error where they cannot be.
pub open spec fn column_in_window(
    day: Seq<LessonRecord>,
    start: int,
    end: int,
    column: Result<Column, LayoutError>,
) -> bool {
    match column {
        Ok(c) => {
            &&& is_stable_sort(day, c.lessons@)
            &&& !schedule_fault(c.lessons@, start, end)
            &&& c.layout.regions@ == day_regions(c.lessons@, start, end)
            &&& c.layout.heads@ == head_marks(c.lessons@)
            &&& c.layout.span == whole_minutes(end - start)
            &&& total_weight(c.layout.regions@) == c.layout.span
            &&& c.placements@ == placements_upto(
                c.layout.heads@,
                c.layout.regions@.len() as int,
                c.lessons@.len() as int,
            )
        },
        Err(e) => {
            &&& e == LayoutError::InvalidSchedule
            &&& exists|sorted: Seq<LessonRecord>|
                is_stable_sort(day, sorted) && schedule_fault(sorted, start, end)
        },
    }
}

/// `column` is a column with nothing in it.
pub open spec fn blank_column(column: Result<Column, LayoutError>) -> bool {
    match column {
        Ok(c) => {
            &&& c.lessons@.len() == 0
            &&& c.layout.regions@.len() == 0
            &&& c.layout.heads@.len() == 0
            &&& c.layout.span == 0
            &&& c.placements@.len() == 0
        },
        Err(_) => false,
    }
}

/// `week` is the layout of `days`: with no lesson at all, blank columns
/// and no window; else the window of all lessons and each day laid out in
/// it.
pub open spec fn is_week_layout(days: Seq<Vec<LessonRecord>>, week: WeekLayout) -> bool {
    &&& week.columns@.len() == days.len()
    &&& match week.window {
        None => {
            &&& all_idle(days)
            &&& forall|d: int| 0 <= d < days.len() ==> blank_column(#[trigger] week.columns@[d])
        },
        Some(w) => {
            &&& w.wf()
            &&& is_window(days, w.start@, w.end@)
            &&& forall|d: int|
                0 <= d < days.len() ==> column_in_window(
                    days[d]@,
                    w.start@,
                    w.end@,
                    #[trigger] week.columns@[d],
                )
        },
    }
}

/// `week` is the layout of `days`, but for the days that `faults` takes
/// out: each of those holds its error.
pub open spec fn is_week_layout_but(
    days: Seq<Vec<LessonRecord>>,
    faults: Seq<Option<LayoutError>>,
    week: WeekLayout,
) -> bool {
    &&& week.columns@.len() == days.len()
    &&& forall|d: int|
        0 <= d < days.len() ==> (#[trigger] faults[d] matches Some(e) ==> week.columns@[d] == Err::<
            Column,
            LayoutError,
        >(e))
    &&& match week.window {
        None => {
            &&& all_idle(days)
            &&& forall|d: int|
                0 <= d < days.len() && faults[d].is_none() ==> blank_column(
                    #[trigger] week.columns@[d],
                )
        },
        Some(w) => {
            &&& w.wf()
            &&& is_window(days, w.start@, w.end@)
            &&& forall|d: int|
                0 <= d < days.len() && faults[d].is_none() ==> column_in_window(
                    days[d]@,
                    w.start@,
                    w.end@,
                    #[trigger] week.columns@[d],
                )
        },
    }
}

/// Lays out `days` in their common window; a day that `faults` names holds
/// that error in place of a column.
fn lay_out(days: &[Vec<LessonRecord>], faults: &[Option<LayoutError>]) -> (week: WeekLayout)
    requires
        days_wf(days@),
        faults@.len() == days@.len(),
    ensures
        is_week_layout_but(days@, faults@, week),
{
    let window = day_window(days);
    let mut columns: Vec<Result<Column, LayoutError>> = Vec::new();
    let mut d: usize = 0;
    while d < days.len()
        invariant
            days_wf(days@),
            faults@.len() == days@.len(),
            d <= days@.len(),
            columns@.len() == d,
            forall|k: int|
                0 <= k < d ==> (#[trigger] faults@[k] matches Some(e) ==> columns@[k] == Err::<
                    Column,
                    LayoutError,
                >(e)),
            match window {
                None => {
                    &&& all_idle(days@)
                    &&& forall|k: int|
                        0 <= k < d && faults@[k].is_none() ==> blank_column(#[trigger] columns@[k])
                },
                Some(w) => {
                    &&& w.wf()
                    &&& forall|k: int|
                        0 <= k < d && faults@[k].is_none() ==> column_in_window(
                            days@[k]@,
                            w.start@,
                            w.end@,
                            #[trigger] columns@[k],
                        )
                },
            },
        decreases days@.len() - d,
    {
        let ghost before = columns@;
        proof {
            assert(day_wf(days@[d as int]@));
        }
        let column = match (faults[d], window) {
            (Some(e), _) => Err(e),
            (None, None) => {
                proof {
                    assert(days@[d as int]@.len() == 0);
                }
                Ok(
                    Column {
                        lessons: Vec::new(),
                        layout: DayLayout { regions: Vec::new(), heads: Vec::new(), span: 0 },
                        placements: Vec::new(),
                    },
                )
            },
            (None, Some(w)) => {
                let sorted = sort_lessons(days[d].as_slice());
                match generate_constraints(sorted.as_slice(), w.start, w.end) {
                    Ok(layout) => {
                        let placements = place_lessons(
                            layout.heads.as_slice(),
                            layout.regions.len(),
                            sorted.len(),
                        );
                        Ok(Column { lessons: sorted, layout, placements })
                    },
                    Err(e) => Err(e),
                }
            },
        };
        columns.push(column);
        proof {
            assert forall|k: int| 0 <= k < d implies columns@[k] == before[k] by {}
        }
        d += 1;
    }
    WeekLayout { window, columns }
}

/// Lays out the days that are shown together: sorts each day, finds the
/// window of them all, and cuts each day into regions of that window.
pub fn layout_days(days: &[Vec<LessonRecord>]) -> (week: WeekLayout)
    requires
        days_wf(days@),
    ensures
        is_week_layout(days@, week),
{
    let mut faults: Vec<Option<LayoutError>> = Vec::new();
    let mut d: usize = 0;
    while d < days.len()
        invariant
            d <= days@.len(),
            faults@.len() == d,
            forall|k: int| 0 <= k < d ==> (#[trigger] faults@[k]).is_none(),
        decreases days@.len() - d,
    {
        faults.push(None);
        d += 1;
    }
    lay_out(days, faults.as_slice())
}

/// `week` is the layout of the raw days `raws`, whose typed form is
/// `days`: a day with a lesson that cannot be read holds that error and
/// counts as a day without lessons; the others are laid out together.
pub open spec fn is_raw_week_layout(
    raws: Seq<Vec<RawLesson>>,
    days: Seq<Vec<LessonRecord>>,
    week: WeekLayout,
) -> bool {
    &&& days.len() == raws.len()
    &&& week.columns@.len() == raws.len()
    &&& forall|d: int|
        0 <= d < raws.len() ==> match day_fault((#[trigger] raws[d])@) {
            Some(e) => days[d]@.len() == 0 && week.columns@[d] == Err::<Column, LayoutError>(e),
            None => records_of(raws[d]@, days[d]@),
        }
    &&& match week.window {
        None => {
            &&& all_idle(days)
            &&& forall|d: int|
                0 <= d < raws.len() && day_fault(raws[d]@).is_none() ==> blank_column(
                    #[trigger] week.columns@[d],
                )
        },
        Some(w) => {
            &&& w.wf()
            &&& is_window(days, w.start@, w.end@)
            &&& forall|d: int|
                0 <= d < raws.len() && day_fault(raws[d]@).is_none() ==> column_in_window(
                    days[d]@,
                    w.start@,
                    w.end@,
                    #[trigger] week.columns@[d],
                )
        },
    }
}

/// Reads the raw lessons of each day and lays the days out together. A
/// lesson that cannot be read takes only its own day out of the display.
pub fn prepare(raws: &[Vec<RawLesson>]) -> (week: WeekLayout)
    ensures
        exists|days: Seq<Vec<LessonRecord>>| is_raw_week_layout(raws@, days, week),
{
    let mut days: Vec<Vec<LessonRecord>> = Vec::new();
    let mut faults: Vec<Option<LayoutError>> = Vec::new();
    let mut d: usize = 0;
    while d < raws.len()
        invariant
            d <= raws@.len(),
            days@.len() == d,
            faults@.len() == d,
            days_wf(days@),
            forall|k: int|
                0 <= k < d ==> #[trigger] faults@[k] == day_fault(raws@[k]@) && match faults@[k] {
                    Some(e) => days@[k]@.len() == 0,
                    None => records_of(raws@[k]@, days@[k]@),
                },
        decreases raws@.len() - d,
    {
        let ghost old_days = days@;
        let ghost old_faults = faults@;
        match ingest_day(raws[d].as_slice()) {
            Ok(day) => {
                days.push(day);
                faults.push(None);
            },
            Err(e) => {
                days.push(Vec::new());
                faults.push(Some(e));
            },
        }
        proof {
            assert forall|k: int| 0 <= k < d implies days@[k] == old_days[k] && faults@[k]
                == old_faults[k] by {}
            assert forall|k: int| 0 <= k < days@.len() implies day_wf(
                (#[trigger] days@[k])@,
            ) by {
                if k < d {
                    assert(day_wf(old_days[k]@));
                }
            }
        }
        d += 1;
    }
    let week = lay_out(days.as_slice(), faults.as_slice());
    proof {
        assert(is_raw_week_layout(raws@, days@, week));
    }
    week
}

} // verus!
