//! Cutting one sorted day into regions of the shared day window, and finding
//! the lessons that are simultaneous with the one before them.

use vstd::prelude::*;
use crate::lesson::{day_wf, LayoutError, LessonRecord};
use crate::time::{duration_minutes, whole_minutes, Time};

verus! {

/// What a region of a day column shows.
#[derive(Clone, Copy, Debug, PartialEq, Eq, Structural)]
pub enum RegionKind {
    /// Idle time: drawn as empty space.
    Gap,
    /// The slot of a lesson, shared with its sibling where it heads a pair.
    Lesson,
}

/// One vertical slice of a day column. Its share of the column's height is
/// `weight` over the span of the day window, both in minutes.
#[derive(Clone, Copy, Debug, PartialEq, Eq, Structural)]
pub struct Region {
    pub kind: RegionKind,
    pub weight: u32,
}

/// The layout of one day column.
#[derive(Debug)]
pub struct DayLayout {
    /// Regions from the top of the column to its bottom.
    pub regions: Vec<Region>,
    /// Sorted places of the lessons that head a pair, ascending.
    pub heads: Vec<usize>,
    /// Minutes of the day window: the denominator of every weight.
    pub span: u32,
}

/// The lesson at place `i` is simultaneous with the one just before it: they
/// start together or end together. Such a lesson gets no region of its own.
pub open spec fn is_sibling(day: Seq<LessonRecord>, i: int) -> bool {
    1 <= i < day.len() && (day[i].end() == day[i - 1].end() || day[i].start() == day[i
        - 1].start())
}

/// Places that head a pair among the first `n` lessons, ascending: `i - 1`
/// for every sibling `i < n`.
pub open spec fn heads_upto(day: Seq<LessonRecord>, n: int) -> Seq<usize>
    decreases n,
{
    if n <= 1 {
        Seq::empty()
    } else if is_sibling(day, n - 1) {
        heads_upto(day, n - 1).push((n - 2) as usize)
    } else {
        heads_upto(day, n - 1)
    }
}

/// Places of the lessons of `day` that head a pair, ascending.
pub open spec fn head_marks(day: Seq<LessonRecord>) -> Seq<usize> {
    heads_upto(day, day.len() as int)
}

/// Where the cursor stands after the first `n` lessons, in seconds since
/// midnight: at the end of the last lesson that is no sibling, or at the
/// start of the window.
pub open spec fn cursor_upto(day: Seq<LessonRecord>, window_start: int, n: int) -> int
    decreases n,
{
    if n <= 0 {
        window_start
    } else if is_sibling(day, n - 1) {
        cursor_upto(day, window_start, n - 1)
    } else {
        day[n - 1].end()
    }
}

/// The regions that the first `n` lessons give: for each lesson that is no
/// sibling, the gap from the cursor to its start, then the lesson itself.
pub open spec fn regions_upto(day: Seq<LessonRecord>, window_start: int, n: int) -> Seq<Region>
    decreases n,
{
    if n <= 0 {
        Seq::empty()
    } else if is_sibling(day, n - 1) {
        regions_upto(day, window_start, n - 1)
    } else {
        regions_upto(day, window_start, n - 1).push(
            Region {
                kind: RegionKind::Gap,
                weight: whole_minutes(day[n - 1].start() - cursor_upto(day, window_start, n - 1)) as u32,
            },
        ).push(
            Region {
                kind: RegionKind::Lesson,
                weight: whole_minutes(day[n - 1].end() - day[n - 1].start()) as u32,
            },
        )
    }
}

/// Sum of the weights of `regions`.
pub open spec fn total_weight(regions: Seq<Region>) -> int
    decreases regions.len(),
{
    if regions.len() == 0 {
        0
    } else {
        total_weight(regions.drop_last()) + regions.last().weight
    }
}

/// The regions of a whole day: those of its lessons, and one trailing gap
/// for what is left of the window, if anything is left.
pub open spec fn day_regions(day: Seq<LessonRecord>, window_start: int, window_end: int) -> Seq<
    Region,
> {
    let body = regions_upto(day, window_start, day.len() as int);
    let left = whole_minutes(window_end - window_start) - total_weight(body);
    if left > 0 {
        body.push(Region { kind: RegionKind::Gap, weight: left as u32 })
    } else {
        body
    }
}

/// The lesson at place `n` cannot be laid out: it is no sibling, and it
/// starts before the cursor or ends before it starts.
pub open spec fn lesson_fault(day: Seq<LessonRecord>, window_start: int, n: int) -> bool {
    !is_sibling(day, n) && (day[n].start() < cursor_upto(day, window_start, n) || day[n].end()
        < day[n].start())
}

/// The day cannot be laid out in the window: the window runs backwards, a
/// lesson is at fault, or the lessons run past the end of the window.
pub open spec fn schedule_fault(day: Seq<LessonRecord>, window_start: int, window_end: int) -> bool {
    ||| window_end < window_start
    ||| exists|n: int| 0 <= n < day.len() && #[trigger] lesson_fault(day, window_start, n)
    ||| cursor_upto(day, window_start, day.len() as int) > window_end
}

/// Adding a region adds its weight.
pub proof fn lemma_total_weight_push(regions: Seq<Region>, r: Region)
    ensures
        total_weight(regions.push(r)) == total_weight(regions) + r.weight,
{
    assert(regions.push(r).drop_last() =~= regions);
}

/// The regions of a day that can be laid out fill the window exactly: their
/// weights add up to the minutes between the window's start and its end.
pub proof fn lemma_regions_fill_window(day: Seq<LessonRecord>, window_start: int, window_end: int)
    requires
        day_wf(day),
        0 <= window_start < 86_400,
        0 <= window_end < 86_400,
        !schedule_fault(day, window_start, window_end),
    ensures
        total_weight(day_regions(day, window_start, window_end)) == whole_minutes(
            window_end - window_start,
        ),
{
    lemma_body_weight(day, window_start, day.len() as int);
    let body = regions_upto(day, window_start, day.len() as int);
    let left = whole_minutes(window_end - window_start) - total_weight(body);
    if left > 0 {
        lemma_total_weight_push(body, Region { kind: RegionKind::Gap, weight: left as u32 });
    }
}

/// While no lesson among the first `n` is at fault, the cursor does not
/// fall behind the start of the window, and the regions so far weigh no
/// more than the minutes that the cursor has moved.
pub proof fn lemma_body_weight(day: Seq<LessonRecord>, window_start: int, n: int)
    requires
        day_wf(day),
        0 <= window_start < 86_400,
        0 <= n <= day.len(),
        forall|k: int| 0 <= k < n ==> !#[trigger] lesson_fault(day, window_start, k),
    ensures
        window_start <= cursor_upto(day, window_start, n) < 86_400,
        0 <= total_weight(regions_upto(day, window_start, n)) <= whole_minutes(
            cursor_upto(day, window_start, n) - window_start,
        ),
    decreases n,
{
    if n > 0 {
        lemma_body_weight(day, window_start, n - 1);
        assert(!lesson_fault(day, window_start, n - 1));
        assert(day[n - 1].wf());
        if !is_sibling(day, n - 1) {
            let before = regions_upto(day, window_start, n - 1);
            let gap = Region {
                kind: RegionKind::Gap,
                weight: whole_minutes(day[n - 1].start() - cursor_upto(day, window_start, n - 1)) as u32,
            };
            let slot = Region {
                kind: RegionKind::Lesson,
                weight: whole_minutes(day[n - 1].end() - day[n - 1].start()) as u32,
            };
            lemma_total_weight_push(before, gap);
            lemma_total_weight_push(before.push(gap), slot);
        }
    }
}

/// A day without lessons, in a window of at least one minute, is one gap
/// over the whole window.
pub proof fn lemma_idle_day(window_start: int, window_end: int)
    requires
        whole_minutes(window_end - window_start) > 0,
    ensures
        !schedule_fault(Seq::<LessonRecord>::empty(), window_start, window_end),
        day_regions(Seq::<LessonRecord>::empty(), window_start, window_end) == seq![
            Region {
                kind: RegionKind::Gap,
                weight: whole_minutes(window_end - window_start) as u32,
            },
        ],
{
    let day = Seq::<LessonRecord>::empty();
    assert(regions_upto(day, window_start, 0) =~= Seq::<Region>::empty());
    assert(day_regions(day, window_start, window_end) =~= seq![
        Region { kind: RegionKind::Gap, weight: whole_minutes(window_end - window_start) as u32 },
    ]);
}

/// The places that head a pair among the first `n` lessons are those
/// whose next lesson is a sibling.
pub proof fn lemma_heads_upto(day: Seq<LessonRecord>, n: int, k: usize)
    requires
        0 <= n <= day.len() <= usize::MAX,
    ensures
        heads_upto(day, n).contains(k) <==> k + 1 < n && is_sibling(day, k + 1),
    decreases n,
{
    if n > 1 {
        lemma_heads_upto(day, n - 1, k);
        let before = heads_upto(day, n - 1);
        if is_sibling(day, n - 1) {
            let now = before.push((n - 2) as usize);
            if before.contains(k) {
                let i = choose|i: int| 0 <= i < before.len() && before[i] == k;
                assert(now[i] == k);
            }
            if now.contains(k) {
                let i = choose|i: int| 0 <= i < now.len() && now[i] == k;
                if i < before.len() {
                    assert(before[i] == k);
                }
            }
            if k == n - 2 {
                assert(now[now.len() - 1] == k);
            }
        }
    }
}

/// Cuts one sorted day into regions of the window from `window_start` to
/// `window_end`, and marks the lessons that head a pair.
///
/// Each lesson that is no sibling of the one before it gives a gap from the
/// cursor to its start and a region of its own length; what is left of the
/// window after the last of them is one trailing gap. A day without lessons
/// is one gap over the whole window.
pub fn generate_constraints(day: &[LessonRecord], window_start: Time, window_end: Time) -> (r:
    Result<DayLayout, LayoutError>)
    requires
        day_wf(day@),
        window_start.wf(),
        window_end.wf(),
    ensures
        match r {
            Ok(layout) => {
                &&& !schedule_fault(day@, window_start@, window_end@)
                &&& layout.regions@ == day_regions(day@, window_start@, window_end@)
                &&& layout.heads@ == head_marks(day@)
                &&& layout.span == whole_minutes(window_end@ - window_start@)
                &&& total_weight(layout.regions@) == layout.span
            },
            Err(e) => e == LayoutError::InvalidSchedule && schedule_fault(
                day@,
                window_start@,
                window_end@,
            ),
        },
{
    if window_end.is_before(&window_start) {
        return Err(LayoutError::InvalidSchedule);
    }
    let span_minutes = duration_minutes(window_start, window_end);
    let span: u32 = span_minutes as u32;
    let mut regions: Vec<Region> = Vec::new();
    let mut heads: Vec<usize> = Vec::new();
    let mut cursor = window_start;
    let mut accumulated: u32 = 0;
    let mut i: usize = 0;
    while i < day.len()
        invariant
            day_wf(day@),
            0 <= window_start@ < 86_400,
            i <= day@.len(),
            forall|k: int| 0 <= k < i ==> !#[trigger] lesson_fault(day@, window_start@, k),
            cursor.wf(),
            cursor@ == cursor_upto(day@, window_start@, i as int),
            regions@ == regions_upto(day@, window_start@, i as int),
            heads@ == heads_upto(day@, i as int),
            accumulated == total_weight(regions@),
            accumulated <= whole_minutes(cursor@ - window_start@),
            window_start@ <= cursor@,
        decreases day@.len() - i,
    {
        let lesson = &day[i];
        proof {
            assert(day@[i as int].wf());
        }
        let sibling = i > 0 && (lesson.end_time.same_as(&day[i - 1].end_time)
            || lesson.start_time.same_as(&day[i - 1].start_time));
        if sibling {
            heads.push(i - 1);
        } else {
            if lesson.start_time.is_before(&cursor) || lesson.end_time.is_before(
                &lesson.start_time,
            ) {
                proof {
                    assert(lesson_fault(day@, window_start@, i as int));
                }
                return Err(LayoutError::InvalidSchedule);
            }
            let gap_minutes = duration_minutes(cursor, lesson.start_time);
            let lesson_minutes = duration_minutes(lesson.start_time, lesson.end_time);
            let gap = Region { kind: RegionKind::Gap, weight: gap_minutes as u32 };
            let slot = Region { kind: RegionKind::Lesson, weight: lesson_minutes as u32 };
            proof {
                lemma_total_weight_push(regions@, gap);
                lemma_total_weight_push(regions@.push(gap), slot);
            }
            regions.push(gap);
            regions.push(slot);
            accumulated = accumulated + gap.weight + slot.weight;
            cursor = lesson.end_time;
        }
        i += 1;
    }
    if window_end.is_before(&cursor) {
        return Err(LayoutError::InvalidSchedule);
    }
    if span > accumulated {
        let trailing = Region { kind: RegionKind::Gap, weight: span - accumulated };
        proof {
            lemma_total_weight_push(regions@, trailing);
        }
        regions.push(trailing);
    }
    Ok(DayLayout { regions, heads, span })
}

} // verus!
