//! The day window: one vertical timescale shared by all columns.

use vstd::prelude::*;
use crate::lesson::{day_wf, LessonRecord};
use crate::time::Time;

verus! {

/// The span of the day that is shown, from the earliest start of a lesson to
/// the latest end of one.
#[derive(Clone, Copy, Debug)]
pub struct Window {
    pub start: Time,
    pub end: Time,
}

impl Window {
    /// Both ends are times of day.
    pub open spec fn wf(&self) -> bool {
        self.start.wf() && self.end.wf()
    }
}

/// No lesson of `day` starts before `start` or ends after `end`.
pub open spec fn day_within(day: Seq<LessonRecord>, start: int, end: int) -> bool {
    forall|i: int|
        0 <= i < day.len() ==> start <= (#[trigger] day[i]).start() && day[i].end() <= end
}

/// Some lesson of `day` starts at `t`.
pub open spec fn starts_at(day: Seq<LessonRecord>, t: int) -> bool {
    exists|i: int| 0 <= i < day.len() && (#[trigger] day[i]).start() == t
}

/// Some lesson of `day` ends at `t`.
pub open spec fn ends_at(day: Seq<LessonRecord>, t: int) -> bool {
    exists|i: int| 0 <= i < day.len() && (#[trigger] day[i]).end() == t
}

/// Every day among `days` is well formed.
pub open spec fn days_wf(days: Seq<Vec<LessonRecord>>) -> bool {
    forall|d: int| 0 <= d < days.len() ==> day_wf((#[trigger] days[d])@)
}

/// No day among `days` has a lesson.
pub open spec fn all_idle(days: Seq<Vec<LessonRecord>>) -> bool {
    forall|d: int| 0 <= d < days.len() ==> (#[trigger] days[d])@.len() == 0
}

/// `start` is the earliest start and `end` the latest end among all the
/// lessons of `days`.
pub open spec fn is_window(days: Seq<Vec<LessonRecord>>, start: int, end: int) -> bool {
    &&& forall|d: int| 0 <= d < days.len() ==> day_within((#[trigger] days[d])@, start, end)
    &&& exists|d: int| 0 <= d < days.len() && starts_at((#[trigger] days[d])@, start)
    &&& exists|d: int| 0 <= d < days.len() && ends_at((#[trigger] days[d])@, end)
}

/// The earlier of two times.
fn earlier(a: Time, b: Time) -> (r: Time)
    ensures
        r@ == if b@ < a@ { b@ } else { a@ },
        r == a || r == b,
{
    if b.is_before(&a) {
        b
    } else {
        a
    }
}

/// The later of two times.
fn later(a: Time, b: Time) -> (r: Time)
    ensures
        r@ == if a@ < b@ { b@ } else { a@ },
        r == a || r == b,
{
    if a.is_before(&b) {
        b
    } else {
        a
    }
}

/// Earliest start and latest end among the lessons of one day; nothing for
/// a day without lessons.
pub fn day_bounds(day: &[LessonRecord]) -> (r: Option<Window>)
    requires
        day_wf(day@),
    ensures
        match r {
            Some(w) => {
                &&& w.wf()
                &&& day_within(day@, w.start@, w.end@)
                &&& starts_at(day@, w.start@)
                &&& ends_at(day@, w.end@)
            },
            None => day@.len() == 0,
        },
{
    if day.len() == 0 {
        return None;
    }
    let mut start = day[0].start_time;
    let mut end = day[0].end_time;
    let mut i: usize = 1;
    proof {
        assert(day@[0].wf());
        assert(day@.subrange(0, 1)[0] == day@[0]);
    }
    while i < day.len()
        invariant
            day_wf(day@),
            1 <= i <= day@.len(),
            start.wf(),
            end.wf(),
            day_within(day@.subrange(0, i as int), start@, end@),
            starts_at(day@.subrange(0, i as int), start@),
            ends_at(day@.subrange(0, i as int), end@),
        decreases day@.len() - i,
    {
        let ghost seen = day@.subrange(0, i as int);
        let ghost next = day@.subrange(0, i + 1);
        let ghost s = choose|k: int| 0 <= k < seen.len() && (#[trigger] seen[k]).start() == start@;
        let ghost e = choose|k: int| 0 <= k < seen.len() && (#[trigger] seen[k]).end() == end@;
        proof {
            assert(day@[i as int].wf());
        }
        start = earlier(start, day[i].start_time);
        end = later(end, day[i].end_time);
        proof {
            assert forall|k: int| 0 <= k < next.len() implies start@ <= (#[trigger] next[k]).start()
                && next[k].end() <= end@ by {
                if k < i {
                    assert(next[k] == seen[k]);
                }
            }
            assert(next[s] == seen[s]);
            assert(next[e] == seen[e]);
            assert(next[i as int] == day@[i as int]);
            assert(starts_at(next, start@)) by {
                if start@ == seen[s].start() {
                    assert(next[s].start() == start@);
                } else {
                    assert(next[i as int].start() == start@);
                }
            }
            assert(ends_at(next, end@)) by {
                if end@ == seen[e].end() {
                    assert(next[e].end() == end@);
                } else {
                    assert(next[i as int].end() == end@);
                }
            }
        }
        i += 1;
    }
    proof {
        assert(day@.subrange(0, day@.len() as int) =~= day@);
    }
    Some(Window { start, end })
}

/// The day window of all the columns shown together: earliest start and
/// latest end over every lesson of every day. Nothing where no day has a
/// lesson.
pub fn day_window(days: &[Vec<LessonRecord>]) -> (r: Option<Window>)
    requires
        days_wf(days@),
    ensures
        match r {
            Some(w) => w.wf() && is_window(days@, w.start@, w.end@),
            None => all_idle(days@),
        },
{
    let mut found: Option<Window> = None;
    let mut d: usize = 0;
    while d < days.len()
        invariant
            days_wf(days@),
            d <= days@.len(),
            match found {
                Some(w) => w.wf() && is_window(days@.subrange(0, d as int), w.start@, w.end@),
                None => all_idle(days@.subrange(0, d as int)),
            },
        decreases days@.len() - d,
    {
        let ghost seen = days@.subrange(0, d as int);
        let ghost next = days@.subrange(0, d + 1);
        proof {
            assert(day_wf(days@[d as int]@));
            assert(next[d as int] == days@[d as int]);
            assert forall|k: int| 0 <= k < d implies next[k] == seen[k] by {}
        }
        let today = day_bounds(days[d].as_slice());
        match (found, today) {
            (None, None) => {
                proof {
                    assert forall|k: int| 0 <= k < next.len() implies (#[trigger] next[k])@.len()
                        == 0 by {
                        if k < d {
                            assert(seen[k]@.len() == 0);
                        }
                    }
                }
            },
            (None, Some(w)) => {
                proof {
                    assert forall|k: int| 0 <= k < next.len() implies day_within(
                        (#[trigger] next[k])@,
                        w.start@,
                        w.end@,
                    ) by {
                        if k < d {
                            assert(seen[k]@.len() == 0);
                        }
                    }
                    assert(starts_at(next[d as int]@, w.start@));
                    assert(ends_at(next[d as int]@, w.end@));
                }
                found = Some(w);
            },
            (Some(w), None) => {
                proof {
                    let ds = choose|k: int| 0 <= k < seen.len() && starts_at((#[trigger] seen[k])@, w.start@);
                    let de = choose|k: int| 0 <= k < seen.len() && ends_at((#[trigger] seen[k])@, w.end@);
                    assert(next[ds] == seen[ds]);
                    assert(next[de] == seen[de]);
                    assert forall|k: int| 0 <= k < next.len() implies day_within(
                        (#[trigger] next[k])@,
                        w.start@,
                        w.end@,
                    ) by {
                        if k < d {
                            assert(day_within(seen[k]@, w.start@, w.end@));
                        }
                    }
                    assert(starts_at(next[ds]@, w.start@));
                    assert(ends_at(next[de]@, w.end@));
                }
            },
            (Some(w), Some(t)) => {
                let start = earlier(w.start, t.start);
                let end = later(w.end, t.end);
                proof {
                    let ds = choose|k: int| 0 <= k < seen.len() && starts_at((#[trigger] seen[k])@, w.start@);
                    let de = choose|k: int| 0 <= k < seen.len() && ends_at((#[trigger] seen[k])@, w.end@);
                    assert(next[ds] == seen[ds]);
                    assert(next[de] == seen[de]);
                    assert forall|k: int| 0 <= k < next.len() implies day_within(
                        (#[trigger] next[k])@,
                        start@,
                        end@,
                    ) by {
                        if k < d {
                            assert(day_within(seen[k]@, w.start@, w.end@));
                        } else {
                            assert(day_within(next[k]@, t.start@, t.end@));
                        }
                    }
                    if start@ == w.start@ {
                        assert(starts_at(next[ds]@, start@));
                    } else {
                        assert(starts_at(next[d as int]@, start@));
                    }
                    if end@ == w.end@ {
                        assert(ends_at(next[de]@, end@));
                    } else {
                        assert(ends_at(next[d as int]@, end@));
                    }
                }
                found = Some(Window { start, end });
            },
        }
        d += 1;
    }
    proof {
        assert(days@.subrange(0, days@.len() as int) =~= days@);
    }
    found
}

} // verus!
