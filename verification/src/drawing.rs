//! How the placements of a column meet its regions: every lesson with a
//! region of its own is drawn in the region that was cut for it.

use vstd::prelude::*;
use crate::compose::{
    follows_head,
    is_head,
    lemma_own_regions_bound,
    own_regions,
    placement_of,
    Placement,
    Slot,
};
use crate::constraints::{
    cursor_upto,
    day_regions,
    head_marks,
    is_sibling,
    lemma_heads_upto,
    regions_upto,
    Region,
    RegionKind,
};
use crate::lesson::LessonRecord;
use crate::time::whole_minutes;

verus! {

/// The gap that is cut before the lesson at place `k`.
pub open spec fn gap_before(day: Seq<LessonRecord>, window_start: int, k: int) -> Region {
    Region {
        kind: RegionKind::Gap,
        weight: whole_minutes(day[k].start() - cursor_upto(day, window_start, k)) as u32,
    }
}

/// The region that is cut for the lesson at place `k`.
pub open spec fn region_for(day: Seq<LessonRecord>, k: int) -> Region {
    Region { kind: RegionKind::Lesson, weight: whole_minutes(day[k].end() - day[k].start()) as u32 }
}

/// A lesson heads a pair exactly where the next lesson is its sibling, and
/// rides along exactly where it is a sibling itself.
pub proof fn lemma_marks_are_siblings(day: Seq<LessonRecord>, k: int)
    requires
        day.len() <= usize::MAX,
        0 <= k < day.len(),
    ensures
        is_head(head_marks(day), k) <==> is_sibling(day, k + 1),
        follows_head(head_marks(day), k) <==> is_sibling(day, k),
{
    let heads = head_marks(day);
    lemma_heads_upto(day, day.len() as int, k as usize);
    if is_head(heads, k) {
        let i = choose|i: int| 0 <= i < heads.len() && heads[i] == k;
        assert(heads.contains(k as usize));
    }
    if heads.contains(k as usize) {
        let i = choose|i: int| 0 <= i < heads.len() && heads[i] == k as usize;
        assert(heads[i] == k);
    }
    if k >= 1 {
        lemma_heads_upto(day, day.len() as int, (k - 1) as usize);
        if is_head(heads, k - 1) {
            let i = choose|i: int| 0 <= i < heads.len() && heads[i] == k - 1;
            assert(heads.contains((k - 1) as usize));
        }
        if heads.contains((k - 1) as usize) {
            let i = choose|i: int| 0 <= i < heads.len() && heads[i] == (k - 1) as usize;
            assert(heads[i] == k - 1);
        }
    }
}

/// The first `n` lessons give two regions, a gap and a slot, for each of
/// them that has a region of its own.
pub proof fn lemma_regions_count(day: Seq<LessonRecord>, window_start: int, n: int)
    requires
        day.len() <= usize::MAX,
        0 <= n <= day.len(),
    ensures
        regions_upto(day, window_start, n).len() == 2 * own_regions(head_marks(day), n),
    decreases n,
{
    if n > 0 {
        lemma_regions_count(day, window_start, n - 1);
        lemma_marks_are_siblings(day, n - 1);
    }
}

/// The regions of the first `n` lessons stay where they are when more
/// lessons follow.
pub proof fn lemma_regions_grow(day: Seq<LessonRecord>, window_start: int, n: int, m: int)
    requires
        0 <= n <= m <= day.len(),
    ensures
        regions_upto(day, window_start, n).len() <= regions_upto(day, window_start, m).len(),
        regions_upto(day, window_start, n) == regions_upto(day, window_start, m).subrange(
            0,
            regions_upto(day, window_start, n).len() as int,
        ),
    decreases m - n,
{
    let short = regions_upto(day, window_start, n);
    if n == m {
        assert(short =~= short.subrange(0, short.len() as int));
    } else {
        lemma_regions_grow(day, window_start, n, m - 1);
        let middle = regions_upto(day, window_start, m - 1);
        let long = regions_upto(day, window_start, m);
        assert(short =~= long.subrange(0, short.len() as int));
    }
}

/// In the regions of a day, a lesson with a region of its own finds its gap
/// and its slot at the place where it is drawn: it is placed, in the region
/// after twice the number of such lessons before it, as a whole or as the
/// first half where the next lesson is its sibling.
pub proof fn lemma_lesson_is_drawn(
    day: Seq<LessonRecord>,
    window_start: int,
    window_end: int,
    k: int,
)
    requires
        day.len() <= usize::MAX,
        day_regions(day, window_start, window_end).len() <= usize::MAX,
        0 <= k < day.len(),
        !is_sibling(day, k),
    ensures
        ({
            let regions = day_regions(day, window_start, window_end);
            let at = 2 * own_regions(head_marks(day), k) + 1;
            &&& at < regions.len()
            &&& regions[at - 1] == gap_before(day, window_start, k)
            &&& regions[at] == region_for(day, k)
            &&& placement_of(head_marks(day), regions.len() as int, k) == Some(
                Placement {
                    region: at as usize,
                    lesson: k as usize,
                    slot: if is_sibling(day, k + 1) {
                        Slot::FirstHalf
                    } else {
                        Slot::Full
                    },
                },
            )
        }),
{
    let heads = head_marks(day);
    let body = regions_upto(day, window_start, day.len() as int);
    let regions = day_regions(day, window_start, window_end);
    lemma_regions_count(day, window_start, k);
    lemma_regions_count(day, window_start, k + 1);
    lemma_regions_count(day, window_start, day.len() as int);
    lemma_own_regions_bound(heads, day.len() as int);
    lemma_regions_grow(day, window_start, k + 1, day.len() as int);
    lemma_marks_are_siblings(day, k);
    let upto = regions_upto(day, window_start, k + 1);
    let at = 2 * own_regions(heads, k) + 1;
    assert(upto[at - 1] == gap_before(day, window_start, k));
    assert(upto[at] == region_for(day, k));
    assert(body[at - 1] == upto[at - 1]);
    assert(body[at] == upto[at]);
    assert(regions[at] == body[at]);
    assert(regions[at - 1] == body[at - 1]);
}

/// The sibling right after a lesson with a region of its own is drawn in
/// the second half of that region.
pub proof fn lemma_sibling_is_drawn(
    day: Seq<LessonRecord>,
    window_start: int,
    window_end: int,
    k: int,
)
    requires
        day.len() <= usize::MAX,
        day_regions(day, window_start, window_end).len() <= usize::MAX,
        1 <= k < day.len(),
        is_sibling(day, k),
        !is_sibling(day, k - 1),
    ensures
        ({
            let regions = day_regions(day, window_start, window_end);
            let at = 2 * own_regions(head_marks(day), k - 1) + 1;
            &&& at < regions.len()
            &&& regions[at] == region_for(day, k - 1)
            &&& placement_of(head_marks(day), regions.len() as int, k) == Some(
                Placement { region: at as usize, lesson: k as usize, slot: Slot::SecondHalf },
            )
        }),
{
    lemma_lesson_is_drawn(day, window_start, window_end, k - 1);
    lemma_marks_are_siblings(day, k);
    lemma_marks_are_siblings(day, k - 1);
}

} // verus!
