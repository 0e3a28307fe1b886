//! Ordering the lessons of one day by start time.

use vstd::prelude::*;
use vstd::set_lib::{lemma_int_range, lemma_len_subset, lemma_subset_equality, set_int_range};
use crate::lesson::{day_wf, LessonRecord};

verus! {

/// No lesson of `day` starts before one that stands earlier in it.
pub open spec fn sorted_by_start(day: Seq<LessonRecord>) -> bool {
    forall|j: int, k: int| 0 <= j < k < day.len() ==> day[j].start() <= day[k].start()
}

/// In `day`, the lesson at place `a` is due before the one at place `b`: it
/// starts earlier, or they start together and `a` is the earlier place.
pub open spec fn due_before(day: Seq<LessonRecord>, a: int, b: int) -> bool {
    day[a].start() < day[b].start() || (day[a].start() == day[b].start() && a < b)
}

/// `output` is `input` in stable ascending order of start time, and
/// `origin[k]` is the place in `input` that `output[k]` was taken from.
pub open spec fn stable_order(
    input: Seq<LessonRecord>,
    output: Seq<LessonRecord>,
    origin: Seq<int>,
) -> bool {
    &&& output.len() == input.len()
    &&& origin.len() == input.len()
    &&& forall|k: int|
        0 <= k < output.len() ==> 0 <= #[trigger] origin[k] < input.len() && output[k]
            == input[origin[k]]
    &&& forall|j: int, k: int|
        0 <= j < k < output.len() ==> #[trigger] due_before(input, origin[j], origin[k])
}

/// `output` holds the lessons of `input`, each once, earliest start first,
/// and lessons that start together in the order they had.
pub open spec fn is_stable_sort(input: Seq<LessonRecord>, output: Seq<LessonRecord>) -> bool {
    exists|origin: Seq<int>| stable_order(input, output, origin)
}

/// In a stable order every place of the input is the origin of some
/// place of the output: no lesson is lost.
pub proof fn lemma_origin_covers(
    input: Seq<LessonRecord>,
    output: Seq<LessonRecord>,
    origin: Seq<int>,
    v: int,
)
    requires
        stable_order(input, output, origin),
        0 <= v < input.len(),
    ensures
        origin.contains(v),
{
    let n = input.len() as int;
    assert forall|i: int, j: int|
        0 <= i < origin.len() && 0 <= j < origin.len() && i != j implies origin[i]
        != origin[j] by {
        if i < j {
            assert(due_before(input, origin[i], origin[j]));
        } else {
            assert(due_before(input, origin[j], origin[i]));
        }
    }
    origin.unique_seq_to_set();
    lemma_int_range(0, n);
    assert forall|x: int| origin.to_set().contains(x) implies set_int_range(0, n).contains(x) by {
        let k = choose|k: int| 0 <= k < origin.len() && origin[k] == x;
        assert(0 <= origin[k] < n);
    }
    assert(origin.to_set().subset_of(set_int_range(0, n)));
    lemma_len_subset(origin.to_set(), set_int_range(0, n));
    lemma_subset_equality(origin.to_set(), set_int_range(0, n));
    assert(set_int_range(0, n).contains(v));
    assert(origin.to_set().contains(v));
}

/// Two stable orders of one input take their first `k` lessons from the
/// same places.
proof fn lemma_origins_agree(
    input: Seq<LessonRecord>,
    a: Seq<LessonRecord>,
    from_a: Seq<int>,
    b: Seq<LessonRecord>,
    from_b: Seq<int>,
    k: int,
)
    requires
        stable_order(input, a, from_a),
        stable_order(input, b, from_b),
        0 <= k <= input.len(),
    ensures
        forall|j: int| 0 <= j < k ==> from_a[j] == from_b[j],
    decreases k,
{
    if k > 0 {
        lemma_origins_agree(input, a, from_a, b, from_b, k - 1);
        let x = from_a[k - 1];
        let y = from_b[k - 1];
        if x != y {
            if due_before(input, x, y) {
                lemma_origin_covers(input, b, from_b, x);
                let m = choose|m: int| 0 <= m < from_b.len() && from_b[m] == x;
                if m < k - 1 {
                    assert(from_a[m] == x);
                    assert(due_before(input, from_a[m], from_a[k - 1]));
                } else if m > k - 1 {
                    assert(due_before(input, from_b[k - 1], from_b[m]));
                }
                assert(false);
            } else {
                assert(due_before(input, y, x));
                lemma_origin_covers(input, a, from_a, y);
                let m = choose|m: int| 0 <= m < from_a.len() && from_a[m] == y;
                if m < k - 1 {
                    assert(from_b[m] == y);
                    assert(due_before(input, from_b[m], from_b[k - 1]));
                } else if m > k - 1 {
                    assert(due_before(input, from_a[k - 1], from_a[m]));
                }
                assert(false);
            }
        }
    }
}

/// A day has one stable order by start time and no other: whatever sorts
/// it so gives the same sequence of lessons.
pub proof fn lemma_stable_sort_unique(
    input: Seq<LessonRecord>,
    a: Seq<LessonRecord>,
    b: Seq<LessonRecord>,
)
    requires
        is_stable_sort(input, a),
        is_stable_sort(input, b),
    ensures
        a == b,
{
    let from_a = choose|origin: Seq<int>| stable_order(input, a, origin);
    let from_b = choose|origin: Seq<int>| stable_order(input, b, origin);
    lemma_origins_agree(input, a, from_a, b, from_b, input.len() as int);
    assert forall|k: int| 0 <= k < a.len() implies a[k] == b[k] by {
        assert(a[k] == input[from_a[k]]);
        assert(b[k] == input[from_b[k]]);
    }
    assert(a =~= b);
}

/// Sorting changes neither the number of lessons nor which lessons there
/// are: each lesson of the input stands at some place of the output.
pub proof fn lemma_sort_keeps_lessons(input: Seq<LessonRecord>, output: Seq<LessonRecord>, v: int)
    requires
        is_stable_sort(input, output),
        0 <= v < input.len(),
    ensures
        output.len() == input.len(),
        output.contains(input[v]),
{
    let origin = choose|origin: Seq<int>| stable_order(input, output, origin);
    lemma_origin_covers(input, output, origin, v);
    let k = choose|k: int| 0 <= k < origin.len() && origin[k] == v;
    assert(output[k] == input[origin[k]]);
}

/// Place of the lesson to take next from `rest`: the first of those that
/// start earliest.
fn earliest(rest: &Vec<LessonRecord>) -> (m: usize)
    requires
        rest@.len() > 0,
    ensures
        m < rest@.len(),
        forall|i: int| 0 <= i < rest@.len() ==> rest@[m as int].start() <= rest@[i].start(),
        forall|i: int| 0 <= i < m ==> rest@[m as int].start() < rest@[i].start(),
{
    let mut m: usize = 0;
    let mut i: usize = 1;
    while i < rest.len()
        invariant
            m < i <= rest@.len(),
            forall|j: int| 0 <= j < i ==> rest@[m as int].start() <= rest@[j].start(),
            forall|j: int| 0 <= j < m ==> rest@[m as int].start() < rest@[j].start(),
        decreases rest@.len() - i,
    {
        if rest[i].start_time.is_before(&rest[m].start_time) {
            m = i;
        }
        i += 1;
    }
    m
}

/// Copies the lessons of one day.
fn copy_day(day: &[LessonRecord]) -> (r: Vec<LessonRecord>)
    ensures
        r@ == day@,
{
    let mut r: Vec<LessonRecord> = Vec::new();
    let mut i: usize = 0;
    while i < day.len()
        invariant
            i <= day@.len(),
            r@ == day@.subrange(0, i as int),
        decreases day@.len() - i,
    {
        r.push(day[i].clone());
        proof {
            assert(r@ =~= day@.subrange(0, i + 1));
        }
        i += 1;
    }
    proof {
        assert(day@.subrange(0, day@.len() as int) =~= day@);
    }
    r
}

/// Orders the lessons of one day by start time, by taking the earliest of
/// those that are left again and again. Lessons that start together keep
/// the order they came in. An empty day gives an empty day.
pub fn sort_lessons(day: &[LessonRecord]) -> (sorted: Vec<LessonRecord>)
    ensures
        sorted@.len() == day@.len(),
        sorted_by_start(sorted@),
        is_stable_sort(day@, sorted@),
        day_wf(day@) ==> day_wf(sorted@),
{
    let mut rest = copy_day(day);
    let mut sorted: Vec<LessonRecord> = Vec::new();
    let ghost mut origin: Seq<int> = Seq::empty();
    let ghost mut left: Seq<int> = Seq::new(day@.len(), |i: int| i);
    while rest.len() > 0
        invariant
            sorted@.len() + rest@.len() == day@.len(),
            origin.len() == sorted@.len(),
            left.len() == rest@.len(),
            forall|i: int|
                0 <= i < rest@.len() ==> 0 <= #[trigger] left[i] < day@.len() && rest@[i]
                    == day@[left[i]],
            forall|i: int, j: int| 0 <= i < j < left.len() ==> left[i] < left[j],
            forall|k: int|
                0 <= k < sorted@.len() ==> 0 <= #[trigger] origin[k] < day@.len() && sorted@[k]
                    == day@[origin[k]],
            forall|j: int, k: int|
                0 <= j < k < sorted@.len() ==> #[trigger] due_before(day@, origin[j], origin[k]),
            forall|k: int, i: int|
                0 <= k < sorted@.len() && 0 <= i < rest@.len() ==> #[trigger] due_before(
                    day@,
                    origin[k],
                    left[i],
                ),
        decreases rest@.len(),
    {
        let m = earliest(&rest);
        let ghost before = rest@;
        let ghost old_left = left;
        let ghost old_origin = origin;
        let ghost old_sorted = sorted@;
        let next = rest.remove(m);
        sorted.push(next);
        proof {
            left = old_left.remove(m as int);
            origin = old_origin.push(old_left[m as int]);
            assert forall|j: int, k: int| 0 <= j < k < sorted@.len() implies #[trigger] due_before(
                day@,
                origin[j],
                origin[k],
            ) by {
                assert(origin[j] == old_origin[j]);
                if k < old_sorted.len() {
                    assert(origin[k] == old_origin[k]);
                    assert(due_before(day@, old_origin[j], old_origin[k]));
                } else {
                    assert(origin[k] == old_left[m as int]);
                    assert(due_before(day@, old_origin[j], old_left[m as int]));
                }
            }
            assert forall|k: int, i: int|
                0 <= k < sorted@.len() && 0 <= i < rest@.len() implies #[trigger] due_before(
                day@,
                origin[k],
                left[i],
            ) by {
                let a = if i < m { i } else { i + 1 };
                assert(left[i] == old_left[a]);
                assert(before[a] == day@[old_left[a]]);
                if k < old_sorted.len() {
                    assert(origin[k] == old_origin[k]);
                    assert(due_before(day@, old_origin[k], old_left[a]));
                } else {
                    assert(origin[k] == old_left[m as int]);
                    assert(before[m as int] == day@[old_left[m as int]]);
                    assert(before[m as int].start() <= before[a].start());
                    if a < m {
                        assert(before[m as int].start() < before[a].start());
                    } else {
                        assert(old_left[m as int] < old_left[a]);
                    }
                }
            }
        }
    }
    proof {
        assert(stable_order(day@, sorted@, origin));
        assert forall|j: int, k: int| 0 <= j < k < sorted@.len() implies sorted@[j].start()
            <= sorted@[k].start() by {
            assert(due_before(day@, origin[j], origin[k]));
            assert(sorted@[j] == day@[origin[j]]);
            assert(sorted@[k] == day@[origin[k]]);
        }
        if day_wf(day@) {
            assert forall|k: int| 0 <= k < sorted@.len() implies (#[trigger] sorted@[k]).wf() by {
                assert(sorted@[k] == day@[origin[k]]);
            }
        }
    }
    sorted
}

} // verus!
