//! Arranging the columns: equal widths side by side, and within a column
//! the region and the half of it that each lesson is drawn in.

use vstd::prelude::*;

verus! {

/// The part of a region that a lesson is drawn in.
#[derive(Clone, Copy, Debug, PartialEq, Eq, Structural)]
pub enum Slot {
    /// The whole region, as a bordered block.
    Full,
    /// The first of two equal halves: the head of a pair, with a compact
    /// two-line label.
    FirstHalf,
    /// The second of two equal halves: the sibling of a pair, with a
    /// compact two-line label.
    SecondHalf,
}

/// Where one lesson of a column is drawn.
#[derive(Clone, Copy, Debug, PartialEq, Eq, Structural)]
pub struct Placement {
    /// Index of the region among the regions of the column.
    pub region: usize,
    /// Place of the lesson in the sorted day.
    pub lesson: usize,
    pub slot: Slot,
}

/// The lesson at place `k` heads a pair.
pub open spec fn is_head(heads: Seq<usize>, k: int) -> bool {
    exists|i: int| 0 <= i < heads.len() && #[trigger] heads[i] == k
}

/// The lesson at place `k` rides in the region of the one before it.
pub open spec fn follows_head(heads: Seq<usize>, k: int) -> bool {
    k >= 1 && is_head(heads, k - 1)
}

/// How many of the first `n` lessons have a region of their own.
pub open spec fn own_regions(heads: Seq<usize>, n: int) -> int
    decreases n,
{
    if n <= 0 {
        0
    } else if follows_head(heads, n - 1) {
        own_regions(heads, n - 1)
    } else {
        own_regions(heads, n - 1) + 1
    }
}

/// Where the lesson at place `k` is drawn in a column of `regions` regions,
/// if it is drawn.
///
/// A lesson with a region of its own takes that region: whole, or its first
/// half where it heads a pair. The lesson right after such a head takes the
/// second half. Only pairs are drawn: a lesson that follows a lesson which
/// itself rides along is left out, and so is one whose region the column
/// does not have.
pub open spec fn placement_of(heads: Seq<usize>, regions: int, k: int) -> Option<Placement> {
    if !follows_head(heads, k) {
        let region = 2 * own_regions(heads, k) + 1;
        if region < regions {
            Some(
                Placement {
                    region: region as usize,
                    lesson: k as usize,
                    slot: if is_head(heads, k) {
                        Slot::FirstHalf
                    } else {
                        Slot::Full
                    },
                },
            )
        } else {
            None
        }
    } else if !follows_head(heads, k - 1) {
        let region = 2 * own_regions(heads, k - 1) + 1;
        if region < regions {
            Some(Placement { region: region as usize, lesson: k as usize, slot: Slot::SecondHalf })
        } else {
            None
        }
    } else {
        None
    }
}

/// The placements of the first `n` lessons, in the order of the lessons.
pub open spec fn placements_upto(heads: Seq<usize>, regions: int, n: int) -> Seq<Placement>
    decreases n,
{
    if n <= 0 {
        Seq::empty()
    } else {
        match placement_of(heads, regions, n - 1) {
            Some(p) => placements_upto(heads, regions, n - 1).push(p),
            None => placements_upto(heads, regions, n - 1),
        }
    }
}

/// No more lessons have a region of their own than there are lessons.
pub proof fn lemma_own_regions_bound(heads: Seq<usize>, n: int)
    requires
        0 <= n,
    ensures
        0 <= own_regions(heads, n) <= n,
    decreases n,
{
    if n > 0 {
        lemma_own_regions_bound(heads, n - 1);
    }
}

/// Whether `k` is among `heads`.
pub fn heads_contain(heads: &[usize], k: usize) -> (r: bool)
    ensures
        r == is_head(heads@, k as int),
{
    let mut i: usize = 0;
    while i < heads.len()
        invariant
            i <= heads@.len(),
            forall|j: int| 0 <= j < i ==> heads@[j] != k,
        decreases heads@.len() - i,
    {
        if heads[i] == k {
            return true;
        }
        i += 1;
    }
    false
}

/// The share of the width, in percent, that each of `columns` columns gets:
/// all the same, `100 / columns` rounded down.
pub fn column_shares(columns: usize) -> (shares: Vec<u16>)
    ensures
        shares@.len() == columns,
        forall|i: int| 0 <= i < columns ==> #[trigger] shares@[i] == 100int / (columns as int),
{
    let mut shares: Vec<u16> = Vec::new();
    if columns == 0 {
        return shares;
    }
    proof {
        let n = columns as int;
        assert(0 <= 100int / n <= 100) by (nonlinear_arith)
            requires
                n >= 1,
        ;
        assert(n > 100 ==> 100int / n == 0) by (nonlinear_arith)
            requires
                n >= 1,
        ;
    }
    let share: u16 = if columns > 100 {
        0
    } else {
        (100 / columns) as u16
    };
    let mut i: usize = 0;
    while i < columns
        invariant
            i <= columns,
            columns > 0,
            share == 100int / (columns as int),
            shares@.len() == i,
            forall|j: int| 0 <= j < i ==> #[trigger] shares@[j] == share,
        decreases columns - i,
    {
        shares.push(share);
        i += 1;
    }
    shares
}

/// Walks the lessons of one sorted day and says where each is drawn, given
/// the places that head a pair and the number of regions of the column.
pub fn place_lessons(heads: &[usize], regions: usize, lessons: usize) -> (placed: Vec<Placement>)
    ensures
        placed@ == placements_upto(heads@, regions as int, lessons as int),
{
    let mut placed: Vec<Placement> = Vec::new();
    // Lessons so far with a region of their own.
    let mut own: usize = 0;
    // Whether the lesson before this one rides along, and whether it heads a pair.
    let mut previous_follows = false;
    let mut previous_heads = false;
    let mut k: usize = 0;
    while k < lessons
        invariant
            k <= lessons,
            own == own_regions(heads@, k as int),
            previous_heads == (k >= 1 && is_head(heads@, k - 1)),
            previous_follows == (k >= 1 && follows_head(heads@, k - 1)),
            placed@ == placements_upto(heads@, regions as int, k as int),
        decreases lessons - k,
    {
        proof {
            lemma_own_regions_bound(heads@, k as int);
        }
        let heads_pair = heads_contain(heads, k);
        let follows = previous_heads;
        if !follows {
            if own < regions / 2 {
                let slot = if heads_pair {
                    Slot::FirstHalf
                } else {
                    Slot::Full
                };
                placed.push(Placement { region: 2 * own + 1, lesson: k, slot });
            }
            own += 1;
        } else if !previous_follows {
            proof {
                lemma_own_regions_bound(heads@, k - 1);
                assert(own_regions(heads@, k as int) == own_regions(heads@, k - 1) + 1);
            }
            if own - 1 < regions / 2 {
                placed.push(
                    Placement { region: 2 * (own - 1) + 1, lesson: k, slot: Slot::SecondHalf },
                );
            }
        }
        previous_follows = follows;
        previous_heads = heads_pair;
        k += 1;
    }
    placed
}

} // verus!
