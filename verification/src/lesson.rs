//! Lesson records: what the timetable provider hands over, and the typed
//! form that the layout works on.

use vstd::prelude::*;
use crate::color::{parse_color, tag_color, Rgb};
use crate::time::{clock_format, clock_seconds, parse_time, reading_time, Time};

verus! {

/// Why a set of lessons cannot be laid out.
#[derive(Clone, Copy, Debug, PartialEq, Eq, Structural)]
pub enum LayoutError {
    /// A start or end time is no `HH:MM:SS` clock time.
    TimeFormat,
    /// A colour tag is no `#RRGGBB`.
    ColorFormat,
    /// A lesson carries fewer than three display texts.
    MissingLabel,
    /// Lessons overlap, run backwards or leave the day window.
    InvalidSchedule,
}

/// One lesson as the provider sends it: times and colour still text.
#[derive(Debug)]
pub struct RawLesson {
    pub time_start: String,
    pub time_end: String,
    pub texts: Vec<String>,
    pub color: String,
    pub day_of_week_number: i32,
}

/// What a raw lesson says, as plain text and numbers.
pub struct RawLessonView {
    pub time_start: Seq<char>,
    pub time_end: Seq<char>,
    pub texts: Seq<Seq<char>>,
    pub color: Seq<char>,
    pub day_of_week_number: i32,
}

impl View for RawLesson {
    type V = RawLessonView;

    open spec fn view(&self) -> RawLessonView {
        RawLessonView {
            time_start: self.time_start@,
            time_end: self.time_end@,
            texts: Seq::new(self.texts@.len(), |i: int| self.texts@[i]@),
            color: self.color@,
            day_of_week_number: self.day_of_week_number,
        }
    }
}

impl Clone for RawLesson {
    fn clone(&self) -> (r: Self)
        ensures
            r@ == self@,
    {
        let mut texts: Vec<String> = Vec::new();
        let mut i: usize = 0;
        while i < self.texts.len()
            invariant
                i <= self.texts@.len(),
                texts@.len() == i,
                forall|k: int| 0 <= k < i ==> (#[trigger] texts@[k])@ == self.texts@[k]@,
            decreases self.texts@.len() - i,
        {
            texts.push(self.texts[i].clone());
            i += 1;
        }
        let r = RawLesson {
            time_start: self.time_start.clone(),
            time_end: self.time_end.clone(),
            texts,
            color: self.color.clone(),
            day_of_week_number: self.day_of_week_number,
        };
        proof {
            assert(r@.texts =~= self@.texts);
        }
        r
    }
}

/// One scheduled class occurrence.
#[derive(Debug)]
pub struct LessonRecord {
    pub start_time: Time,
    pub end_time: Time,
    /// Title of the lesson block.
    pub label_primary: String,
    /// Extra line.
    pub label_secondary: String,
    /// Label beside the end time.
    pub label_tertiary: String,
    pub color: Rgb,
    /// Weekday number, Monday being 1.
    pub day_index: i32,
}

impl LessonRecord {
    /// Both times lie within one day.
    pub open spec fn wf(&self) -> bool {
        self.start_time.wf() && self.end_time.wf()
    }

    /// Start of the lesson, in seconds since midnight.
    pub open spec fn start(&self) -> int {
        self.start_time@
    }

    /// End of the lesson, in seconds since midnight.
    pub open spec fn end(&self) -> int {
        self.end_time@
    }
}

impl Clone for LessonRecord {
    fn clone(&self) -> (r: Self)
        ensures
            r == *self,
    {
        LessonRecord {
            start_time: self.start_time,
            end_time: self.end_time,
            label_primary: self.label_primary.clone(),
            label_secondary: self.label_secondary.clone(),
            label_tertiary: self.label_tertiary.clone(),
            color: self.color,
            day_index: self.day_index,
        }
    }
}

/// Every record of a day is well formed.
pub open spec fn day_wf(day: Seq<LessonRecord>) -> bool {
    forall|i: int| 0 <= i < day.len() ==> (#[trigger] day[i]).wf()
}

/// The error that a raw lesson is refused with, if it is refused: times are
/// looked at first, then the colour, then the texts.
pub open spec fn raw_fault(raw: RawLesson) -> Option<LayoutError> {
    if reading_time(clock_seconds(raw.time_start@, clock_format())).is_none() || reading_time(
        clock_seconds(raw.time_end@, clock_format()),
    ).is_none() {
        Some(LayoutError::TimeFormat)
    } else if tag_color(raw.color@).is_none() {
        Some(LayoutError::ColorFormat)
    } else if raw.texts@.len() < 3 {
        Some(LayoutError::MissingLabel)
    } else {
        None
    }
}

/// Whether `rec` is the typed form of `raw`.
pub open spec fn record_of(raw: RawLesson, rec: LessonRecord) -> bool {
    &&& rec.wf()
    &&& Some(rec.start_time@) == reading_time(clock_seconds(raw.time_start@, clock_format()))
    &&& Some(rec.end_time@) == reading_time(clock_seconds(raw.time_end@, clock_format()))
    &&& Some(rec.color) == tag_color(raw.color@)
    &&& raw.texts@.len() >= 3
    &&& rec.label_primary@ == raw.texts@[0]@
    &&& rec.label_secondary@ == raw.texts@[1]@
    &&& rec.label_tertiary@ == raw.texts@[2]@
    &&& rec.day_index == raw.day_of_week_number
}

/// Parses the times and the colour of one raw lesson, once, and keeps its
/// first three texts as labels.
pub fn ingest(raw: &RawLesson) -> (r: Result<LessonRecord, LayoutError>)
    ensures
        match raw_fault(*raw) {
            Some(e) => r == Err::<LessonRecord, LayoutError>(e),
            None => r.is_ok() && record_of(*raw, r.unwrap()),
        },
{
    let start_time = match parse_time(raw.time_start.as_str()) {
        Ok(t) => t,
        Err(_) => {
            return Err(LayoutError::TimeFormat);
        },
    };
    let end_time = match parse_time(raw.time_end.as_str()) {
        Ok(t) => t,
        Err(_) => {
            return Err(LayoutError::TimeFormat);
        },
    };
    let color = match parse_color(raw.color.as_str()) {
        Ok(c) => c,
        Err(_) => {
            return Err(LayoutError::ColorFormat);
        },
    };
    if raw.texts.len() < 3 {
        return Err(LayoutError::MissingLabel);
    }
    Ok(
        LessonRecord {
            start_time,
            end_time,
            label_primary: raw.texts[0].clone(),
            label_secondary: raw.texts[1].clone(),
            label_tertiary: raw.texts[2].clone(),
            color,
            day_index: raw.day_of_week_number,
        },
    )
}

/// The error that a day of raw lessons is refused with, if it is refused:
/// that of the first lesson at fault.
pub open spec fn day_fault(raws: Seq<RawLesson>) -> Option<LayoutError>
    decreases raws.len(),
{
    if raws.len() == 0 {
        None
    } else {
        match day_fault(raws.drop_last()) {
            Some(e) => Some(e),
            None => raw_fault(raws.last()),
        }
    }
}

/// `day` holds the typed forms of `raws`, one for one and in their order.
pub open spec fn records_of(raws: Seq<RawLesson>, day: Seq<LessonRecord>) -> bool {
    &&& day.len() == raws.len()
    &&& forall|i: int| 0 <= i < raws.len() ==> record_of(#[trigger] raws[i], day[i])
}

/// The typed forms of the lessons of one day, in the order given; the first
/// lesson that is refused decides the error.
pub fn ingest_day(raws: &[RawLesson]) -> (r: Result<Vec<LessonRecord>, LayoutError>)
    ensures
        match day_fault(raws@) {
            Some(e) => r == Err::<Vec<LessonRecord>, LayoutError>(e),
            None => r.is_ok() && records_of(raws@, r.unwrap()@) && day_wf(r.unwrap()@),
        },
{
    let mut day: Vec<LessonRecord> = Vec::new();
    let mut k: usize = 0;
    while k < raws.len()
        invariant
            k <= raws@.len(),
            day_fault(raws@.subrange(0, k as int)).is_none(),
            records_of(raws@.subrange(0, k as int), day@),
        decreases raws@.len() - k,
    {
        let ghost seen = raws@.subrange(0, k as int);
        let ghost next = raws@.subrange(0, k + 1);
        proof {
            assert(next.drop_last() =~= seen);
            assert(next.last() == raws@[k as int]);
        }
        match ingest(&raws[k]) {
            Ok(rec) => {
                day.push(rec);
                proof {
                    assert forall|i: int| 0 <= i < next.len() implies record_of(
                        #[trigger] next[i],
                        day@[i],
                    ) by {
                        if i < k {
                            assert(next[i] == seen[i]);
                        }
                    }
                }
            },
            Err(e) => {
                proof {
                    lemma_day_fault_stays(raws@, k + 1);
                }
                return Err(e);
            },
        }
        k += 1;
    }
    proof {
        assert(raws@.subrange(0, raws@.len() as int) =~= raws@);
        assert forall|i: int| 0 <= i < day@.len() implies (#[trigger] day@[i]).wf() by {
            assert(record_of(raws@[i], day@[i]));
        }
    }
    Ok(day)
}

/// A fault among the first `n` lessons of a day is the fault of the day.
pub proof fn lemma_day_fault_stays(raws: Seq<RawLesson>, n: int)
    requires
        0 <= n <= raws.len(),
        day_fault(raws.subrange(0, n)).is_some(),
    ensures
        day_fault(raws) == day_fault(raws.subrange(0, n)),
    decreases raws.len() - n,
{
    if n < raws.len() {
        assert(raws.subrange(0, n + 1).drop_last() =~= raws.subrange(0, n));
        lemma_day_fault_stays(raws, n + 1);
    } else {
        assert(raws.subrange(0, n) =~= raws);
    }
}

} // verus!
