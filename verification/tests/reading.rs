use lesson_layout::color::{color_from_channels, parse_color, ColorFormatError, Rgb};
use lesson_layout::lesson::{ingest, ingest_day, LayoutError, RawLesson};
use lesson_layout::time::{parse_time, time_from_reading, Time, TimeFormatError};
use lesson_layout::week::prepare;

fn raw(start: &str, end: &str, color: &str, texts: &[&str], day: i32) -> RawLesson {
    RawLesson {
        time_start: start.to_string(),
        time_end: end.to_string(),
        texts: texts.iter().map(|t| t.to_string()).collect(),
        color: color.to_string(),
        day_of_week_number: day,
    }
}

#[test]
fn parse_time_reads_clock_times() {
    let t = parse_time("08:15:30").unwrap();
    assert_eq!(t.seconds(), 8 * 3600 + 15 * 60 + 30);
    assert_eq!((t.hour(), t.minute(), t.second()), (8, 15, 30));
    assert_eq!(parse_time("00:00:00").unwrap(), Time::midnight());
    assert_eq!(parse_time("23:59:59").unwrap(), Time::end_of_day());
    assert_eq!(parse_time("23:56:04").unwrap(), Time::from_hms(23, 56, 4).unwrap());
}

#[test]
fn parse_time_refuses_what_is_no_clock_time() {
    assert_eq!(parse_time(""), Err(TimeFormatError));
    assert_eq!(parse_time("24:00:00"), Err(TimeFormatError));
    assert_eq!(parse_time("12:60:00"), Err(TimeFormatError));
    assert_eq!(parse_time("12:00"), Err(TimeFormatError));
    assert_eq!(parse_time("noon"), Err(TimeFormatError));
    assert_eq!(parse_time("12:00:00 pm"), Err(TimeFormatError));
    assert_eq!(parse_time("12-00-00"), Err(TimeFormatError));
}

#[test]
fn time_from_reading_keeps_readings_within_the_day() {
    assert_eq!(time_from_reading(Some(0)).unwrap().seconds(), 0);
    assert_eq!(time_from_reading(Some(86_399)).unwrap().seconds(), 86_399);
    assert_eq!(time_from_reading(Some(86_400)), Err(TimeFormatError));
    assert_eq!(time_from_reading(None), Err(TimeFormatError));
}

#[test]
fn from_hms_checks_each_field() {
    assert_eq!(Time::from_hms(9, 30, 0).unwrap().seconds(), 34_200);
    assert!(Time::from_hms(24, 0, 0).is_none());
    assert!(Time::from_hms(0, 60, 0).is_none());
    assert!(Time::from_hms(0, 0, 60).is_none());
}

#[test]
fn times_compare_by_the_clock() {
    let a = parse_time("09:00:00").unwrap();
    let b = parse_time("09:00:01").unwrap();
    assert!(a.is_before(&b));
    assert!(!b.is_before(&a));
    assert!(!a.is_before(&a));
    assert!(a.same_as(&a));
    assert!(!a.same_as(&b));
}

#[test]
fn parse_color_reads_the_three_byte_pairs() {
    assert_eq!(parse_color("#FF8000"), Ok(Rgb { red: 255, green: 128, blue: 0 }));
    assert_eq!(parse_color("#0a0b0c"), Ok(Rgb { red: 10, green: 11, blue: 12 }));
    assert_eq!(parse_color("#000000"), Ok(Rgb { red: 0, green: 0, blue: 0 }));
    assert_eq!(parse_color("#123456"), Ok(Rgb { red: 0x12, green: 0x34, blue: 0x56 }));
}

#[test]
fn parse_color_refuses_what_is_no_colour_tag() {
    assert_eq!(parse_color(""), Err(ColorFormatError));
    assert_eq!(parse_color("#FF80"), Err(ColorFormatError));
    assert_eq!(parse_color("#GG0000"), Err(ColorFormatError));
    assert_eq!(parse_color("#12345"), Ok(Rgb { red: 0x12, green: 0x34, blue: 0x5 }));
    assert_eq!(parse_color("red"), Err(ColorFormatError));
}

#[test]
fn parse_color_counts_characters_not_bytes() {
    assert_eq!(parse_color("\u{e9}102030"), Ok(Rgb { red: 0x10, green: 0x20, blue: 0x30 }));
}

#[test]
fn color_from_channels_needs_all_three() {
    assert_eq!(color_from_channels(Some(1), Some(2), Some(3)), Ok(Rgb { red: 1, green: 2, blue: 3 }));
    assert_eq!(color_from_channels(None, Some(2), Some(3)), Err(ColorFormatError));
    assert_eq!(color_from_channels(Some(1), None, Some(3)), Err(ColorFormatError));
    assert_eq!(color_from_channels(Some(1), Some(2), None), Err(ColorFormatError));
}

#[test]
fn ingest_types_a_raw_lesson() {
    let r = ingest(&raw("08:00:00", "09:30:00", "#102030", &["Maths", "Ms A", "R12", "more"], 3)).unwrap();
    assert_eq!(r.start_time, parse_time("08:00:00").unwrap());
    assert_eq!(r.end_time, parse_time("09:30:00").unwrap());
    assert_eq!(r.label_primary, "Maths");
    assert_eq!(r.label_secondary, "Ms A");
    assert_eq!(r.label_tertiary, "R12");
    assert_eq!(r.color, Rgb { red: 0x10, green: 0x20, blue: 0x30 });
    assert_eq!(r.day_index, 3);
}

#[test]
fn ingest_names_each_fault() {
    let texts = ["a", "b", "c"];
    assert_eq!(ingest(&raw("8 o'clock", "09:30:00", "#102030", &texts, 1)).unwrap_err(), LayoutError::TimeFormat);
    assert_eq!(ingest(&raw("08:00:00", "late", "#102030", &texts, 1)).unwrap_err(), LayoutError::TimeFormat);
    assert_eq!(ingest(&raw("08:00:00", "09:30:00", "blue", &texts, 1)).unwrap_err(), LayoutError::ColorFormat);
    assert_eq!(ingest(&raw("08:00:00", "09:30:00", "#102030", &["a", "b"], 1)).unwrap_err(), LayoutError::MissingLabel);
    assert_eq!(ingest(&raw("bad", "09:30:00", "blue", &[], 1)).unwrap_err(), LayoutError::TimeFormat);
    assert_eq!(ingest(&raw("08:00:00", "09:30:00", "blue", &[], 1)).unwrap_err(), LayoutError::ColorFormat);
}

#[test]
fn ingest_day_stops_at_the_first_fault() {
    let texts = ["a", "b", "c"];
    let day = vec![
        raw("08:00:00", "09:00:00", "#102030", &texts, 1),
        raw("09:00:00", "10:00:00", "green", &texts, 1),
        raw("bad", "11:00:00", "#102030", &texts, 1),
    ];
    assert_eq!(ingest_day(&day).unwrap_err(), LayoutError::ColorFormat);
    let good = ingest_day(&day[..1]).unwrap();
    assert_eq!(good.len(), 1);
    assert_eq!(good[0].label_tertiary, "c");
    assert!(ingest_day(&[]).unwrap().is_empty());
}

#[test]
fn prepare_keeps_a_bad_record_to_its_day() {
    let texts = ["a", "b", "c"];
    let days = vec![
        vec![raw("10:00:00", "11:00:00", "#102030", &texts, 1), raw("08:00:00", "09:00:00", "#102030", &texts, 1)],
        vec![raw("07:00:00", "17:00:00", "#102030", &texts, 2), raw("9", "10:00:00", "#102030", &texts, 2)],
        vec![],
    ];
    let week = prepare(&days);
    let w = week.window.unwrap();
    assert_eq!((w.start.seconds(), w.end.seconds()), (8 * 3600, 11 * 3600));
    assert_eq!(week.columns.len(), 3);
    let monday = week.columns[0].as_ref().unwrap();
    assert_eq!(monday.lessons[0].start_time, parse_time("08:00:00").unwrap());
    assert_eq!(monday.layout.span, 180);
    let weights: Vec<u32> = monday.layout.regions.iter().map(|r| r.weight).collect();
    assert_eq!(weights, vec![0, 60, 60, 60]);
    assert_eq!(*week.columns[1].as_ref().unwrap_err(), LayoutError::TimeFormat);
    let idle = week.columns[2].as_ref().unwrap();
    assert_eq!(idle.layout.regions.len(), 1);
    assert_eq!(idle.layout.regions[0].weight, 180);
}

#[test]
fn prepare_without_readable_lessons_is_blank() {
    let days = vec![vec![raw("x", "y", "z", &[], 1)], vec![]];
    let week = prepare(&days);
    assert!(week.window.is_none());
    assert_eq!(*week.columns[0].as_ref().unwrap_err(), LayoutError::TimeFormat);
    assert!(week.columns[1].as_ref().unwrap().layout.regions.is_empty());
}
