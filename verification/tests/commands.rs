use lesson_layout::agenda::{
    all_on_school_days, bucket_week, last_lesson_end, lessons_on, school_day_target, weekend_target, Target,
};
use lesson_layout::cli::{
    choose_tui, day_argument, is_standard_output, judge_day, judge_week, lesson_source, read_number_arg,
    tui_request, validate_day, validate_week, LessonSource, NumberArg, NumberError, TuiMode, TuiRequest,
};
use lesson_layout::color::Rgb;
use lesson_layout::compose::heads_contain;
use lesson_layout::config::{use_cache, Config};
use lesson_layout::event::{start, step, Key, LoopAction, LoopEvent, LoopState, SessionError, QUIT_KEY};
use lesson_layout::lesson::{LessonRecord, RawLesson};
use lesson_layout::time::{parse_time, Time};

fn on_day(name: &str, day: i32, end: &str) -> LessonRecord {
    LessonRecord {
        start_time: parse_time("08:00:00").unwrap(),
        end_time: parse_time(end).unwrap(),
        label_primary: name.to_string(),
        label_secondary: String::new(),
        label_tertiary: String::new(),
        color: Rgb { red: 0, green: 0, blue: 0 },
        day_index: day,
    }
}

fn raw_on(name: &str, day: i32) -> RawLesson {
    RawLesson {
        time_start: "08:00:00".to_string(),
        time_end: "09:00:00".to_string(),
        texts: vec![name.to_string(), String::new(), "room".to_string()],
        color: "#102030".to_string(),
        day_of_week_number: day,
    }
}

fn names(day: &[RawLesson]) -> Vec<String> {
    day.iter().map(|l| l.texts[0].clone()).collect()
}

#[test]
fn default_config_is_empty_without_cache() {
    let c = Config::default();
    assert_eq!(c.domain, "");
    assert_eq!(c.school, "");
    assert_eq!(c.class, "");
    assert!(!c.cache);
}

#[test]
fn cache_is_used_only_when_configured_and_not_forbidden() {
    let mut c = Config::default();
    assert!(!use_cache(false, &c));
    assert!(!use_cache(true, &c));
    c.cache = true;
    assert!(use_cache(false, &c));
    assert!(!use_cache(true, &c));
}

#[test]
fn day_argument_must_be_a_number_up_to_five() {
    assert_eq!(validate_day("0"), Ok(()));
    assert_eq!(validate_day("5"), Ok(()));
    assert_eq!(validate_day("6"), Err("Day must be less than 6".to_string()));
    assert_eq!(validate_day("255"), Err("Day must be less than 6".to_string()));
    assert_eq!(validate_day("256"), Err("Day must be a number".to_string()));
    assert_eq!(validate_day("-1"), Err("Day must be a number".to_string()));
    assert_eq!(validate_day("two"), Err("Day must be a number".to_string()));
    assert_eq!(validate_day(""), Err("Day must be a number".to_string()));
}

#[test]
fn week_argument_must_be_a_number() {
    assert_eq!(validate_week("42"), Ok(()));
    assert_eq!(validate_week("200"), Ok(()));
    assert_eq!(validate_week("w42"), Err("Day must be a number".to_string()));
}

#[test]
fn judgements_follow_the_reading() {
    assert_eq!(judge_day(Some(5)), Ok(()));
    assert_eq!(judge_day(Some(6)), Err("Day must be less than 6".to_string()));
    assert_eq!(judge_day(None), Err("Day must be a number".to_string()));
    assert_eq!(judge_week(Some(77)), Ok(()));
    assert_eq!(judge_week(None), Err("Day must be a number".to_string()));
}

#[test]
fn number_arguments_are_read() {
    assert_eq!(read_number_arg(None), NumberArg::Absent);
    assert_eq!(read_number_arg(Some("17")), NumberArg::Read(17));
    assert_eq!(read_number_arg(Some("-3")), NumberArg::Read(-3));
    assert_eq!(read_number_arg(Some("3.5")), NumberArg::Unreadable);
    assert_eq!(day_argument(None), Ok(0));
    assert_eq!(day_argument(Some("4")), Ok(4));
    assert_eq!(day_argument(Some("four")), Err(NumberError));
}

#[test]
fn tui_week_takes_the_week_given_or_the_current_one() {
    assert_eq!(tui_request(TuiMode::Week, Some("12"), None, 40), Ok(TuiRequest { week: 12, day: None }));
    assert_eq!(tui_request(TuiMode::Week, None, Some("3"), 40), Ok(TuiRequest { week: 40, day: None }));
    assert_eq!(tui_request(TuiMode::Week, Some("x"), None, 40), Err(NumberError));
}

#[test]
fn tui_day_takes_the_day_given_or_the_next_lessons() {
    assert_eq!(tui_request(TuiMode::Day, Some("12"), Some("3"), 40), Ok(TuiRequest { week: 12, day: Some(3) }));
    assert_eq!(tui_request(TuiMode::Day, None, None, 40), Ok(TuiRequest { week: 40, day: Some(0) }));
    assert_eq!(tui_request(TuiMode::Day, None, Some("x"), 40), Ok(TuiRequest { week: 40, day: None }));
    assert_eq!(tui_request(TuiMode::Day, Some("x"), Some("3"), 40), Err(NumberError));
}

#[test]
fn tui_plain_shows_the_next_lessons_of_this_week() {
    assert_eq!(tui_request(TuiMode::Plain, Some("x"), Some("y"), 40), Ok(TuiRequest { week: 40, day: Some(0) }));
    assert_eq!(
        choose_tui(TuiMode::Plain, NumberArg::Unreadable, NumberArg::Read(2), 7),
        Ok(TuiRequest { week: 7, day: Some(0) })
    );
    assert_eq!(
        choose_tui(TuiMode::Day, NumberArg::Read(9), NumberArg::Absent, 7),
        Ok(TuiRequest { week: 9, day: Some(0) })
    );
}

#[test]
fn lesson_source_follows_the_day() {
    assert_eq!(lesson_source(Some(0)), LessonSource::NextLessons);
    assert_eq!(lesson_source(Some(3)), LessonSource::SingleDay(3));
    assert_eq!(lesson_source(None), LessonSource::FullWeek);
}

#[test]
fn dash_and_empty_name_mean_standard_output() {
    assert!(is_standard_output("-"));
    assert!(is_standard_output(""));
    assert!(!is_standard_output("out.svg"));
    assert!(!is_standard_output("--"));
    assert!(!is_standard_output("x"));
}

#[test]
fn weekend_points_to_monday_of_next_week() {
    assert_eq!(weekend_target(6, 10), Some(Target { day: 1, week: 11, next_day: true }));
    assert_eq!(weekend_target(7, 10), Some(Target { day: 1, week: 11, next_day: true }));
    assert_eq!(weekend_target(5, 10), None);
    assert_eq!(weekend_target(1, 10), None);
}

#[test]
fn school_day_target_moves_on_after_the_last_lesson() {
    let day = vec![on_day("a", 2, "10:00:00"), on_day("b", 2, "15:00:00"), on_day("c", 2, "12:00:00")];
    assert_eq!(last_lesson_end(&day), parse_time("15:00:00").unwrap());
    assert_eq!(last_lesson_end(&[]), Time::midnight());
    let before = parse_time("15:00:00").unwrap();
    let after = parse_time("15:00:01").unwrap();
    assert_eq!(school_day_target(2, 10, &day, before), Target { day: 2, week: 10, next_day: false });
    assert_eq!(school_day_target(2, 10, &day, after), Target { day: 3, week: 10, next_day: true });
    assert_eq!(school_day_target(5, 10, &day, after), Target { day: 1, week: 11, next_day: true });
    assert_eq!(school_day_target(3, 10, &[], parse_time("00:00:00").unwrap()), Target { day: 3, week: 10, next_day: false });
    assert_eq!(school_day_target(3, 10, &[], parse_time("00:00:01").unwrap()), Target { day: 4, week: 10, next_day: true });
}

#[test]
fn week_falls_into_five_days() {
    let week = vec![raw_on("tue1", 2), raw_on("mon1", 1), raw_on("fri1", 5), raw_on("tue2", 2), raw_on("mon2", 1)];
    let days = bucket_week(&week).unwrap();
    assert_eq!(days.len(), 5);
    assert_eq!(names(&days[0]), vec!["mon1", "mon2"]);
    assert_eq!(names(&days[1]), vec!["tue1", "tue2"]);
    assert!(days[2].is_empty());
    assert!(days[3].is_empty());
    assert_eq!(names(&days[4]), vec!["fri1"]);
    assert_eq!(days[4][0].texts, vec!["fri1", "", "room"]);
    assert_eq!(days[4][0].time_end, "09:00:00");
    assert_eq!(days[4][0].color, "#102030");
    assert_eq!(names(&lessons_on(&week, 2)), vec!["tue1", "tue2"]);
    assert!(lessons_on(&week, 3).is_empty());
    assert!(all_on_school_days(&week));
}

#[test]
fn lesson_on_no_school_day_has_no_bucket() {
    assert!(bucket_week(&[raw_on("sat", 6)]).is_none());
    assert!(bucket_week(&[raw_on("mon", 1), raw_on("zero", 0)]).is_none());
    assert!(!all_on_school_days(&[raw_on("neg", -1)]));
    assert_eq!(bucket_week(&[]).unwrap().len(), 5);
}

#[test]
fn raw_lesson_clone_keeps_every_field() {
    let a = raw_on("x", 4);
    let b = a.clone();
    assert_eq!(a.time_start, b.time_start);
    assert_eq!(a.time_end, b.time_end);
    assert_eq!(a.texts, b.texts);
    assert_eq!(a.color, b.color);
    assert_eq!(a.day_of_week_number, b.day_of_week_number);
}

#[test]
fn heads_are_looked_up() {
    assert!(heads_contain(&[0, 3], 3));
    assert!(!heads_contain(&[0, 3], 1));
    assert!(!heads_contain(&[], 0));
}

#[test]
fn quit_key_ends_the_loop_after_any_number_of_ticks() {
    for ticks in [0usize, 1, 2, 50] {
        let mut state = start();
        for _ in 0..ticks {
            let (next, action) = step(state, LoopEvent::Tick);
            assert_eq!(next, LoopState::Running);
            assert_eq!(action, LoopAction::Redraw);
            state = next;
        }
        let (next, action) = step(state, LoopEvent::Key(Key::Char(QUIT_KEY)));
        assert_eq!(next, LoopState::Terminated);
        assert_eq!(action, LoopAction::Restore);
    }
}

#[test]
fn other_keys_only_redraw() {
    assert_eq!(step(LoopState::Running, LoopEvent::Key(Key::Char('x'))), (LoopState::Running, LoopAction::Redraw));
    assert_eq!(step(LoopState::Running, LoopEvent::Key(Key::Char('Q'))), (LoopState::Running, LoopAction::Redraw));
    assert_eq!(step(LoopState::Running, LoopEvent::Key(Key::Other)), (LoopState::Running, LoopAction::Redraw));
    assert_eq!(QUIT_KEY, 'q');
}

#[test]
fn closed_channel_ends_the_loop_with_an_error() {
    assert_eq!(
        step(LoopState::Running, LoopEvent::Closed),
        (LoopState::Terminated, LoopAction::RestoreAndFail(SessionError::ChannelClosed))
    );
}

#[test]
fn ended_loop_stays_ended() {
    for event in [LoopEvent::Tick, LoopEvent::Closed, LoopEvent::Key(Key::Char('q')), LoopEvent::Key(Key::Other)] {
        assert_eq!(step(LoopState::Terminated, event), (LoopState::Terminated, LoopAction::Nothing));
    }
}
