use journal::date::{days_till_friday, this_friday, Date, MAX_DAYS, MIN_DAYS};
use journal::message::{join_lines, message_from_trimmed, parse_message};
use journal::note::{
    enter_message, format_date, format_day_header, format_time, note_file_name, weekday_abbrev,
    Config, ConfigError, Timestamp, WritePlan,
};
use journal::text::{chars_of, has_line_starting_with};

fn date(y: i32, m: u32, d: u32) -> Date {
    Date::from_ymd(y, m, d).unwrap()
}

fn at(y: i32, m: u32, d: u32, hour: u32, minute: u32) -> Timestamp {
    Timestamp::new(date(y, m, d), hour, minute).unwrap()
}

/// The file content after a plan is written the way the command line tool writes it.
fn apply(existing: Option<&str>, plan: &WritePlan) -> String {
    match existing {
        None => plan.text.clone(),
        Some(t) => {
            let mut s = t.to_string();
            if plan.over_final_newline {
                s.pop();
            }
            s.push_str(&plan.text);
            s
        }
    }
}

fn run(
    existing: Option<&str>,
    when: &Timestamp,
    header: Option<&str>,
    body: &str,
) -> String {
    let m = parse_message(body);
    let plan = enter_message(existing, when, header, &m.content, m.is_continuation);
    apply(existing, &plan)
}

#[test]
fn friday_of_a_wednesday() {
    assert_eq!(this_friday(&date(2024, 1, 17)), date(2024, 1, 19));
}

#[test]
fn friday_of_a_friday_is_itself() {
    assert_eq!(this_friday(&date(2024, 1, 19)), date(2024, 1, 19));
}

#[test]
fn friday_of_a_saturday_is_six_days_later() {
    assert_eq!(this_friday(&date(2024, 1, 20)), date(2024, 1, 26));
}

#[test]
fn friday_across_a_year_end() {
    assert_eq!(this_friday(&date(2024, 12, 30)), date(2025, 1, 3));
}

#[test]
fn friday_range_and_idempotence() {
    let mut d = date(2023, 12, 20);
    for _ in 0..30 {
        let f = this_friday(&d);
        let gap = f.days() - d.days();
        assert!((0..=6).contains(&gap));
        assert_eq!(f.weekday(), 5);
        assert_eq!(this_friday(&f), f);
        d = Date::from_days(d.days() + 1).unwrap();
    }
}

#[test]
fn days_till_friday_by_weekday() {
    let expected = [4, 3, 2, 1, 0, 6, 5];
    for w in 1..=7u32 {
        assert_eq!(days_till_friday(w), expected[(w - 1) as usize]);
    }
}

#[test]
fn weekdays_of_known_dates() {
    assert_eq!(date(1, 1, 1).weekday(), 1);
    assert_eq!(date(2024, 1, 17).weekday(), 3);
    assert_eq!(date(2024, 1, 21).weekday(), 7);
    assert_eq!(date(0, 12, 31).weekday(), 7);
}

#[test]
fn day_numbers_follow_chrono() {
    assert_eq!(date(1, 1, 1).days(), 1);
    assert_eq!(date(0, 12, 31).days(), 0);
    assert_eq!(date(1999, 9, 3).days(), 730_000);
    assert_eq!(Date::from_days(730_000).unwrap().ymd(), (1999, 9, 3));
    assert_eq!(Date::from_days(-1).unwrap().ymd(), (0, 12, 30));
}

#[test]
fn date_range_ends() {
    assert_eq!(date(-262143, 1, 1).days(), MIN_DAYS);
    assert!(Date::from_ymd(-262144, 12, 31).is_none());
    assert_eq!(date(262142, 12, 31).days(), MAX_DAYS);
    assert!(Date::from_days(MIN_DAYS - 1).is_none());
    assert!(Date::from_days(MAX_DAYS + 1).is_none());
    assert!(Date::from_ymd(262143, 1, 1).is_none());
}

#[test]
fn invalid_calendar_dates() {
    assert!(Date::from_ymd(2015, 2, 29).is_none());
    assert!(Date::from_ymd(2015, 0, 14).is_none());
    assert!(Date::from_ymd(2015, 4, 31).is_none());
    assert!(Date::from_ymd(2016, 2, 29).is_some());
    assert!(Date::from_ymd(-4, 2, 29).is_some());
}

#[test]
fn timestamp_bounds() {
    assert!(Timestamp::new(date(2024, 1, 17), 24, 0).is_none());
    assert!(Timestamp::new(date(2024, 1, 17), 23, 60).is_none());
    assert!(Timestamp::new(date(2024, 1, 17), 23, 59).is_some());
    assert!(Timestamp::new(date(262142, 12, 31), 0, 0).is_none());
}

#[test]
fn dates_format_zero_padded() {
    assert_eq!(format_date(&date(2024, 1, 5)), "2024-01-05");
    assert_eq!(format_date(&date(5, 3, 1)), "0005-03-01");
    assert_eq!(format_date(&date(-5, 3, 1)), "-005-03-01");
    assert_eq!(format_date(&date(12345, 11, 30)), "12345-11-30");
}

#[test]
fn times_format_zero_padded() {
    assert_eq!(format_time(9, 5), "09:05");
    assert_eq!(format_time(23, 59), "23:59");
    assert_eq!(format_time(0, 0), "00:00");
}

#[test]
fn weekday_abbreviations() {
    assert_eq!(weekday_abbrev(&date(2024, 1, 15)), "Mon");
    assert_eq!(weekday_abbrev(&date(2024, 1, 17)), "Wed");
    assert_eq!(weekday_abbrev(&date(2024, 1, 19)), "Fri");
    assert_eq!(weekday_abbrev(&date(2024, 1, 21)), "Sun");
}

#[test]
fn file_name_and_day_header() {
    assert_eq!(note_file_name(&date(2024, 1, 19)), "2024-01-19 journal.md");
    assert_eq!(format_day_header(&date(2024, 1, 17)), "## 2024-01-17");
}

#[test]
fn config_needs_absolute_folder() {
    assert!(matches!(Config::new("notes"), Err(ConfigError::NotAbsolute)));
    assert!(matches!(Config::new(""), Err(ConfigError::NotAbsolute)));
    assert_eq!(Config::new("/tmp/j").ok().unwrap().note_folder(), "/tmp/j");
}

#[test]
fn note_file_path_of_a_week() {
    let c = Config::new("/tmp/j").ok().unwrap();
    let f = c.get_note_file(&date(2024, 1, 17));
    assert_eq!(f.friday, date(2024, 1, 19));
    assert_eq!(f.note_path, "/tmp/j/2024-01-19 journal.md");
    let c = Config::new("/tmp/j/").ok().unwrap();
    assert_eq!(c.get_note_file(&date(2024, 1, 17)).note_path, "/tmp/j/2024-01-19 journal.md");
}

#[test]
fn line_prefix_search() {
    assert!(has_line_starting_with("## 2024-01-17 - Wed\n", "## 2024-01-17"));
    assert!(has_line_starting_with("a\nb\n## 2024-01-17 - Wed", "## 2024-01-17"));
    assert!(!has_line_starting_with("a ## 2024-01-17\n", "## 2024-01-17"));
    assert!(!has_line_starting_with("## 2024-01-1\n", "## 2024-01-17"));
    assert!(!has_line_starting_with("", "## 2024-01-17"));
    assert!(!has_line_starting_with("a\nb", "a\nb"));
}

#[test]
fn chars_of_non_ascii() {
    assert_eq!(chars_of("añb"), vec!['a', 'ñ', 'b']);
}

#[test]
fn messages_are_trimmed() {
    let m = parse_message("  hello world \n");
    assert!(!m.is_continuation);
    assert_eq!(m.content, "hello world");
}

#[test]
fn continuation_marker_is_taken_off() {
    let m = parse_message("  ...and more ");
    assert!(m.is_continuation);
    assert_eq!(m.content, "and more");
    let m = message_from_trimmed("... spaced");
    assert!(m.is_continuation);
    assert_eq!(m.content, " spaced");
    let m = message_from_trimmed("..");
    assert!(!m.is_continuation);
    assert_eq!(m.content, "..");
}

#[test]
fn words_are_joined_by_newlines() {
    let parts = vec!["one".to_string(), "two".to_string(), "three".to_string()];
    assert_eq!(join_lines(&parts), "one\ntwo\nthree");
    assert_eq!(join_lines(&Vec::new()), "");
}

#[test]
fn first_entry_of_a_week_creates_title_and_day_block() {
    let f = run(None, &at(2024, 1, 17, 9, 0), None, "standup notes");
    assert_eq!(
        f,
        "# Journal for week ending at 2024-01-19\n\n## 2024-01-17 - Wed\n\nstandup notes\n"
    );
}

#[test]
fn same_message_twice_keeps_one_day_header() {
    let when = at(2024, 1, 17, 9, 0);
    let first = run(None, &when, None, "note");
    let second = run(Some(&first), &at(2024, 1, 17, 9, 5), None, "note");
    assert_eq!(
        second,
        "# Journal for week ending at 2024-01-19\n\n## 2024-01-17 - Wed\n\nnote\nnote\n"
    );
    assert_eq!(second.matches("## 2024-01-17").count(), 1);
    assert_eq!(second.lines().filter(|l| *l == "note").count(), 2);
}

#[test]
fn continuation_joins_previous_line() {
    let first = run(None, &at(2024, 1, 17, 9, 0), None, "first part");
    let second = run(Some(&first), &at(2024, 1, 17, 9, 1), None, "...second part");
    assert!(second.ends_with("\n\nfirst part second part\n"));
}

#[test]
fn continuation_after_header_starts_new_line() {
    let first = run(None, &at(2024, 1, 17, 9, 0), None, "first part");
    let second = run(Some(&first), &at(2024, 1, 17, 9, 1), Some("Topic"), "...second part");
    assert!(second.ends_with("\nfirst part\n\n### 09:01 - Topic\n\nsecond part\n"));
}

#[test]
fn continuation_on_a_new_day_starts_new_line() {
    let first = run(None, &at(2024, 1, 17, 9, 0), None, "first part");
    let second = run(Some(&first), &at(2024, 1, 18, 9, 0), None, "...second part");
    assert!(second.ends_with("first part\n\n## 2024-01-18 - Thu\n\nsecond part\n"));
}

#[test]
fn continuation_in_a_new_file_starts_new_line() {
    let f = run(None, &at(2024, 1, 17, 9, 0), None, "...more");
    assert!(f.ends_with("Wed\n\nmore\n"));
}

#[test]
fn trailing_newline_is_written_over() {
    let existing = "# Journal for week ending at 2024-01-19\n\n## 2024-01-16 - Tue\n\nold line\n";
    let plan = enter_message(Some(existing), &at(2024, 1, 17, 8, 0), None, "new", false);
    assert!(plan.over_final_newline);
    let f = apply(Some(existing), &plan);
    assert!(f.ends_with("old line\n\n## 2024-01-17 - Wed\n\nnew\n"));
    assert!(!f.contains("\n\n\n"));
}

#[test]
fn no_trailing_newline_appends_at_end() {
    let existing = "## 2024-01-17 - Wed\n\nold line";
    let plan = enter_message(Some(existing), &at(2024, 1, 17, 8, 0), None, "new", false);
    assert!(!plan.over_final_newline);
    assert_eq!(apply(Some(existing), &plan), "## 2024-01-17 - Wed\n\nold line\nnew\n");
}

#[test]
fn empty_message_on_known_day_writes_nothing() {
    let existing = "## 2024-01-17 - Wed\n\nold line\n";
    let plan = enter_message(Some(existing), &at(2024, 1, 17, 8, 0), None, "", false);
    assert_eq!(plan.text, "");
    assert!(!plan.over_final_newline);
    assert_eq!(apply(Some(existing), &plan), existing);
}

#[test]
fn header_without_message() {
    let f = run(None, &at(2024, 1, 17, 14, 7), Some("Plan"), "");
    assert_eq!(
        f,
        "# Journal for week ending at 2024-01-19\n\n## 2024-01-17 - Wed\n\n### 14:07 - Plan\n"
    );
}

#[test]
fn standup_then_design_review() {
    let c = Config::new("/tmp/j").ok().unwrap();
    let wed = at(2024, 1, 17, 9, 30);
    assert_eq!(c.get_note_file(&wed.date).note_path, "/tmp/j/2024-01-19 journal.md");
    let first = run(None, &wed, None, "standup notes");
    assert_eq!(
        first,
        "# Journal for week ending at 2024-01-19\n\n## 2024-01-17 - Wed\n\nstandup notes\n"
    );
    let second = run(Some(&first), &at(2024, 1, 17, 11, 30), Some("Design Review"), "discussed X");
    assert_eq!(
        second,
        "# Journal for week ending at 2024-01-19\n\n## 2024-01-17 - Wed\n\nstandup notes\n\n### 11:30 - Design Review\n\ndiscussed X\n"
    );
    assert_eq!(second.matches("## 2024-01-17").count(), 1);
}

#[test]
fn header_and_message_in_a_new_file() {
    let f = run(None, &at(2024, 1, 17, 9, 0), Some("Kickoff"), "agenda");
    assert_eq!(
        f,
        "# Journal for week ending at 2024-01-19\n\n## 2024-01-17 - Wed\n\n### 09:00 - Kickoff\n\nagenda\n"
    );
}
