use sessio::persist::{dates_are_unique, parse_sessions, serialize_sessions};
use sessio::text::parse_u32_str;
use sessio::timer::{Date, PomodoroSession};

fn rec(date: Date, ws: u32, twm: u32, bs: u32, tbm: u32, tasks: &[&str]) -> PomodoroSession {
    PomodoroSession {
        date,
        work_sessions: ws,
        total_work_minutes: twm,
        break_sessions: bs,
        total_break_minutes: tbm,
        tasks_worked_on: tasks.iter().map(|t| t.to_string()).collect(),
    }
}

#[test]
fn test_serialize_empty_is_empty() {
    let out = serialize_sessions(&Vec::new());
    assert_eq!(out, "");
}

#[test]
fn test_serialize_exact_format() {
    let sessions = vec![rec(
        Date { year: 2024, month: 5, day: 6 },
        2,
        50,
        1,
        5,
        &["write tests"],
    )];
    let out = serialize_sessions(&sessions);
    let expected = "\n## Pomodoro Sessions\n\n\
                    ### 2024-05-06\n\
                    - Work sessions: 2\n\
                    - Total work time: 50 minutes\n\
                    - Break sessions: 1\n\
                    - Total break time: 5 minutes\n\
                    - Tasks worked on:\n\
                    \x20 - write tests\n\
                    \n";
    assert_eq!(out, expected);
}

#[test]
fn test_round_trip_two_dates() {
    let sessions = vec![
        rec(
            Date { year: 2024, month: 5, day: 6 },
            2,
            50,
            1,
            5,
            &["write tests", "review notes"],
        ),
        rec(Date { year: 2023, month: 12, day: 31 }, 4, 100, 3, 25, &[]),
    ];
    let out = serialize_sessions(&sessions);
    let back = parse_sessions(&out);
    assert_eq!(back.len(), 2);
    for (a, b) in sessions.iter().zip(back.iter()) {
        assert_eq!(a.date, b.date);
        assert_eq!(a.work_sessions, b.work_sessions);
        assert_eq!(a.total_work_minutes, b.total_work_minutes);
        assert_eq!(a.break_sessions, b.break_sessions);
        assert_eq!(a.total_break_minutes, b.total_break_minutes);
        assert_eq!(a.tasks_worked_on, b.tasks_worked_on);
    }
}

#[test]
fn test_parse_skips_malformed_block() {
    let text = "\n## Pomodoro Sessions\n\n\
                ### not-a-date\n\
                - Work sessions: 9\n\
                \n\
                ### 2024-05-06\n\
                - Work sessions: 1\n\
                - Total work time: 25 minutes\n\
                - Break sessions: 0\n\
                - Total break time: 0 minutes\n\
                \n";
    let back = parse_sessions(text);
    assert_eq!(back.len(), 1);
    assert_eq!(back[0].date, Date { year: 2024, month: 5, day: 6 });
    assert_eq!(back[0].work_sessions, 1);
    assert_eq!(back[0].total_work_minutes, 25);
}

#[test]
fn test_parse_rejects_impossible_month() {
    let text = "\n## Pomodoro Sessions\n\n### 2024-13-06\n- Work sessions: 9\n\n";
    let back = parse_sessions(text);
    assert!(back.is_empty());
}

#[test]
fn test_parse_ignores_bad_field_line() {
    let text = "\n## Pomodoro Sessions\n\n\
                ### 2024-05-06\n\
                - Work sessions: many\n\
                - Total work time: 25 minutes\n\
                \n";
    let back = parse_sessions(text);
    assert_eq!(back.len(), 1);
    assert_eq!(back[0].work_sessions, 0);
    assert_eq!(back[0].total_work_minutes, 25);
}

#[test]
fn test_parse_without_marker_yields_nothing() {
    let text = "### 2024-05-06\n- Work sessions: 1\n";
    assert!(parse_sessions(text).is_empty());
}

#[test]
fn test_parse_section_after_todo_items() {
    let text = "# TODO List\n\n\
                - [x] ship the release | Focused time: 75 minutes\n\
                - [ ] water the plants\n\
                \n## Pomodoro Sessions\n\n\
                ### 2024-05-06\n\
                - Work sessions: 3\n\
                - Total work time: 75 minutes\n\
                - Break sessions: 2\n\
                - Total break time: 10 minutes\n\
                - Tasks worked on:\n\
                \x20 - ship the release\n\
                \n";
    let back = parse_sessions(text);
    assert_eq!(back.len(), 1);
    assert_eq!(back[0].work_sessions, 3);
    assert_eq!(back[0].tasks_worked_on, vec!["ship the release".to_string()]);
}

#[test]
fn test_parsed_history_loads_into_timer() {
    let day = Date { year: 2024, month: 5, day: 6 };
    let sessions = vec![rec(day, 2, 50, 1, 5, &[])];
    let out = serialize_sessions(&sessions);
    let back = parse_sessions(&out);
    assert!(dates_are_unique(&back));
    let mut t = sessio::timer::Timer::new(25, 5, 15, 4, 30, 15);
    t.load_daily_sessions(back, day);
    assert_eq!(t.pomodoro_count, 2);
}

#[test]
fn test_dates_are_unique_detects_duplicates() {
    let day = Date { year: 2024, month: 5, day: 6 };
    let dup = vec![rec(day, 1, 25, 0, 0, &[]), rec(day, 2, 50, 0, 0, &[])];
    assert!(!dates_are_unique(&dup));
    let ok = vec![
        rec(day, 1, 25, 0, 0, &[]),
        rec(Date { year: 2024, month: 5, day: 7 }, 2, 50, 0, 0, &[]),
    ];
    assert!(dates_are_unique(&ok));
}

#[test]
fn test_parse_u32_bounds() {
    assert_eq!(parse_u32_str("0"), Some(0));
    assert_eq!(parse_u32_str("4294967295"), Some(u32::MAX));
    assert_eq!(parse_u32_str("4294967296"), None);
    assert_eq!(parse_u32_str("0004294967295"), Some(u32::MAX));
    assert_eq!(parse_u32_str(""), None);
    assert_eq!(parse_u32_str("12a"), None);
    assert_eq!(parse_u32_str("-3"), None);
}
