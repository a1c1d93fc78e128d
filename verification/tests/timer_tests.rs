use sessio::timer::{format_duration, minutes_on_date, Date, PomodoroPhase, Timer, TimerState};

fn day() -> Date {
    Date { year: 2024, month: 5, day: 6 }
}

fn other_day() -> Date {
    Date { year: 2024, month: 5, day: 7 }
}

fn new_timer() -> Timer {
    Timer::new(25, 5, 15, 4, 30, 15)
}

#[test]
fn test_new_initial_state() {
    let t = new_timer();
    assert_eq!(t.state, TimerState::Stopped);
    assert_eq!(t.phase, PomodoroPhase::Work);
    assert_eq!(t.pomodoro_count, 0);
    assert_eq!(t.time_remaining, 25 * 60);
    assert_eq!(t.work_duration, 1500);
    assert_eq!(t.short_break_duration, 300);
    assert_eq!(t.long_break_duration, 900);
    assert!(t.daily_sessions.is_empty());
    assert!(!t.alarm_active);
}

#[test]
fn test_advance_counts_down_without_changing_phase() {
    let mut t = new_timer();
    t.toggle_start_pause(100);
    assert_eq!(t.state, TimerState::Running);
    t.update(110, day());
    assert_eq!(t.time_remaining, 1500 - 10);
    assert_eq!(t.phase, PomodoroPhase::Work);
    assert_eq!(t.state, TimerState::Running);
    assert_eq!(t.pomodoro_count, 0);
    t.update(111, day());
    assert_eq!(t.time_remaining, 1489);
}

#[test]
fn test_advance_noop_unless_running() {
    let mut t = new_timer();
    t.update(500, day());
    assert_eq!(t.time_remaining, 1500);
    assert_eq!(t.state, TimerState::Stopped);
}

#[test]
fn test_advance_completes_on_elapse() {
    let mut t = new_timer();
    t.toggle_start_pause(0);
    t.update(1500, day());
    assert_eq!(t.state, TimerState::Stopped);
    assert_eq!(t.phase, PomodoroPhase::ShortBreak);
    assert_eq!(t.pomodoro_count, 1);
    assert!(t.alarm_active);
    assert_eq!(t.time_remaining, 300);
}

#[test]
fn test_work_completion_increments_and_picks_break() {
    let mut t = new_timer();
    t.skip_phase(0, day());
    assert_eq!(t.pomodoro_count, 1);
    assert_eq!(t.phase, PomodoroPhase::ShortBreak);
    assert_eq!(t.state, TimerState::Stopped);
}

#[test]
fn test_four_work_completions_reach_long_break() {
    // work_minutes=25, short=5, long=15, N=4: the phase sequence is
    // Work SB Work SB Work SB Work LB with pomodoro_count 4 at the end.
    let mut t = new_timer();
    let mut phases = vec![t.phase.clone()];
    for i in 0..7 {
        t.skip_phase(i as u64, day());
        phases.push(t.phase.clone());
    }
    assert_eq!(
        phases,
        vec![
            PomodoroPhase::Work,
            PomodoroPhase::ShortBreak,
            PomodoroPhase::Work,
            PomodoroPhase::ShortBreak,
            PomodoroPhase::Work,
            PomodoroPhase::ShortBreak,
            PomodoroPhase::Work,
            PomodoroPhase::LongBreak,
        ]
    );
    assert_eq!(t.pomodoro_count, 4);
}

#[test]
fn test_alarm_scenario() {
    // alarm_duration=15s: completion at t=0 arms the alarm until t=15;
    // it reads active at t=10 and clears at t=16.
    let mut t = new_timer();
    t.skip_phase(0, day());
    assert!(t.alarm_active);
    assert_eq!(t.alarm_end_time, Some(15));
    assert!(t.update_alarm_state(10));
    assert!(!t.update_alarm_state(16));
    assert!(!t.alarm_active);
    assert_eq!(t.alarm_end_time, None);
}

#[test]
fn test_alarm_clears_exactly_at_end() {
    let mut t = new_timer();
    t.skip_phase(0, day());
    assert!(t.update_alarm_state(14));
    assert!(!t.update_alarm_state(15));
}

#[test]
fn test_two_work_completions_same_date_accumulate() {
    let mut t = new_timer();
    t.skip_phase(0, day()); // work done
    t.skip_phase(1, day()); // short break done
    t.skip_phase(2, day()); // work done again
    assert_eq!(t.daily_sessions.len(), 1);
    let s = &t.daily_sessions[0];
    assert_eq!(s.date, day());
    assert_eq!(s.work_sessions, 2);
    assert_eq!(s.total_work_minutes, 50);
    assert_eq!(s.break_sessions, 1);
    assert_eq!(s.total_break_minutes, 5);
}

#[test]
fn test_one_record_per_date() {
    let mut t = new_timer();
    t.skip_phase(0, day());
    t.skip_phase(1, day());
    t.skip_phase(2, other_day());
    assert_eq!(t.daily_sessions.len(), 2);
    assert_eq!(t.daily_sessions[0].date, day());
    assert_eq!(t.daily_sessions[1].date, other_day());
    assert_eq!(t.daily_sessions[1].work_sessions, 1);
}

#[test]
fn test_toggle_start_pause_preserves_remaining() {
    let mut t = new_timer();
    t.toggle_start_pause(0);
    assert_eq!(t.state, TimerState::Running);
    t.update(30, day());
    t.toggle_start_pause(30);
    assert_eq!(t.state, TimerState::Paused);
    assert_eq!(t.time_remaining, 1470);
    assert_eq!(t.last_tick, None);
    t.toggle_start_pause(100);
    assert_eq!(t.state, TimerState::Running);
    assert_eq!(t.time_remaining, 1470);
}

#[test]
fn test_reset_restores_phase_duration() {
    let mut t = new_timer();
    t.toggle_start_pause(0);
    t.update(60, day());
    t.reset();
    assert_eq!(t.state, TimerState::Stopped);
    assert_eq!(t.time_remaining, 1500);
    assert_eq!(t.pomodoro_count, 0);
}

#[test]
fn test_stop_keeps_remaining() {
    let mut t = new_timer();
    t.toggle_start_pause(0);
    t.update(60, day());
    t.stop();
    assert_eq!(t.state, TimerState::Stopped);
    assert_eq!(t.time_remaining, 1440);
}

#[test]
fn test_task_name_recorded_once() {
    let mut t = new_timer();
    t.set_selected_todo_with_task_name(Some(2), Some("write docs".to_string()), day());
    t.set_selected_todo_with_task_name(Some(2), Some("write docs".to_string()), day());
    assert_eq!(t.get_selected_todo(), Some(2));
    assert_eq!(t.daily_sessions.len(), 1);
    assert_eq!(t.daily_sessions[0].tasks_worked_on, vec!["write docs".to_string()]);
}

#[test]
fn test_work_completed_flag_needs_selection() {
    let mut t = new_timer();
    t.skip_phase(0, day());
    assert!(!t.work_phase_just_completed());

    let mut t2 = new_timer();
    t2.set_selected_todo(Some(0));
    t2.skip_phase(0, day());
    assert!(t2.work_phase_just_completed());
    t2.clear_work_completed_flag();
    assert!(!t2.work_phase_just_completed());
}

#[test]
fn test_get_today_session_creates_entry() {
    let mut t = new_timer();
    let s = t.get_today_session(day());
    assert_eq!(s.date, day());
    assert_eq!(s.work_sessions, 0);
    assert_eq!(t.daily_sessions.len(), 1);
    let again = t.get_today_session(day());
    assert_eq!(again.date, day());
    assert_eq!(t.daily_sessions.len(), 1);
}

#[test]
fn test_load_daily_sessions_restores_count() {
    let mut t = new_timer();
    let mut seed = new_timer();
    seed.skip_phase(0, day());
    seed.skip_phase(1, day());
    seed.skip_phase(2, day());
    let history = seed.get_daily_sessions().clone();
    t.load_daily_sessions(history, day());
    assert_eq!(t.pomodoro_count, 2);

    let mut t2 = new_timer();
    let history2 = seed.get_daily_sessions().clone();
    t2.load_daily_sessions(history2, other_day());
    assert_eq!(t2.pomodoro_count, 0);
}

#[test]
fn test_get_work_session_minutes() {
    let t = new_timer();
    assert_eq!(t.get_work_session_minutes(), 25);
}

#[test]
fn test_minutes_on_date_sums_work_only() {
    let mut t = new_timer();
    t.skip_phase(0, day()); // 25 work minutes
    t.skip_phase(1, day()); // 5 break minutes (not counted)
    t.skip_phase(2, day()); // 25 work minutes
    t.skip_phase(3, other_day()); // short break credited to the other day
    let history = t.get_daily_sessions();
    assert_eq!(minutes_on_date(history, day()), 50);
    assert_eq!(minutes_on_date(history, other_day()), 0);
    assert_eq!(
        minutes_on_date(history, Date { year: 1999, month: 1, day: 1 }),
        0
    );
}

#[test]
fn test_format_duration() {
    assert_eq!(format_duration(0), "00:00");
    assert_eq!(format_duration(65), "01:05");
    assert_eq!(format_duration(1500), "25:00");
    assert_eq!(format_duration(6100), "101:40");
}
