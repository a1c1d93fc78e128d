use sessio::app::{App, Quadrant};
use sessio::config::{
    default_save_pomodoro_data, MusicSettings, SummaryConfig, ThemeConfig, TimerConfig, TodoConfig,
};
use sessio::help::Help;
use sessio::summary::Summary;
use sessio::text::is_chinese_character;

#[test]
fn test_app_starts_on_timer_panel() {
    let a = App::new();
    assert_eq!(a.focused_quadrant, Quadrant::TopLeft);
    assert!(!a.show_help);
}

#[test]
fn test_navigate_moves_and_stops_at_edges() {
    let mut a = App::new();
    a.navigate('l');
    assert_eq!(a.focused_quadrant, Quadrant::TopRight);
    a.navigate('l');
    assert_eq!(a.focused_quadrant, Quadrant::TopRight);
    a.navigate('j');
    assert_eq!(a.focused_quadrant, Quadrant::BottomRight);
    a.navigate('h');
    assert_eq!(a.focused_quadrant, Quadrant::BottomLeft);
    a.navigate('k');
    assert_eq!(a.focused_quadrant, Quadrant::TopLeft);
    a.navigate('x');
    assert_eq!(a.focused_quadrant, Quadrant::TopLeft);
}

#[test]
fn test_cycle_panels_is_a_four_cycle() {
    let mut a = App::new();
    let start = a.focused_quadrant;
    let mut seen = vec![start];
    for _ in 0..4 {
        a.cycle_panels('l');
        seen.push(a.focused_quadrant);
    }
    assert_eq!(
        seen,
        vec![
            Quadrant::TopLeft,
            Quadrant::BottomLeft,
            Quadrant::TopRight,
            Quadrant::BottomRight,
            Quadrant::TopLeft,
        ]
    );
    a.cycle_panels('h');
    assert_eq!(a.focused_quadrant, Quadrant::BottomRight);
}

#[test]
fn test_toggle_and_close_help() {
    let mut a = App::new();
    a.toggle_help();
    assert!(a.show_help);
    a.toggle_help();
    assert!(!a.show_help);
    a.toggle_help();
    a.close_help();
    assert!(!a.show_help);
}

#[test]
fn test_help_scrolling_bounds() {
    let mut h = Help::new();
    h.scroll_up();
    assert_eq!(h.scroll_offset, 0);
    h.scroll_down(10, 5);
    assert_eq!(h.scroll_offset, 1);
    h.scroll_down(10, 9);
    assert_eq!(h.scroll_offset, 1);
    h.scroll_up();
    assert_eq!(h.scroll_offset, 0);
}

#[test]
fn test_help_size_bounds() {
    let mut h = Help::new();
    assert_eq!(h.width_percent, 85);
    assert_eq!(h.height_percent, 85);
    h.increase_width();
    h.increase_width();
    h.increase_width();
    assert_eq!(h.width_percent, 95);
    for _ in 0..20 {
        h.decrease_width();
    }
    assert_eq!(h.width_percent, 50);
    h.increase_height();
    h.increase_height();
    assert_eq!(h.height_percent, 95);
    for _ in 0..20 {
        h.decrease_height();
    }
    assert_eq!(h.height_percent, 50);
}

#[test]
fn test_help_content_mentions_keys() {
    let content = Help::get_content();
    assert!(content.contains("GENERAL NAVIGATION"));
    assert!(content.contains("Space   - Start/Pause timer"));
}

#[test]
fn test_summary_goal_progress() {
    let mut s = Summary::new(120);
    assert_eq!(s.daily_goal_minutes, 120);
    assert_eq!(s.goal_progress(0), 0);
    assert_eq!(s.goal_progress(60), 50);
    assert_eq!(s.goal_progress(120), 100);
    assert_eq!(s.goal_progress(500), 100);
    s.update_stats();
    assert_eq!(s.get_daily_summary(), "Daily summary placeholder");
    let zero_goal = Summary::new(0);
    assert_eq!(zero_goal.goal_progress(45), 0);
}

#[test]
fn test_default_config() {
    let timer = TimerConfig::default();
    assert_eq!(timer.work_minutes, 25);
    assert_eq!(timer.short_break_minutes, 5);
    assert_eq!(timer.long_break_minutes, 15);
    assert_eq!(timer.sessions_until_long_break, 4);
    let todo = TodoConfig::default();
    assert!(todo.auto_save);
    assert!(todo.save_pomodoro_data);
    assert_eq!(todo.save_path.as_deref(), Some("~/.config/sessio/todos.md"));
    let summary = SummaryConfig::default();
    assert_eq!(summary.daily_goal_minutes, 120);
    let music = MusicSettings::default();
    assert_eq!(music.default_volume_percent, 70);
    assert_eq!(music.alarm_volume_percent, 30);
    assert_eq!(music.alarm_duration_seconds, 15);
    assert!(music.auto_play_next);
    let theme = ThemeConfig::default();
    assert!(theme.use_dracula);
    assert!(default_save_pomodoro_data());
}

#[test]
fn test_is_chinese_character() {
    assert!(is_chinese_character('\u{4E2D}'));
    assert!(is_chinese_character('\u{6587}'));
    assert!(is_chinese_character('\u{3042}'));
    assert!(!is_chinese_character('a'));
    assert!(!is_chinese_character('1'));
    assert!(!is_chinese_character(' '));
}
