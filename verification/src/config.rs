//! Configuration sections with their default values. Reading and writing
//! the configuration file is the host's concern; these are the plain
//! settings the engines are built from.

use vstd::prelude::*;

verus! {

/// Pomodoro timer settings.
#[derive(Debug, Clone, Copy, PartialEq, Eq, Structural)]
pub struct TimerConfig {
    /// Work session duration in minutes (default: 25).
    pub work_minutes: u64,
    /// Short break duration in minutes (default: 5).
    pub short_break_minutes: u64,
    /// Long break duration in minutes (default: 15).
    pub long_break_minutes: u64,
    /// Number of work sessions before a long break (default: 4).
    pub sessions_until_long_break: u32,
}

impl Default for TimerConfig {
    fn default() -> (c: TimerConfig)
        ensures
            c == (TimerConfig {
                work_minutes: 25u64,
                short_break_minutes: 5u64,
                long_break_minutes: 15u64,
                sessions_until_long_break: 4u32,
            }),
    {
        TimerConfig {
            work_minutes: 25,
            short_break_minutes: 5,
            long_break_minutes: 15,
            sessions_until_long_break: 4,
        }
    }
}

/// Summary panel settings.
#[derive(Debug, Clone, Copy, PartialEq, Eq, Structural)]
pub struct SummaryConfig {
    /// Daily focus time goal in minutes (default: 120).
    pub daily_goal_minutes: u32,
}

impl Default for SummaryConfig {
    fn default() -> (c: SummaryConfig)
        ensures
            c == (SummaryConfig { daily_goal_minutes: 120u32 }),
    {
        SummaryConfig { daily_goal_minutes: 120 }
    }
}

/// Todo list settings.
#[derive(Debug, Clone)]
pub struct TodoConfig {
    /// Automatically save todos to file (default: true).
    pub auto_save: bool,
    /// Path to save todos under (default: a file in the config folder).
    pub save_path: Option<String>,
    /// Save the pomodoro session history too (default: true).
    pub save_pomodoro_data: bool,
}

impl Default for TodoConfig {
    fn default() -> (c: TodoConfig)
        ensures
            c.auto_save,
            c.save_pomodoro_data,
            c.save_path matches Some(p) && p@ == "~/.config/sessio/todos.md"@,
    {
        let p = "~/.config/sessio/todos.md";
        TodoConfig { auto_save: true, save_path: Some(p.to_owned()), save_pomodoro_data: true }
    }
}

/// The default for saving the pomodoro session history.
pub fn default_save_pomodoro_data() -> (r: bool)
    ensures
        r,
{
    true
}

/// Theme settings.
#[derive(Debug, Clone, Copy, PartialEq, Eq, Structural)]
pub struct ThemeConfig {
    /// Use the bundled dark theme (default: true).
    pub use_dracula: bool,
}

impl Default for ThemeConfig {
    fn default() -> (c: ThemeConfig)
        ensures
            c == (ThemeConfig { use_dracula: true }),
    {
        ThemeConfig { use_dracula: true }
    }
}

/// Music settings as the verified engines see them: volumes as percentages
/// (the host's file stores them as fractions of 1).
#[derive(Debug, Clone)]
pub struct MusicSettings {
    /// Directory to scan for tracks, if configured.
    pub music_directory: Option<String>,
    /// Normal playback volume in percent (default: 70).
    pub default_volume_percent: u32,
    /// Auto-play the next track (default: true).
    pub auto_play_next: bool,
    /// Ducked volume while the alarm sounds, in percent (default: 30).
    pub alarm_volume_percent: u32,
    /// How long the alarm sounds, in seconds (default: 15).
    pub alarm_duration_seconds: u64,
}

impl Default for MusicSettings {
    fn default() -> (c: MusicSettings)
        ensures
            c.music_directory matches Some(p) && p@ == "~/Music"@,
            c.default_volume_percent == 70,
            c.auto_play_next,
            c.alarm_volume_percent == 30,
            c.alarm_duration_seconds == 15,
    {
        let p = "~/Music";
        MusicSettings {
            music_directory: Some(p.to_owned()),
            default_volume_percent: 70,
            auto_play_next: true,
            alarm_volume_percent: 30,
            alarm_duration_seconds: 15,
        }
    }
}

} // verus!
