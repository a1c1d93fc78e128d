//! The help overlay's state: scroll position and popup size, with the fixed
//! help text.

use vstd::prelude::*;

verus! {

/// The help popup: scroll offset and size as percentages of the screen.
#[derive(Debug, Clone, Copy, PartialEq, Eq, Structural)]
pub struct Help {
    pub scroll_offset: usize,
    pub width_percent: u16,
    pub height_percent: u16,
}

impl Help {
    /// The state a fresh overlay starts in.
    pub open spec fn initial() -> Help {
        Help { scroll_offset: 0, width_percent: 85, height_percent: 85 }
    }

    pub fn new() -> (h: Help)
        ensures
            h == Help::initial(),
    {
        Help { scroll_offset: 0, width_percent: 85, height_percent: 85 }
    }

    /// The fixed help text.
    pub open spec fn spec_content() -> Seq<char> {
        "🚀 PRODUCTIVITY SUITE - HELP\n\n📋 GENERAL NAVIGATION:\n  h/l     - Cycle between panels: timer→summary→todo→music→timer\n  j/k     - Navigate within current panel (up/down)\n  q       - Quit application\n  ?       - Toggle this help (ESC to close)\n  C       - Reload configuration file\n\n⏱️  TIMER PANEL (Top-Left):\n  Space   - Start/Pause timer\n  r       - Reset current timer\n  S       - Skip to next phase\n  • Plays alarm sound when timer ends (place alarm.wav in ~/.config/sessio/)\n\n✅ TODO PANEL (Bottom-Left):\n  j/k     - Navigate within todo items  \n  a       - Add new task\n  d       - Toggle done status\n  D       - Delete selected task\n  s       - Select task for timer (starts timer)\n  z       - Undo last action\n  PgUp/Dn - Page up/down in todo list\n\n📊 SUMMARY PANEL (Top-Right):\n  Shows daily statistics, streaks, and progress\n\n🎵 TRACK LIST PANEL (Bottom-Right):\n  j/k     - Navigate within track list\n  Space   - Play/Pause current track\n  Enter   - Play selected track\n  n       - Next track\n  p       - Previous track\n  m       - Cycle playback mode (Track List/Random/Repeat/Current Only)\n  R       - Refresh music library\n\n🍅 POMODORO TECHNIQUE:\n  • 25min work sessions\n  • 5min short breaks  \n  • 15min long breaks (every 4th session)\n  • Time automatically tracked to selected todo\n\n⚙️  CONFIGURATION:\n  • Config file: ~/.config/sessio/sessio.toml\n  • Automatically created with defaults on first run\n  • Reload with 'C' key without restarting\n  • See sessio.toml.example for all options\n\n📈 FEATURES:\n  • Timeline tracking in markdown\n  • Daily/weekly statistics  \n  • Streak counting\n  • Automatic time logging\n  • Persistent todo storage\n\n🔧 HELP PANEL CONTROLS:\n  j/k or ↓/↑ - Scroll up/down\n  +/-        - Increase/decrease width\n  =/−        - Increase/decrease height\n  ESC        - Close help\n\nPress ESC to close this help"@
    }

    pub fn get_content() -> (r: &'static str)
        ensures
            r@ == Help::spec_content(),
    {
        "🚀 PRODUCTIVITY SUITE - HELP\n\n📋 GENERAL NAVIGATION:\n  h/l     - Cycle between panels: timer→summary→todo→music→timer\n  j/k     - Navigate within current panel (up/down)\n  q       - Quit application\n  ?       - Toggle this help (ESC to close)\n  C       - Reload configuration file\n\n⏱️  TIMER PANEL (Top-Left):\n  Space   - Start/Pause timer\n  r       - Reset current timer\n  S       - Skip to next phase\n  • Plays alarm sound when timer ends (place alarm.wav in ~/.config/sessio/)\n\n✅ TODO PANEL (Bottom-Left):\n  j/k     - Navigate within todo items  \n  a       - Add new task\n  d       - Toggle done status\n  D       - Delete selected task\n  s       - Select task for timer (starts timer)\n  z       - Undo last action\n  PgUp/Dn - Page up/down in todo list\n\n📊 SUMMARY PANEL (Top-Right):\n  Shows daily statistics, streaks, and progress\n\n🎵 TRACK LIST PANEL (Bottom-Right):\n  j/k     - Navigate within track list\n  Space   - Play/Pause current track\n  Enter   - Play selected track\n  n       - Next track\n  p       - Previous track\n  m       - Cycle playback mode (Track List/Random/Repeat/Current Only)\n  R       - Refresh music library\n\n🍅 POMODORO TECHNIQUE:\n  • 25min work sessions\n  • 5min short breaks  \n  • 15min long breaks (every 4th session)\n  • Time automatically tracked to selected todo\n\n⚙️  CONFIGURATION:\n  • Config file: ~/.config/sessio/sessio.toml\n  • Automatically created with defaults on first run\n  • Reload with 'C' key without restarting\n  • See sessio.toml.example for all options\n\n📈 FEATURES:\n  • Timeline tracking in markdown\n  • Daily/weekly statistics  \n  • Streak counting\n  • Automatic time logging\n  • Persistent todo storage\n\n🔧 HELP PANEL CONTROLS:\n  j/k or ↓/↑ - Scroll up/down\n  +/-        - Increase/decrease width\n  =/−        - Increase/decrease height\n  ESC        - Close help\n\nPress ESC to close this help"
    }

    /// Scroll one line up, stopping at the top.
    pub fn scroll_up(&mut self)
        ensures
            *final(self) == (Help {
                scroll_offset: if old(self).scroll_offset > 0 {
                    (old(self).scroll_offset - 1) as usize
                } else {
                    0
                },
                ..*old(self)
            }),
    {
        if self.scroll_offset > 0 {
            self.scroll_offset = self.scroll_offset - 1;
        }
    }

    /// Scroll one line down while more content lies below the window.
    pub fn scroll_down(&mut self, max_lines: usize, visible_lines: usize)
        requires
            old(self).scroll_offset + visible_lines <= usize::MAX,
        ensures
            *final(self) == (Help {
                scroll_offset: if old(self).scroll_offset + visible_lines < max_lines {
                    (old(self).scroll_offset + 1) as usize
                } else {
                    old(self).scroll_offset
                },
                ..*old(self)
            }),
    {
        if self.scroll_offset + visible_lines < max_lines {
            self.scroll_offset = self.scroll_offset + 1;
        }
    }

    /// Widen the popup in steps of five percent, up to 95.
    pub fn increase_width(&mut self)
        ensures
            *final(self) == (Help {
                width_percent: if old(self).width_percent < 95 {
                    (old(self).width_percent + 5) as u16
                } else {
                    old(self).width_percent
                },
                ..*old(self)
            }),
    {
        if self.width_percent < 95 {
            self.width_percent = self.width_percent + 5;
        }
    }

    /// Narrow the popup in steps of five percent, down to 50.
    pub fn decrease_width(&mut self)
        ensures
            *final(self) == (Help {
                width_percent: if old(self).width_percent > 50 {
                    (old(self).width_percent - 5) as u16
                } else {
                    old(self).width_percent
                },
                ..*old(self)
            }),
    {
        if self.width_percent > 50 {
            self.width_percent = self.width_percent - 5;
        }
    }

    /// Heighten the popup in steps of five percent, up to 95.
    pub fn increase_height(&mut self)
        ensures
            *final(self) == (Help {
                height_percent: if old(self).height_percent < 95 {
                    (old(self).height_percent + 5) as u16
                } else {
                    old(self).height_percent
                },
                ..*old(self)
            }),
    {
        if self.height_percent < 95 {
            self.height_percent = self.height_percent + 5;
        }
    }

    /// Shorten the popup in steps of five percent, down to 50.
    pub fn decrease_height(&mut self)
        ensures
            *final(self) == (Help {
                height_percent: if old(self).height_percent > 50 {
                    (old(self).height_percent - 5) as u16
                } else {
                    old(self).height_percent
                },
                ..*old(self)
            }),
    {
        if self.height_percent > 50 {
            self.height_percent = self.height_percent - 5;
        }
    }
}

} // verus!
