//! Panel focus and help-overlay state: which of the four quadrants has the
//! keyboard, and whether the help popup is shown.

use vstd::prelude::*;

use crate::help::Help;

verus! {

/// The four screen panels.
#[derive(Debug, Clone, Copy, PartialEq, Eq, Structural)]
pub enum Quadrant {
    /// The timer panel.
    TopLeft,
    /// The summary panel.
    TopRight,
    /// The todo panel.
    BottomLeft,
    /// The music panel.
    BottomRight,
}

/// Where directional navigation moves the focus; edges do not wrap.
pub open spec fn spec_navigate(q: Quadrant, direction: char) -> Quadrant {
    match (q, direction) {
        (Quadrant::TopRight, 'h') => Quadrant::TopLeft,
        (Quadrant::BottomRight, 'h') => Quadrant::BottomLeft,
        (Quadrant::TopLeft, 'l') => Quadrant::TopRight,
        (Quadrant::BottomLeft, 'l') => Quadrant::BottomRight,
        (Quadrant::BottomLeft, 'k') => Quadrant::TopLeft,
        (Quadrant::BottomRight, 'k') => Quadrant::TopRight,
        (Quadrant::TopLeft, 'j') => Quadrant::BottomLeft,
        (Quadrant::TopRight, 'j') => Quadrant::BottomRight,
        _ => q,
    }
}

/// Where panel cycling moves the focus: timer, todo, summary, music, and
/// around again ('l' forward, 'h' backward).
pub open spec fn spec_cycle(q: Quadrant, direction: char) -> Quadrant {
    if direction == 'l' {
        match q {
            Quadrant::TopLeft => Quadrant::BottomLeft,
            Quadrant::BottomLeft => Quadrant::TopRight,
            Quadrant::TopRight => Quadrant::BottomRight,
            Quadrant::BottomRight => Quadrant::TopLeft,
        }
    } else if direction == 'h' {
        match q {
            Quadrant::TopLeft => Quadrant::BottomRight,
            Quadrant::TopRight => Quadrant::BottomLeft,
            Quadrant::BottomLeft => Quadrant::TopLeft,
            Quadrant::BottomRight => Quadrant::TopRight,
        }
    } else {
        q
    }
}

/// The panel-focus and help-overlay state.
pub struct App {
    pub focused_quadrant: Quadrant,
    pub show_help: bool,
    pub help: Help,
}

impl App {
    pub fn new() -> (a: App)
        ensures
            a.focused_quadrant == Quadrant::TopLeft,
            !a.show_help,
            a.help == Help::initial(),
    {
        App { focused_quadrant: Quadrant::TopLeft, show_help: false, help: Help::new() }
    }

    pub fn toggle_help(&mut self)
        ensures
            *final(self) == (App { show_help: !old(self).show_help, ..*old(self) }),
    {
        self.show_help = !self.show_help;
    }

    pub fn close_help(&mut self)
        ensures
            *final(self) == (App { show_help: false, ..*old(self) }),
    {
        self.show_help = false;
    }

    /// Move the focus one panel in `direction` (vi keys); edges stay put.
    pub fn navigate(&mut self, direction: char)
        ensures
            *final(self) == (App {
                focused_quadrant: spec_navigate(old(self).focused_quadrant, direction),
                ..*old(self)
            }),
    {
        self.focused_quadrant = match (self.focused_quadrant, direction) {
            (Quadrant::TopRight, 'h') => Quadrant::TopLeft,
            (Quadrant::BottomRight, 'h') => Quadrant::BottomLeft,
            (Quadrant::TopLeft, 'l') => Quadrant::TopRight,
            (Quadrant::BottomLeft, 'l') => Quadrant::BottomRight,
            (Quadrant::BottomLeft, 'k') => Quadrant::TopLeft,
            (Quadrant::BottomRight, 'k') => Quadrant::TopRight,
            (Quadrant::TopLeft, 'j') => Quadrant::BottomLeft,
            (Quadrant::TopRight, 'j') => Quadrant::BottomRight,
            _ => self.focused_quadrant,
        };
    }

    /// Cycle the focus through the panels: timer, todo, summary, music.
    pub fn cycle_panels(&mut self, direction: char)
        ensures
            *final(self) == (App {
                focused_quadrant: spec_cycle(old(self).focused_quadrant, direction),
                ..*old(self)
            }),
    {
        match direction {
            'l' => {
                self.focused_quadrant = match self.focused_quadrant {
                    Quadrant::TopLeft => Quadrant::BottomLeft,
                    Quadrant::BottomLeft => Quadrant::TopRight,
                    Quadrant::TopRight => Quadrant::BottomRight,
                    Quadrant::BottomRight => Quadrant::TopLeft,
                };
            },
            'h' => {
                self.focused_quadrant = match self.focused_quadrant {
                    Quadrant::TopLeft => Quadrant::BottomRight,
                    Quadrant::TopRight => Quadrant::BottomLeft,
                    Quadrant::BottomLeft => Quadrant::TopLeft,
                    Quadrant::BottomRight => Quadrant::TopRight,
                };
            },
            _ => {},
        }
    }
}

} // verus!
