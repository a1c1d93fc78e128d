//! The summary panel's state: the configured daily focus-time goal.

use vstd::prelude::*;

verus! {

/// The summary panel.
#[derive(Debug, Clone, Copy, PartialEq, Eq, Structural)]
pub struct Summary {
    /// Daily focus-time goal in minutes.
    pub daily_goal_minutes: u32,
}

impl Summary {
    pub fn new(daily_goal_minutes: u32) -> (s: Summary)
        ensures
            s.daily_goal_minutes == daily_goal_minutes,
    {
        Summary { daily_goal_minutes }
    }

    /// Statistics are read live from the collaborators; nothing is cached.
    pub fn update_stats(&mut self)
        ensures
            *final(self) == *old(self),
    {
    }

    pub fn get_daily_summary(&self) -> (r: String)
        ensures
            r@ == "Daily summary placeholder"@,
    {
        let s = "Daily summary placeholder";
        s.to_owned()
    }

    /// Progress toward the daily goal in whole percent, capped at 100; zero
    /// when no goal is set.
    pub fn goal_progress(&self, today_minutes: u32) -> (r: u32)
        ensures
            self.daily_goal_minutes == 0 ==> r == 0,
            self.daily_goal_minutes > 0 ==> r == if today_minutes * 100 / (
            self.daily_goal_minutes as int) <= 100 {
                today_minutes * 100 / (self.daily_goal_minutes as int)
            } else {
                100int
            },
    {
        if self.daily_goal_minutes == 0 {
            return 0;
        }
        let p = (today_minutes as u64) * 100 / (self.daily_goal_minutes as u64);
        if p >= 100 {
            100
        } else {
            proof {
                assert(p == today_minutes * 100 / (self.daily_goal_minutes as int));
            }
            p as u32
        }
    }
}

} // verus!
