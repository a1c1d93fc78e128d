//! The coordinator: each tick it refreshes the alarm state, detects edges of
//! the alarm flag against the previous tick, and turns them into exactly one
//! volume command per edge; it also relays "work phase completed" events to
//! the host's todo collaborator exactly once per completion.

use vstd::prelude::*;

use crate::timer::Timer;
use crate::track_list::AudioCommand;
use crate::track_list::TrackList;

verus! {

/// The volume command an alarm-flag transition calls for: ducking on a
/// rising edge, restoration on a falling edge, nothing otherwise.
pub open spec fn edge_command(was: bool, active: bool, alarm_volume: u32, normal_volume: u32) -> Option<
    AudioCommand,
> {
    if active && !was {
        Some(AudioCommand::SetVolume { percent: alarm_volume })
    } else if !active && was {
        Some(AudioCommand::SetVolume { percent: normal_volume })
    } else {
        None
    }
}

/// Ducking fires exactly once per rising edge and restoration exactly once
/// per falling edge: a tick that observes the same alarm flag as the tick
/// before it issues no volume command, whatever the flag's value; and the
/// two edges issue exactly the ducking and the restoring command.
pub proof fn lemma_edge_fires_once(b: bool, alarm_volume: u32, normal_volume: u32)
    ensures
        edge_command(b, b, alarm_volume, normal_volume) is None,
        edge_command(false, true, alarm_volume, normal_volume) == Some(
            AudioCommand::SetVolume { percent: alarm_volume },
        ),
        edge_command(true, false, alarm_volume, normal_volume) == Some(
            AudioCommand::SetVolume { percent: normal_volume },
        ),
{
}

/// The per-tick alarm/volume coordinator state.
pub struct Coordinator {
    /// The alarm flag the previous tick observed.
    pub was_alarm_active: bool,
    /// The configured normal music volume (percent), restored after ducking.
    pub default_volume: u32,
}

impl Coordinator {
    pub fn new(default_volume: u32) -> (c: Coordinator)
        ensures
            c.was_alarm_active == false,
            c.default_volume == default_volume,
    {
        Coordinator { was_alarm_active: false, default_volume }
    }

    /// One tick of alarm reconciliation: refresh the timer's alarm state at
    /// `now`, compare with the previous tick, and hand back the volume
    /// command the edge calls for (none without a sink, and none while the
    /// flag is unchanged).
    pub fn reconcile_alarm(&mut self, timer: &mut Timer, tracks: &mut TrackList, now: u64) -> (cmd:
        Option<AudioCommand>)
        requires
            old(timer).wf(),
            old(tracks).wf(),
        ensures
            final(timer).wf(),
            final(tracks).wf(),
            *final(tracks) == *old(tracks),
            final(timer).alarm_active == (old(timer).alarm_active && now < old(
                timer,
            ).spec_alarm_end()),
            final(self).was_alarm_active == final(timer).alarm_active,
            final(self).default_volume == old(self).default_volume,
            cmd == (if old(tracks).has_sink {
                edge_command(
                    old(self).was_alarm_active,
                    final(timer).alarm_active,
                    old(timer).alarm_volume,
                    old(self).default_volume,
                )
            } else {
                None::<AudioCommand>
            }),
            (old(timer).alarm_active && now >= old(timer).spec_alarm_end()) ==> *final(timer)
                == (Timer {
                alarm_active: false,
                alarm_end_time: None::<u64>,
                ..*old(timer)
            }),
            !(old(timer).alarm_active && now >= old(timer).spec_alarm_end()) ==> *final(timer)
                == *old(timer),
    {
        let is_alarm_active = timer.update_alarm_state(now);
        let cmd = if is_alarm_active && !self.was_alarm_active {
            tracks.lower_volume_for_alarm(timer.get_alarm_volume())
        } else if !is_alarm_active && self.was_alarm_active {
            tracks.restore_volume(self.default_volume)
        } else {
            None
        };
        self.was_alarm_active = is_alarm_active;
        cmd
    }

    /// Collect the pending "work phase completed" credit, exactly once: if a
    /// work phase just completed with a task selected, clear the flag and the
    /// selection and hand back the task index and the minutes to credit.
    pub fn collect_work_credit(&self, timer: &mut Timer) -> (r: Option<(usize, u32)>)
        requires
            old(timer).wf(),
            old(timer).work_duration / 60 <= u32::MAX,
        ensures
            final(timer).wf(),
            (old(timer).work_completed_flag && old(timer).selected_todo_index is Some) ==> {
                &&& r == Some((old(timer).selected_todo_index->0, old(timer).spec_work_minutes()))
                &&& *final(timer) == (Timer {
                    selected_todo_index: None::<usize>,
                    work_completed_flag: false,
                    ..*old(timer)
                })
            },
            !(old(timer).work_completed_flag && old(timer).selected_todo_index is Some) ==> {
                &&& r is None
                &&& *final(timer) == *old(timer)
            },
    {
        if timer.work_phase_just_completed() {
            let idx = match timer.get_selected_todo() {
                Some(i) => i,
                None => {
                    return None;
                },
            };
            let minutes = timer.get_work_session_minutes();
            timer.set_selected_todo(None);
            timer.clear_work_completed_flag();
            Some((idx, minutes))
        } else {
            None
        }
    }
}

} // verus!
