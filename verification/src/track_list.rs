//! The playback engine: a track library with a selection cursor, a playback
//! state machine over four modes, and mode-dependent auto-advance when a
//! track ends.
//!
//! The engine never touches the audio device itself: every operation returns
//! the audio command (start, pause, resume, stop, set volume) that the host
//! must apply to its sink, and the host reports back plain observations (was
//! the sink empty, does the file still exist).

use vstd::prelude::*;

verus! {

#[derive(Debug, Clone, Copy, PartialEq, Eq, Structural)]
pub enum PlaybackMode {
    /// Play tracks in order, stopping at the end.
    TrackList,
    /// Play a uniformly random track next.
    Random,
    /// Play tracks in order, wrapping at the end.
    Repeat,
    /// Replay the current track.
    CurrentOnly,
}

/// The fixed mode cycle.
pub open spec fn spec_mode_next(m: PlaybackMode) -> PlaybackMode {
    match m {
        PlaybackMode::TrackList => PlaybackMode::Random,
        PlaybackMode::Random => PlaybackMode::Repeat,
        PlaybackMode::Repeat => PlaybackMode::CurrentOnly,
        PlaybackMode::CurrentOnly => PlaybackMode::TrackList,
    }
}

/// Mode cycling is a closed 4-cycle: four steps return to the start, and no
/// earlier step does.
pub proof fn lemma_playback_mode_cycle(m: PlaybackMode)
    ensures
        spec_mode_next(spec_mode_next(spec_mode_next(spec_mode_next(m)))) == m,
        spec_mode_next(m) != m,
        spec_mode_next(spec_mode_next(m)) != m,
        spec_mode_next(spec_mode_next(spec_mode_next(m))) != m,
{
}

impl PlaybackMode {
    pub fn next(&self) -> (r: PlaybackMode)
        ensures
            r == spec_mode_next(*self),
    {
        match self {
            PlaybackMode::TrackList => PlaybackMode::Random,
            PlaybackMode::Random => PlaybackMode::Repeat,
            PlaybackMode::Repeat => PlaybackMode::CurrentOnly,
            PlaybackMode::CurrentOnly => PlaybackMode::TrackList,
        }
    }

    pub fn to_string(&self) -> (r: &'static str)
        ensures
            *self == PlaybackMode::TrackList ==> r@ == "Track List"@,
            *self == PlaybackMode::Random ==> r@ == "Random"@,
            *self == PlaybackMode::Repeat ==> r@ == "Repeat"@,
            *self == PlaybackMode::CurrentOnly ==> r@ == "Current Only"@,
    {
        match self {
            PlaybackMode::TrackList => "Track List",
            PlaybackMode::Random => "Random",
            PlaybackMode::Repeat => "Repeat",
            PlaybackMode::CurrentOnly => "Current Only",
        }
    }

    pub fn icon(&self) -> (r: &'static str)
        ensures
            *self == PlaybackMode::TrackList ==> r@ == "📄"@,
            *self == PlaybackMode::Random ==> r@ == "🔀"@,
            *self == PlaybackMode::Repeat ==> r@ == "🔁"@,
            *self == PlaybackMode::CurrentOnly ==> r@ == "🔂"@,
    {
        match self {
            PlaybackMode::TrackList => "📄",
            PlaybackMode::Random => "🔀",
            PlaybackMode::Repeat => "🔁",
            PlaybackMode::CurrentOnly => "🔂",
        }
    }
}

/// One entry of the library: a display name, a filesystem locator, and an
/// optional preformatted duration. Immutable once scanned.
#[derive(Debug, Clone)]
pub struct Track {
    pub name: String,
    pub path: String,
    pub duration: Option<String>,
}

/// A transport command for the host to apply to its audio sink.
#[derive(Debug, Clone, Copy, PartialEq, Eq, Structural)]
pub enum AudioCommand {
    /// Stop whatever plays, decode the library entry at `index`, play it.
    Start { index: usize },
    Pause,
    Resume,
    Stop,
    /// Set the sink's gain to `percent` (0..=100) of full volume.
    SetVolume { percent: u32 },
}

/// Relies on `rand::random_range` over the range `0..n`, which returns a
/// uniformly distributed value of that range; it always lies below `n`.
#[verifier::external_body]
fn random_below(n: usize) -> (r: usize)
    requires
        n > 0,
    ensures
        r < n,
{
    rand::random_range(0..n)
}

/// The playback engine itself.
pub struct TrackList {
    /// The library snapshot; never empty (a sentinel entry stands in when
    /// nothing was found).
    pub tracks: Vec<Track>,
    /// The entry whose playback was last started, if any.
    pub current_track: Option<usize>,
    /// The navigation cursor.
    pub selected_index: usize,
    /// Where the library was scanned from, for display.
    pub music_folder: String,
    /// Whether the host holds an audio sink for this engine: set once the
    /// first track starts.
    pub has_sink: bool,
    pub is_playing: bool,
    pub is_paused: bool,
    pub playback_mode: PlaybackMode,
}

impl TrackList {
    /// Structural invariant: every operation preserves it.
    pub open spec fn wf(self) -> bool {
        &&& self.tracks@.len() >= 1
        &&& (self.selected_index as int) < self.tracks@.len()
        &&& (self.current_track matches Some(i) ==> (i as int) < self.tracks@.len())
        &&& (self.is_paused ==> self.is_playing)
        &&& (self.is_playing ==> self.current_track is Some && self.has_sink)
    }

    /// What the library holds after loading `scanned`: the scan itself, or
    /// one sentinel entry when the scan found nothing.
    pub open spec fn loaded_tracks_ok(self, scanned: Seq<Track>) -> bool {
        if scanned.len() > 0 {
            self.tracks@ == scanned
        } else {
            &&& self.tracks@.len() == 1
            &&& self.tracks@[0].name@ == "No music files found"@
            &&& self.tracks@[0].path@ == Seq::<char>::empty()
            &&& self.tracks@[0].duration is None
        }
    }

    /// A fresh engine over an already-scanned library.
    pub fn new(music_folder: String, scanned: Vec<Track>) -> (t: TrackList)
        ensures
            t.wf(),
            t.loaded_tracks_ok(scanned@),
            t.current_track is None,
            t.selected_index == 0,
            t.music_folder == music_folder,
            !t.has_sink,
            !t.is_playing,
            !t.is_paused,
            t.playback_mode == PlaybackMode::TrackList,
    {
        let mut t = TrackList {
            tracks: Vec::new(),
            current_track: None,
            selected_index: 0,
            music_folder,
            has_sink: false,
            is_playing: false,
            is_paused: false,
            playback_mode: PlaybackMode::TrackList,
        };
        t.load_tracks_inner(scanned);
        t
    }

    /// Replace the library, clamping the cursor and the playing index to the
    /// new bounds (dropping out-of-range playback entirely).
    fn load_tracks_inner(&mut self, scanned: Vec<Track>)
        requires
            old(self).is_paused ==> old(self).is_playing,
            old(self).is_playing ==> old(self).current_track is Some && old(self).has_sink,
        ensures
            final(self).wf(),
            final(self).loaded_tracks_ok(scanned@),
            final(self).selected_index == (if (old(self).selected_index as int) < final(self).tracks@.len() {
                old(self).selected_index
            } else {
                0
            }),
            final(self).current_track == (if old(self).current_track matches Some(i) && (i as int)
                < final(self).tracks@.len() {
                old(self).current_track
            } else {
                None::<usize>
            }),
            final(self).current_track is None ==> !final(self).is_playing && !final(self).is_paused,
            final(self).current_track is Some ==> final(self).is_playing == old(self).is_playing
                && final(self).is_paused == old(self).is_paused,
            final(self).music_folder == old(self).music_folder,
            final(self).has_sink == old(self).has_sink,
            final(self).playback_mode == old(self).playback_mode,
    {
        if scanned.len() > 0 {
            self.tracks = scanned;
        } else {
            let mut v: Vec<Track> = Vec::new();
            v.push(
                Track { name: sentinel_name(), path: String::new(), duration: None },
            );
            self.tracks = v;
        }
        if self.selected_index >= self.tracks.len() {
            self.selected_index = 0;
        }
        let keep = match self.current_track {
            Some(i) => i < self.tracks.len(),
            None => false,
        };
        if !keep {
            self.current_track = None;
            self.is_playing = false;
            self.is_paused = false;
        }
    }

    /// Replace the library; same clamping as construction.
    pub fn load_tracks(&mut self, scanned: Vec<Track>)
        requires
            old(self).wf(),
        ensures
            final(self).wf(),
            final(self).loaded_tracks_ok(scanned@),
            final(self).selected_index == (if (old(self).selected_index as int) < final(self).tracks@.len() {
                old(self).selected_index
            } else {
                0
            }),
            final(self).current_track == (if old(self).current_track matches Some(i) && (i as int)
                < final(self).tracks@.len() {
                old(self).current_track
            } else {
                None::<usize>
            }),
            final(self).current_track is None ==> !final(self).is_playing && !final(self).is_paused,
            final(self).current_track is Some ==> final(self).is_playing == old(self).is_playing
                && final(self).is_paused == old(self).is_paused,
            final(self).music_folder == old(self).music_folder,
            final(self).has_sink == old(self).has_sink,
            final(self).playback_mode == old(self).playback_mode,
    {
        self.load_tracks_inner(scanned);
    }

    /// Move the cursor up, wrapping to the last entry.
    pub fn move_selection_up(&mut self)
        requires
            old(self).wf(),
        ensures
            final(self).wf(),
            *final(self) == (TrackList {
                selected_index: if old(self).selected_index == 0 {
                    (old(self).tracks@.len() - 1) as usize
                } else {
                    (old(self).selected_index - 1) as usize
                },
                ..*old(self)
            }),
    {
        if self.selected_index == 0 {
            self.selected_index = self.tracks.len() - 1;
        } else {
            self.selected_index = self.selected_index - 1;
        }
    }

    /// Move the cursor down, wrapping to the first entry.
    pub fn move_selection_down(&mut self)
        requires
            old(self).wf(),
        ensures
            final(self).wf(),
            *final(self) == (TrackList {
                selected_index: (((old(self).selected_index + 1) % (old(self).tracks@.len() as int)) as usize),
                ..*old(self)
            }),
    {
        let n = self.tracks.len();
        self.selected_index = (self.selected_index + 1) % n;
    }

    /// Start the entry at `index`. `available` reports whether its file still
    /// exists; out-of-range indices and missing files are silent no-ops.
    pub fn play_track(&mut self, index: usize, available: bool) -> (cmd: Option<AudioCommand>)
        requires
            old(self).wf(),
        ensures
            final(self).wf(),
            (index as int) < old(self).tracks@.len() && available ==> {
                &&& *final(self) == (TrackList {
                    current_track: Some(index),
                    has_sink: true,
                    is_playing: true,
                    is_paused: false,
                    ..*old(self)
                })
                &&& cmd == Some(AudioCommand::Start { index })
            },
            !((index as int) < old(self).tracks@.len() && available) ==> *final(self) == *old(self)
                && cmd is None,
    {
        if index >= self.tracks.len() || !available {
            return None;
        }
        self.current_track = Some(index);
        self.has_sink = true;
        self.is_playing = true;
        self.is_paused = false;
        Some(AudioCommand::Start { index })
    }

    /// Start the entry under the cursor.
    pub fn play_selected(&mut self, available: bool) -> (cmd: Option<AudioCommand>)
        requires
            old(self).wf(),
        ensures
            final(self).wf(),
            available ==> {
                &&& *final(self) == (TrackList {
                    current_track: Some(old(self).selected_index),
                    has_sink: true,
                    is_playing: true,
                    is_paused: false,
                    ..*old(self)
                })
                &&& cmd == Some(AudioCommand::Start { index: old(self).selected_index })
            },
            !available ==> *final(self) == *old(self) && cmd is None,
    {
        let sel = self.selected_index;
        self.play_track(sel, available)
    }

    /// The entry that `toggle_play_pause` would start, if it would start one.
    pub open spec fn spec_toggle_target(self) -> Option<usize> {
        if self.is_playing {
            None
        } else if self.has_sink && self.current_track is Some {
            self.current_track
        } else {
            Some(self.selected_index)
        }
    }

    /// Exposes the toggle decision so the host can check the target file
    /// before calling `toggle_play_pause`.
    pub fn toggle_target(&self) -> (r: Option<usize>)
        ensures
            r == self.spec_toggle_target(),
    {
        if self.is_playing {
            None
        } else {
            match self.current_track {
                Some(c) if self.has_sink => Some(c),
                _ => Some(self.selected_index),
            }
        }
    }

    /// Playing pauses; paused resumes; stopped starts the remembered current
    /// entry if the sink still holds one, else the cursor entry.
    pub fn toggle_play_pause(&mut self, available: bool) -> (cmd: Option<AudioCommand>)
        requires
            old(self).wf(),
        ensures
            final(self).wf(),
            old(self).is_playing && !old(self).is_paused ==> *final(self) == (TrackList {
                is_paused: true,
                ..*old(self)
            }) && cmd == Some(AudioCommand::Pause),
            old(self).is_paused ==> *final(self) == (TrackList {
                is_paused: false,
                ..*old(self)
            }) && cmd == Some(AudioCommand::Resume),
            !old(self).is_playing ==> {
                let tgt = old(self).spec_toggle_target()->0;
                if (tgt as int) < old(self).tracks@.len() && available {
                    &&& *final(self) == (TrackList {
                        current_track: Some(tgt),
                        has_sink: true,
                        is_playing: true,
                        is_paused: false,
                        ..*old(self)
                    })
                    &&& cmd == Some(AudioCommand::Start { index: tgt })
                } else {
                    *final(self) == *old(self) && cmd is None
                }
            },
    {
        if self.is_playing && !self.is_paused {
            self.is_paused = true;
            return Some(AudioCommand::Pause);
        }
        if self.is_paused {
            self.is_paused = false;
            return Some(AudioCommand::Resume);
        }
        let tgt = match self.current_track {
            Some(c) if self.has_sink => c,
            _ => self.selected_index,
        };
        self.play_track(tgt, available)
    }

    /// Halt playback. The playing index is left unset; the library and the
    /// cursor are untouched.
    pub fn stop(&mut self) -> (cmd: Option<AudioCommand>)
        requires
            old(self).wf(),
        ensures
            final(self).wf(),
            *final(self) == (TrackList {
                current_track: None::<usize>,
                is_playing: false,
                is_paused: false,
                ..*old(self)
            }),
            cmd == (if old(self).has_sink {
                Some(AudioCommand::Stop)
            } else {
                None::<AudioCommand>
            }),
    {
        self.current_track = None;
        self.is_playing = false;
        self.is_paused = false;
        if self.has_sink {
            Some(AudioCommand::Stop)
        } else {
            None
        }
    }

    /// The neighbour of the playing entry, wrapping; first entry if nothing
    /// plays.
    pub open spec fn spec_next_index(self) -> usize {
        match self.current_track {
            Some(i) => (((i + 1) % (self.tracks@.len() as int)) as usize),
            None => 0,
        }
    }

    pub open spec fn spec_prev_index(self) -> usize {
        match self.current_track {
            Some(i) => if i == 0 {
                (self.tracks@.len() - 1) as usize
            } else {
                (i - 1) as usize
            },
            None => 0,
        }
    }

    /// Start the next entry (circularly) after the playing one.
    pub fn next_track(&mut self, available: bool) -> (cmd: Option<AudioCommand>)
        requires
            old(self).wf(),
        ensures
            final(self).wf(),
            available ==> {
                &&& *final(self) == (TrackList {
                    current_track: Some(old(self).spec_next_index()),
                    has_sink: true,
                    is_playing: true,
                    is_paused: false,
                    ..*old(self)
                })
                &&& cmd == Some(AudioCommand::Start { index: old(self).spec_next_index() })
            },
            !available ==> *final(self) == *old(self) && cmd is None,
    {
        let n = self.tracks.len();
        let next = match self.current_track {
            Some(i) => (i + 1) % n,
            None => 0,
        };
        self.play_track(next, available)
    }

    /// Start the previous entry (circularly) before the playing one.
    pub fn previous_track(&mut self, available: bool) -> (cmd: Option<AudioCommand>)
        requires
            old(self).wf(),
        ensures
            final(self).wf(),
            available ==> {
                &&& *final(self) == (TrackList {
                    current_track: Some(old(self).spec_prev_index()),
                    has_sink: true,
                    is_playing: true,
                    is_paused: false,
                    ..*old(self)
                })
                &&& cmd == Some(AudioCommand::Start { index: old(self).spec_prev_index() })
            },
            !available ==> *final(self) == *old(self) && cmd is None,
    {
        let prev = match self.current_track {
            Some(i) => if i == 0 {
                self.tracks.len() - 1
            } else {
                i - 1
            },
            None => 0,
        };
        self.play_track(prev, available)
    }

    /// Advance the playback mode along the fixed cycle.
    pub fn cycle_playback_mode(&mut self)
        requires
            old(self).wf(),
        ensures
            final(self).wf(),
            *final(self) == (TrackList {
                playback_mode: spec_mode_next(old(self).playback_mode),
                ..*old(self)
            }),
    {
        self.playback_mode = self.playback_mode.next();
    }

    /// Stop, replace the library with a fresh scan, and reset the cursor and
    /// the playing index to the start.
    pub fn refresh_library(&mut self, scanned: Vec<Track>) -> (cmd: Option<AudioCommand>)
        requires
            old(self).wf(),
        ensures
            final(self).wf(),
            final(self).loaded_tracks_ok(scanned@),
            final(self).selected_index == 0,
            final(self).current_track is None,
            !final(self).is_playing,
            !final(self).is_paused,
            final(self).music_folder == old(self).music_folder,
            final(self).has_sink == old(self).has_sink,
            final(self).playback_mode == old(self).playback_mode,
            cmd == (if old(self).has_sink {
                Some(AudioCommand::Stop)
            } else {
                None::<AudioCommand>
            }),
    {
        let cmd = self.stop();
        self.load_tracks_inner(scanned);
        self.selected_index = 0;
        self.current_track = None;
        cmd
    }

    /// Point the engine at a different directory's scan.
    pub fn update_music_directory(&mut self, music_folder: String, scanned: Vec<Track>) -> (cmd:
        Option<AudioCommand>)
        requires
            old(self).wf(),
        ensures
            final(self).wf(),
            final(self).loaded_tracks_ok(scanned@),
            final(self).selected_index == 0,
            final(self).current_track is None,
            !final(self).is_playing,
            !final(self).is_paused,
            final(self).music_folder == music_folder,
            final(self).has_sink == old(self).has_sink,
            final(self).playback_mode == old(self).playback_mode,
            cmd == (if old(self).has_sink {
                Some(AudioCommand::Stop)
            } else {
                None::<AudioCommand>
            }),
    {
        self.music_folder = music_folder;
        self.refresh_library(scanned)
    }

    /// Whether this tick observes a track that ended naturally.
    pub open spec fn spec_should_advance(self, sink_empty: bool) -> bool {
        self.has_sink && sink_empty && self.is_playing && !self.is_paused
    }

    /// Poll for the end of the playing track and auto-advance by mode:
    /// in-order play stops at the end of the library rather than wrapping;
    /// repeat wraps; random draws any entry; current-only replays.
    pub fn update_playback_state(&mut self, sink_empty: bool) -> (cmd: Option<AudioCommand>)
        requires
            old(self).wf(),
        ensures
            final(self).wf(),
            !old(self).spec_should_advance(sink_empty) ==> *final(self) == *old(self)
                && cmd is None,
            old(self).spec_should_advance(sink_empty) ==> {
                let c = old(self).current_track->0 as int;
                let len = old(self).tracks@.len();
                match old(self).playback_mode {
                    PlaybackMode::TrackList => if c + 1 < len {
                        &&& *final(self) == (TrackList {
                            current_track: Some((c + 1) as usize),
                            has_sink: true,
                            is_playing: true,
                            is_paused: false,
                            ..*old(self)
                        })
                        &&& cmd == Some(AudioCommand::Start { index: (c + 1) as usize })
                    } else {
                        &&& *final(self) == (TrackList {
                            current_track: None::<usize>,
                            is_playing: false,
                            is_paused: false,
                            ..*old(self)
                        })
                        &&& cmd == Some(AudioCommand::Stop)
                    },
                    PlaybackMode::Random => {
                        &&& cmd matches Some(AudioCommand::Start { index })
                        &&& cmd matches Some(AudioCommand::Start { index }) ==> (index as int) < len
                            && *final(self) == (TrackList {
                            current_track: Some(index),
                            has_sink: true,
                            is_playing: true,
                            is_paused: false,
                            ..*old(self)
                        })
                    },
                    PlaybackMode::Repeat => {
                        let n = ((c + 1) % (len as int)) as usize;
                        &&& *final(self) == (TrackList {
                            current_track: Some(n),
                            has_sink: true,
                            is_playing: true,
                            is_paused: false,
                            ..*old(self)
                        })
                        &&& cmd == Some(AudioCommand::Start { index: n })
                    },
                    PlaybackMode::CurrentOnly => {
                        &&& *final(self) == (TrackList {
                            current_track: Some(c as usize),
                            has_sink: true,
                            is_playing: true,
                            is_paused: false,
                            ..*old(self)
                        })
                        &&& cmd == Some(AudioCommand::Start { index: c as usize })
                    },
                }
            },
    {
        let should = self.has_sink && sink_empty && self.is_playing && !self.is_paused;
        if !should {
            return None;
        }
        let c = match self.current_track {
            Some(c) => c,
            None => {
                return None;
            },
        };
        match self.playback_mode {
            PlaybackMode::TrackList => {
                let n = self.tracks.len();
                if c + 1 < n {
                    self.play_track(c + 1, true)
                } else {
                    self.stop()
                }
            },
            PlaybackMode::Random => {
                let i = random_below(self.tracks.len());
                self.play_track(i, true)
            },
            PlaybackMode::Repeat => {
                let len = self.tracks.len();
                let n = (c + 1) % len;
                self.play_track(n, true)
            },
            PlaybackMode::CurrentOnly => self.play_track(c, true),
        }
    }

    /// Hand the host a ducked-gain command while the alarm sounds; a no-op
    /// before any sink exists.
    pub fn lower_volume_for_alarm(&mut self, alarm_volume: u32) -> (cmd: Option<AudioCommand>)
        requires
            old(self).wf(),
        ensures
            final(self).wf(),
            *final(self) == *old(self),
            cmd == (if old(self).has_sink {
                Some(AudioCommand::SetVolume { percent: alarm_volume })
            } else {
                None::<AudioCommand>
            }),
    {
        if self.has_sink {
            Some(AudioCommand::SetVolume { percent: alarm_volume })
        } else {
            None
        }
    }

    /// Hand the host the normal-gain command once the alarm ends; a no-op
    /// before any sink exists.
    pub fn restore_volume(&mut self, normal_volume: u32) -> (cmd: Option<AudioCommand>)
        requires
            old(self).wf(),
        ensures
            final(self).wf(),
            *final(self) == *old(self),
            cmd == (if old(self).has_sink {
                Some(AudioCommand::SetVolume { percent: normal_volume })
            } else {
                None::<AudioCommand>
            }),
    {
        if self.has_sink {
            Some(AudioCommand::SetVolume { percent: normal_volume })
        } else {
            None
        }
    }

    /// Kept for callers of older revisions: the library now comes from the
    /// filesystem scan, so this changes nothing.
    pub fn add_track(&mut self, track: String)
        requires
            old(self).wf(),
        ensures
            final(self).wf(),
            *final(self) == *old(self),
    {
        let _ = track;
    }
}

/// ASCII lower-casing of one character.
pub open spec fn lower_char(c: char) -> char {
    if 65 <= c as int <= 90 {
        (((c as int) + 32) as u8) as char
    } else {
        c
    }
}

/// Index of the last `'.'` in `s`, or -1 if there is none.
pub open spec fn last_dot(s: Seq<char>) -> int
    decreases s.len(),
{
    if s.len() == 0 {
        -1
    } else if s.last() == '.' {
        s.len() - 1
    } else {
        last_dot(s.drop_last())
    }
}

/// The file name's extension, lower-cased; empty without a dot.
pub open spec fn ext_lower(s: Seq<char>) -> Seq<char> {
    if last_dot(s) >= 0 {
        s.skip(last_dot(s) + 1).map_values(|c: char| lower_char(c))
    } else {
        Seq::empty()
    }
}

/// Whether a file name carries one of the supported audio extensions,
/// compared case-insensitively.
pub open spec fn spec_is_audio_file_name(s: Seq<char>) -> bool {
    last_dot(s) >= 0 && (ext_lower(s) == "mp3"@ || ext_lower(s) == "wav"@ || ext_lower(s)
        == "flac"@ || ext_lower(s) == "m4a"@ || ext_lower(s) == "aac"@ || ext_lower(s) == "ogg"@)
}

fn lower_char_exec(c: char) -> (r: char)
    ensures
        r == lower_char(c),
{
    let u = c as u32;
    if 65 <= u && u <= 90 {
        ((u + 32) as u8) as char
    } else {
        c
    }
}

proof fn lemma_last_dot_char(s: Seq<char>)
    ensures
        -1 <= last_dot(s) < s.len(),
        last_dot(s) >= 0 ==> s[last_dot(s)] == '.',
        forall|k: int| last_dot(s) < k < s.len() ==> s[k] != '.',
    decreases s.len(),
{
    if s.len() > 0 && s.last() != '.' {
        lemma_last_dot_char(s.drop_last());
        assert forall|k: int| last_dot(s) < k < s.len() implies s[k] != '.' by {
            if k < s.len() - 1 {
                assert(s.drop_last()[k] == s[k]);
            }
        }
        if last_dot(s) >= 0 {
            assert(s.drop_last()[last_dot(s.drop_last())] == s[last_dot(s)]);
        }
    }
}

/// Whether the extension of `name` (after its last dot) is one of the
/// supported audio formats, whatever its case.
pub fn is_audio_file_name(name: &str) -> (r: bool)
    ensures
        r == spec_is_audio_file_name(name@),
{
    proof {
        lemma_last_dot_char(name@);
    }
    let n = name.unicode_len();
    let mut j: usize = n;
    while j > 0
        invariant
            n == name@.len(),
            j <= n,
            forall|k: int| j <= k < n ==> name@[k] != '.',
            -1 <= last_dot(name@) < n,
            last_dot(name@) >= 0 ==> name@[last_dot(name@)] == '.',
            forall|k: int| last_dot(name@) < k < n ==> name@[k] != '.',
        decreases j,
    {
        if name.get_char(j - 1) == '.' {
            assert(last_dot(name@) == j - 1);
            return ext_matches(name, j) ;
        }
        assert(name@[j - 1] != '.');
        j = j - 1;
    }
    assert(last_dot(name@) == -1);
    false
}

/// Whether the lower-cased tail of `name` from `from` on equals one of the
/// supported extensions.
fn ext_matches(name: &str, from: usize) -> (r: bool)
    requires
        from <= name@.len(),
    ensures
        r == (name@.skip(from as int).map_values(|c: char| lower_char(c)) == "mp3"@ || name@.skip(
            from as int,
        ).map_values(|c: char| lower_char(c)) == "wav"@ || name@.skip(from as int).map_values(
            |c: char| lower_char(c),
        ) == "flac"@ || name@.skip(from as int).map_values(|c: char| lower_char(c)) == "m4a"@
            || name@.skip(from as int).map_values(|c: char| lower_char(c)) == "aac"@ || name@.skip(
            from as int,
        ).map_values(|c: char| lower_char(c)) == "ogg"@),
{
    tail_eq_lower(name, from, "mp3") || tail_eq_lower(name, from, "wav") || tail_eq_lower(
        name,
        from,
        "flac",
    ) || tail_eq_lower(name, from, "m4a") || tail_eq_lower(name, from, "aac") || tail_eq_lower(
        name,
        from,
        "ogg",
    )
}

/// Whether the lower-cased tail of `s` from `from` on equals `lit`.
fn tail_eq_lower(s: &str, from: usize, lit: &str) -> (r: bool)
    requires
        from <= s@.len(),
    ensures
        r == (s@.skip(from as int).map_values(|c: char| lower_char(c)) == lit@),
{
    let n = s.unicode_len();
    let m = lit.unicode_len();
    if n - from != m {
        proof {
            assert(s@.skip(from as int).map_values(|c: char| lower_char(c)).len() == n - from);
        }
        return false;
    }
    let mut j: usize = 0;
    while j < m
        invariant
            n == s@.len(),
            m == lit@.len(),
            from + m == n,
            j <= m,
            forall|k: int| 0 <= k < j ==> lower_char(s@[from + k]) == lit@[k],
        decreases m - j,
    {
        let c = lower_char_exec(s.get_char(from + j));
        if c != lit.get_char(j) {
            proof {
                let t = s@.skip(from as int).map_values(|c: char| lower_char(c));
                assert(t[j as int] == lower_char(s@[from + j]));
            }
            return false;
        }
        j = j + 1;
    }
    proof {
        assert(s@.skip(from as int).map_values(|c: char| lower_char(c)) =~= lit@);
    }
    true
}

/// The display name of the sentinel entry for an empty scan.
fn sentinel_name() -> (r: String)
    ensures
        r@ == "No music files found"@,
{
    let s = "No music files found";
    s.to_owned()
}

} // verus!
