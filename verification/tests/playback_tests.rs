use sessio::track_list::{is_audio_file_name, AudioCommand, PlaybackMode, Track, TrackList};

fn track(name: &str) -> Track {
    Track { name: name.to_string(), path: format!("/music/{}.mp3", name), duration: None }
}

fn three_track_list() -> TrackList {
    TrackList::new(
        "/music".to_string(),
        vec![track("alpha"), track("beta"), track("gamma")],
    )
}

#[test]
fn test_mode_cycle_is_closed_four_cycle() {
    for start in [
        PlaybackMode::TrackList,
        PlaybackMode::Random,
        PlaybackMode::Repeat,
        PlaybackMode::CurrentOnly,
    ] {
        let once = start.next();
        let twice = once.next();
        let thrice = twice.next();
        let full = thrice.next();
        assert_ne!(once, start);
        assert_ne!(twice, start);
        assert_ne!(thrice, start);
        assert_eq!(full, start);
    }
}

#[test]
fn test_mode_order() {
    assert_eq!(PlaybackMode::TrackList.next(), PlaybackMode::Random);
    assert_eq!(PlaybackMode::Random.next(), PlaybackMode::Repeat);
    assert_eq!(PlaybackMode::Repeat.next(), PlaybackMode::CurrentOnly);
    assert_eq!(PlaybackMode::CurrentOnly.next(), PlaybackMode::TrackList);
}

#[test]
fn test_mode_names() {
    assert_eq!(PlaybackMode::TrackList.to_string(), "Track List");
    assert_eq!(PlaybackMode::Random.to_string(), "Random");
    assert_eq!(PlaybackMode::Repeat.to_string(), "Repeat");
    assert_eq!(PlaybackMode::CurrentOnly.to_string(), "Current Only");
}

#[test]
fn test_empty_scan_yields_sentinel() {
    let t = TrackList::new("/none".to_string(), Vec::new());
    assert_eq!(t.tracks.len(), 1);
    assert_eq!(t.tracks[0].name, "No music files found");
    assert_eq!(t.tracks[0].path, "");
    assert_eq!(t.selected_index, 0);
    assert_eq!(t.current_track, None);
    assert_eq!(t.playback_mode, PlaybackMode::TrackList);
}

#[test]
fn test_play_track_starts() {
    let mut t = three_track_list();
    let cmd = t.play_track(1, true);
    assert_eq!(cmd, Some(AudioCommand::Start { index: 1 }));
    assert_eq!(t.current_track, Some(1));
    assert!(t.is_playing);
    assert!(!t.is_paused);
    assert!(t.has_sink);
}

#[test]
fn test_play_track_out_of_range_is_noop() {
    let mut t = three_track_list();
    let cmd = t.play_track(7, true);
    assert_eq!(cmd, None);
    assert_eq!(t.current_track, None);
    assert!(!t.is_playing);
}

#[test]
fn test_play_track_missing_file_is_noop() {
    let mut t = three_track_list();
    let cmd = t.play_track(1, false);
    assert_eq!(cmd, None);
    assert!(!t.is_playing);
}

#[test]
fn test_toggle_play_pause_cycle() {
    let mut t = three_track_list();
    assert_eq!(t.toggle_target(), Some(0));
    let cmd = t.toggle_play_pause(true);
    assert_eq!(cmd, Some(AudioCommand::Start { index: 0 }));
    assert!(t.is_playing && !t.is_paused);

    assert_eq!(t.toggle_target(), None);
    let cmd = t.toggle_play_pause(true);
    assert_eq!(cmd, Some(AudioCommand::Pause));
    assert!(t.is_paused);

    let cmd = t.toggle_play_pause(true);
    assert_eq!(cmd, Some(AudioCommand::Resume));
    assert!(t.is_playing && !t.is_paused);
}

#[test]
fn test_stop_unsets_playing_index() {
    let mut t = three_track_list();
    t.play_track(2, true);
    let cmd = t.stop();
    assert_eq!(cmd, Some(AudioCommand::Stop));
    assert_eq!(t.current_track, None);
    assert!(!t.is_playing);
    assert!(!t.is_paused);
}

#[test]
fn test_stop_without_sink_sends_nothing() {
    let mut t = three_track_list();
    let cmd = t.stop();
    assert_eq!(cmd, None);
}

#[test]
fn test_next_and_previous_wrap() {
    let mut t = three_track_list();
    t.play_track(2, true);
    let cmd = t.next_track(true);
    assert_eq!(cmd, Some(AudioCommand::Start { index: 0 }));
    let cmd = t.previous_track(true);
    assert_eq!(cmd, Some(AudioCommand::Start { index: 2 }));
    let cmd = t.previous_track(true);
    assert_eq!(cmd, Some(AudioCommand::Start { index: 1 }));
}

#[test]
fn test_sequential_advances_then_stops_at_end() {
    // Library of three tracks in in-order mode: when track 0 finishes the
    // engine starts track 1; when the last finishes it stops and the
    // playing index becomes unset.
    let mut t = three_track_list();
    t.play_track(0, true);
    let cmd = t.update_playback_state(true);
    assert_eq!(cmd, Some(AudioCommand::Start { index: 1 }));
    assert_eq!(t.current_track, Some(1));

    t.play_track(2, true);
    let cmd = t.update_playback_state(true);
    assert_eq!(cmd, Some(AudioCommand::Stop));
    assert_eq!(t.current_track, None);
    assert!(!t.is_playing);
}

#[test]
fn test_repeat_wraps_to_first() {
    let mut t = three_track_list();
    t.cycle_playback_mode();
    t.cycle_playback_mode();
    assert_eq!(t.playback_mode, PlaybackMode::Repeat);
    t.play_track(2, true);
    let cmd = t.update_playback_state(true);
    assert_eq!(cmd, Some(AudioCommand::Start { index: 0 }));
    assert_eq!(t.current_track, Some(0));
}

#[test]
fn test_current_only_replays() {
    let mut t = three_track_list();
    t.cycle_playback_mode();
    t.cycle_playback_mode();
    t.cycle_playback_mode();
    assert_eq!(t.playback_mode, PlaybackMode::CurrentOnly);
    t.play_track(1, true);
    let cmd = t.update_playback_state(true);
    assert_eq!(cmd, Some(AudioCommand::Start { index: 1 }));
}

#[test]
fn test_random_advance_stays_in_range() {
    let mut t = three_track_list();
    t.cycle_playback_mode();
    assert_eq!(t.playback_mode, PlaybackMode::Random);
    t.play_track(0, true);
    for _ in 0..32 {
        match t.update_playback_state(true) {
            Some(AudioCommand::Start { index }) => {
                assert!(index < 3);
                assert_eq!(t.current_track, Some(index));
            }
            other => panic!("random auto-advance sent {:?}", other),
        }
    }
}

#[test]
fn test_no_advance_while_sink_full_or_paused() {
    let mut t = three_track_list();
    t.play_track(0, true);
    assert_eq!(t.update_playback_state(false), None);
    t.toggle_play_pause(true); // pause
    assert_eq!(t.update_playback_state(true), None);
}

#[test]
fn test_move_selection_wraps() {
    let mut t = three_track_list();
    t.move_selection_up();
    assert_eq!(t.selected_index, 2);
    t.move_selection_down();
    assert_eq!(t.selected_index, 0);
    t.move_selection_down();
    assert_eq!(t.selected_index, 1);
}

#[test]
fn test_refresh_library_resets() {
    let mut t = three_track_list();
    t.play_track(2, true);
    t.move_selection_down();
    let cmd = t.refresh_library(vec![track("delta")]);
    assert_eq!(cmd, Some(AudioCommand::Stop));
    assert_eq!(t.tracks.len(), 1);
    assert_eq!(t.tracks[0].name, "delta");
    assert_eq!(t.selected_index, 0);
    assert_eq!(t.current_track, None);
    assert!(!t.is_playing);
}

#[test]
fn test_update_music_directory() {
    let mut t = three_track_list();
    let cmd = t.update_music_directory("/other".to_string(), Vec::new());
    assert_eq!(cmd, None);
    assert_eq!(t.music_folder, "/other");
    assert_eq!(t.tracks[0].name, "No music files found");
}

#[test]
fn test_volume_commands_require_sink() {
    let mut t = three_track_list();
    assert_eq!(t.lower_volume_for_alarm(30), None);
    t.play_track(0, true);
    assert_eq!(
        t.lower_volume_for_alarm(30),
        Some(AudioCommand::SetVolume { percent: 30 })
    );
    assert_eq!(
        t.restore_volume(70),
        Some(AudioCommand::SetVolume { percent: 70 })
    );
}

#[test]
fn test_audio_extension_filter_is_case_insensitive() {
    assert!(is_audio_file_name("song.mp3"));
    assert!(is_audio_file_name("SONG.MP3"));
    assert!(is_audio_file_name("mixed.FlAc"));
    assert!(is_audio_file_name("a.b.OGG"));
    assert!(is_audio_file_name("take.m4a"));
    assert!(is_audio_file_name("loud.AAC"));
    assert!(is_audio_file_name("quiet.wav"));
    assert!(!is_audio_file_name("readme.txt"));
    assert!(!is_audio_file_name("noextension"));
    assert!(!is_audio_file_name("mp3"));
    assert!(!is_audio_file_name("song.mp3.bak"));
}

#[test]
fn test_add_track_is_inert() {
    let mut t = three_track_list();
    t.add_track("ignored".to_string());
    assert_eq!(t.tracks.len(), 3);
}
