use sessio::coordinator::Coordinator;
use sessio::timer::{Date, Timer};
use sessio::track_list::{AudioCommand, Track, TrackList};

fn day() -> Date {
    Date { year: 2024, month: 5, day: 6 }
}

fn timer() -> Timer {
    Timer::new(25, 5, 15, 4, 30, 15)
}

fn playing_tracks() -> TrackList {
    let mut t = TrackList::new(
        "/music".to_string(),
        vec![Track {
            name: "alpha".to_string(),
            path: "/music/alpha.mp3".to_string(),
            duration: None,
        }],
    );
    t.play_track(0, true);
    t
}

#[test]
fn test_ducking_fires_once_per_edge() {
    // One rising edge ducks exactly once; ticks with the alarm unchanged do
    // nothing; the falling edge restores exactly once.
    let mut c = Coordinator::new(70);
    let mut t = timer();
    let mut tr = playing_tracks();
    t.skip_phase(0, day()); // alarm until t=15, duck volume 30

    let cmd = c.reconcile_alarm(&mut t, &mut tr, 1);
    assert_eq!(cmd, Some(AudioCommand::SetVolume { percent: 30 }));
    assert_eq!(c.reconcile_alarm(&mut t, &mut tr, 5), None);
    assert_eq!(c.reconcile_alarm(&mut t, &mut tr, 10), None);

    let cmd = c.reconcile_alarm(&mut t, &mut tr, 16);
    assert_eq!(cmd, Some(AudioCommand::SetVolume { percent: 70 }));
    assert_eq!(c.reconcile_alarm(&mut t, &mut tr, 17), None);
    assert_eq!(c.reconcile_alarm(&mut t, &mut tr, 18), None);
}

#[test]
fn test_no_volume_commands_without_sink() {
    let mut c = Coordinator::new(70);
    let mut t = timer();
    let mut tr = TrackList::new("/music".to_string(), Vec::new());
    t.skip_phase(0, day());
    assert_eq!(c.reconcile_alarm(&mut t, &mut tr, 1), None);
    assert_eq!(c.reconcile_alarm(&mut t, &mut tr, 16), None);
    assert!(!t.is_alarm_active());
}

#[test]
fn test_quiet_ticks_do_nothing() {
    let mut c = Coordinator::new(70);
    let mut t = timer();
    let mut tr = playing_tracks();
    assert_eq!(c.reconcile_alarm(&mut t, &mut tr, 1), None);
    assert_eq!(c.reconcile_alarm(&mut t, &mut tr, 2), None);
}

#[test]
fn test_collect_work_credit_exactly_once() {
    let c = Coordinator::new(70);
    let mut t = timer();
    t.set_selected_todo(Some(3));
    t.skip_phase(0, day());
    assert!(t.work_phase_just_completed());

    let credit = c.collect_work_credit(&mut t);
    assert_eq!(credit, Some((3, 25)));
    assert_eq!(t.get_selected_todo(), None);
    assert!(!t.work_phase_just_completed());

    assert_eq!(c.collect_work_credit(&mut t), None);
}

#[test]
fn test_no_credit_without_selection() {
    let c = Coordinator::new(70);
    let mut t = timer();
    t.skip_phase(0, day());
    assert_eq!(c.collect_work_credit(&mut t), None);
}
