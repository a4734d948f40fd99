use audio_player::binary64::Binary64;
use audio_player::load::audio_load_file;
use audio_player::media::{
    audio_set_media_position, audio_set_metadata, audio_set_playback_state, control_emission,
    media_action, start_media_controls, ControlEvent, MediaAction, MediaCmd, MediaEvent,
    MediaStep, MediaThread, Payload, PlayerReading, Progress, SeekDirection,
};
use audio_player::state::{
    audio_get_position, audio_is_playing, audio_pause, audio_play, audio_seek, audio_set_volume,
    audio_stop, init, install, tick, tick_event, volume_to_rodio, AudioState, PlayerCommand,
    PlayerStatus, Tick, TICK_INTERVAL_MS,
};
use std::time::Duration;

type State = AudioState<&'static str, u8, char>;

fn double(x: f64) -> Binary64 {
    Binary64::from_bits(x.to_bits())
}

#[test]
fn the_player_starts_empty_at_a_quarter() {
    let state: State = init(7);
    assert_eq!(state.player, None);
    assert_eq!(state.mixer, 7);
    assert_eq!(state.volume, double(0.25));
    assert!(!state.has_track);
    assert!(!state.ended_notified);
    assert_eq!(state.load_gen, 0);
    assert_eq!(state.media_tx, None);
    assert_eq!(TICK_INTERVAL_MS, 100);
}

#[test]
fn orders_need_a_player() {
    let mut state: State = init(0);
    assert_eq!(audio_play(&state), None);
    assert_eq!(audio_pause(&state), None);
    assert_eq!(audio_seek(&state, double(-1.0)), None);
    assert_eq!(audio_set_volume(&mut state, double(1.5)), None);
    assert_eq!(state.volume, double(1.5));
    assert_eq!(install(&mut state, "first"), None);
    assert_eq!(audio_play(&state), Some(PlayerCommand::Play));
    assert_eq!(audio_pause(&state), Some(PlayerCommand::Pause));
    assert_eq!(audio_seek(&state, double(30.0)), Some(PlayerCommand::Seek(double(30.0))));
    assert_eq!(
        audio_set_volume(&mut state, double(3.0)),
        Some(PlayerCommand::SetVolume(double(2.0)))
    );
    assert_eq!(state.volume, double(2.0));
}

#[test]
fn volumes_are_limited() {
    for v in [-100.0, -0.5, 0.0, 1.0, 50.0, 100.0, 199.9, 200.0, 250.0, 1e300, f64::INFINITY, f64::NAN] {
        let expected: f64 = (v / 100.0f64).min(2.0).max(0.0);
        let kept = volume_to_rodio(double(v / 100.0));
        assert_eq!(f64::from_bits(kept.bits), expected, "{}", v);
        assert_eq!(volume_to_rodio(kept), kept);
    }
}

#[test]
fn the_end_of_a_track_is_told_once() {
    let mut state: State = init(0);
    assert_eq!(tick(&mut state, true), Tick::Nothing);
    install(&mut state, "first");
    assert_eq!(tick(&mut state, false), Tick::Position);
    assert_eq!(tick(&mut state, true), Tick::Ended);
    assert_eq!(tick(&mut state, true), Tick::Nothing);
    assert_eq!(tick(&mut state, false), Tick::Position);
    assert_eq!(install(&mut state, "second"), Some("first"));
    assert_eq!(tick(&mut state, true), Tick::Ended);
    assert_eq!(audio_stop(&mut state), Some("second"));
    assert_eq!(tick(&mut state, false), Tick::Nothing);
}

#[test]
fn the_end_is_told_at_the_first_look_that_finds_it() {
    let mut state: State = init(0);
    install(&mut state, "first");
    assert_eq!(tick(&mut state, true), Tick::Ended);
    install(&mut state, "second");
    assert_eq!(tick(&mut state, false), Tick::Position);
    audio_set_volume(&mut state, double(1.5));
    start_media_controls(&mut state, 't');
    assert_eq!(tick(&mut state, false), Tick::Position);
    assert_eq!(tick(&mut state, true), Tick::Ended);
    assert_eq!(tick(&mut state, true), Tick::Nothing);
    assert_eq!(tick(&mut state, false), Tick::Position);
    assert_eq!(tick(&mut state, true), Tick::Nothing);
}

#[test]
fn a_volume_lasts_until_it_is_set_again() {
    let mut state: State = init(0);
    audio_set_volume(&mut state, double(1.5));
    install(&mut state, "track");
    tick(&mut state, true);
    audio_stop(&mut state);
    start_media_controls(&mut state, 't');
    assert_eq!(state.volume, double(1.5));
    assert_eq!(audio_load_file(&state, "/track".to_string()).volume, double(1.5));
}

#[test]
fn ticks_have_event_names() {
    assert_eq!(tick_event(Tick::Nothing), None);
    assert_eq!(tick_event(Tick::Ended), Some("audio:ended"));
    assert_eq!(tick_event(Tick::Position), Some("audio:tick"));
}

#[test]
fn stopping_counts_round() {
    let mut state: State = init(0);
    install(&mut state, "first");
    state.load_gen = u64::MAX;
    assert_eq!(audio_stop(&mut state), Some("first"));
    assert_eq!(state.load_gen, 0);
    assert!(!state.has_track);
    assert_eq!(audio_stop(&mut state), None);
    assert_eq!(state.load_gen, 1);
}

#[test]
fn position_and_playing_are_read_off_the_player() {
    assert_eq!(audio_get_position(None), double(0.0));
    assert_eq!(audio_get_position(Some(double(12.5))), double(12.5));
    assert!(!audio_is_playing(None));
    for (paused, empty, playing) in
        [(false, false, true), (true, false, false), (false, true, false), (true, true, false)]
    {
        assert_eq!(audio_is_playing(Some(PlayerStatus { paused, empty })), playing);
    }
}

#[test]
fn media_controls_are_told_once_connected() {
    let mut state: State = init(0);
    assert!(audio_set_playback_state(&state, true).is_none());
    assert!(audio_set_media_position(&state, double(1.0)).is_none());
    assert!(audio_set_metadata(&state, "t".to_string(), "a".to_string(), None, double(1.0)).is_none());
    start_media_controls(&mut state, 'x');
    assert_eq!(state.media_tx, Some('x'));
    assert!(matches!(audio_set_playback_state(&state, true), Some(MediaCmd::SetPlaying(true))));
    match audio_set_media_position(&state, double(4.0)) {
        Some(MediaCmd::SetPosition(secs)) => assert_eq!(secs, double(4.0)),
        other => panic!("{:?}", other),
    }
    let cover = Some("file:///c.png".to_string());
    match audio_set_metadata(&state, "t".to_string(), "a".to_string(), cover, double(200.5)) {
        Some(MediaCmd::SetMetadata { title, artist, cover_url, duration_secs }) => {
            assert_eq!(title, "t");
            assert_eq!(artist, "a");
            assert_eq!(cover_url, Some("file:///c.png".to_string()));
            assert_eq!(duration_secs, double(200.5));
        }
        other => panic!("{:?}", other),
    }
}

#[test]
fn control_events_are_passed_on() {
    let bare = [
        (ControlEvent::Play, "media:play"),
        (ControlEvent::Pause, "media:pause"),
        (ControlEvent::Toggle, "media:toggle"),
        (ControlEvent::Next, "media:next"),
        (ControlEvent::Previous, "media:prev"),
    ];
    for (asked, name) in bare {
        let emission = control_emission(asked).unwrap();
        assert_eq!(emission.event, name);
        assert!(matches!(emission.payload, Payload::Nothing));
    }
    let seek = control_emission(ControlEvent::SetPosition(Duration::from_millis(1500))).unwrap();
    assert_eq!(seek.event, "media:seek");
    match seek.payload {
        Payload::Position(position) => assert_eq!(position.as_secs_f64(), 1.5),
        other => panic!("{:?}", other),
    }
    for (direction, offset) in [(SeekDirection::Forward, 10), (SeekDirection::Backward, -10)] {
        let emission = control_emission(ControlEvent::Seek(direction)).unwrap();
        assert_eq!(emission.event, "media:seek-relative");
        match emission.payload {
            Payload::Offset(seconds) => assert_eq!(seconds, offset),
            other => panic!("{:?}", other),
        }
    }
    assert!(control_emission(ControlEvent::Other).is_none());
}

fn reading(paused: bool, empty: bool) -> Option<PlayerReading> {
    Some(PlayerReading {
        position: Duration::from_secs(9),
        status: PlayerStatus { paused, empty },
    })
}

#[test]
fn playing_state_is_shown_at_the_position_of_the_player() {
    match media_action(MediaCmd::SetPlaying(true), reading(true, false)) {
        MediaAction::Playback { playing, progress: Progress::Position(position) } => {
            assert!(playing);
            assert_eq!(position, Duration::from_secs(9));
        }
        other => panic!("{:?}", other),
    }
    match media_action(MediaCmd::SetPlaying(false), None) {
        MediaAction::Playback { playing, progress: Progress::Start } => assert!(!playing),
        other => panic!("{:?}", other),
    }
}

#[test]
fn a_new_position_keeps_the_playing_state() {
    for (found, expected) in [
        (reading(false, false), true),
        (reading(true, false), false),
        (reading(false, true), false),
        (None, false),
    ] {
        match media_action(MediaCmd::SetPosition(double(3.0)), found) {
            MediaAction::Playback { playing, progress: Progress::Seconds(secs) } => {
                assert_eq!(playing, expected);
                assert_eq!(secs, double(3.0));
            }
            other => panic!("{:?}", other),
        }
    }
}

fn metadata(duration: f64) -> MediaCmd {
    MediaCmd::SetMetadata {
        title: "t".to_string(),
        artist: "a".to_string(),
        cover_url: None,
        duration_secs: double(duration),
    }
}

#[test]
fn only_positive_lengths_are_shown() {
    for (duration, shown) in [(0.0, false), (-3.0, false), (f64::NAN, false), (0.5, true)] {
        match media_action(metadata(duration), None) {
            MediaAction::Metadata { title, artist, cover_url, duration_secs } => {
                assert_eq!((title.as_str(), artist.as_str(), cover_url), ("t", "a", None));
                assert_eq!(duration_secs, if shown { Some(double(duration)) } else { None });
            }
            other => panic!("{:?}", other),
        }
    }
}

#[test]
fn messages_are_shown_in_the_order_they_came() {
    let mut thread = MediaThread::Starting;
    let mut shown = Vec::new();
    let mut waits = 0;
    let mut exits = 0;
    for event in [
        MediaEvent::Attached,
        MediaEvent::Message(MediaCmd::SetPlaying(true), None),
        MediaEvent::Message(MediaCmd::SetPlaying(false), None),
        MediaEvent::Message(MediaCmd::SetPosition(double(4.0)), reading(false, false)),
        MediaEvent::Disconnected,
    ] {
        let (next, step) = thread.step(event);
        thread = next;
        match step {
            MediaStep::Show(MediaAction::Playback { playing, .. }) => shown.push(playing),
            MediaStep::Wait => waits += 1,
            MediaStep::Exit => exits += 1,
            other => panic!("{:?}", other),
        }
    }
    assert_eq!(shown, vec![true, false, true]);
    assert_eq!((waits, exits), (1, 1));
    assert_eq!(thread, MediaThread::Stopped);
}

#[test]
fn without_controls_the_thread_gives_up() {
    let (thread, step) = MediaThread::Starting.step(MediaEvent::Unavailable);
    assert_eq!(thread, MediaThread::Stopped);
    assert!(matches!(step, MediaStep::GiveUp));
}

#[test]
fn messages_must_fit_durations() {
    assert!(metadata(-3.0).fits_durations());
    assert!(metadata(f64::NAN).fits_durations());
    assert!(metadata(180.0).fits_durations());
    assert!(!metadata(f64::INFINITY).fits_durations());
    assert!(MediaCmd::SetPlaying(true).fits_durations());
    assert!(MediaCmd::SetPosition(double(0.0)).fits_durations());
    assert!(!MediaCmd::SetPosition(double(-0.5)).fits_durations());
}
