use audio_player::devices::{
    audio_list_devices, audio_switch_device, choose_device, default_sink, finish_switch,
    open_error, select_sinks, sink_entries, switch_command, AudioSink, CommandOutput,
    DeviceChoice, SinkEntry, SwitchReply,
};
use audio_player::output::{OutputAction, OutputEvent, OutputThread};
use audio_player::state::{init, install, AudioState};
use audio_player::text::append_decimal;

type State = AudioState<&'static str, u8, char>;

fn output(success: bool, stdout: &[u8]) -> Option<CommandOutput> {
    Some(CommandOutput { success, stdout: stdout.to_vec() })
}

fn sink(name: &str, description: &str, is_default: bool) -> AudioSink {
    AudioSink { name: name.to_string(), description: description.to_string(), is_default }
}

const LISTING: &[u8] = br#"[
    {"index": 1, "name": "alsa_output.pci", "description": "Built-in \u00e9"},
    {"index": 2, "name": "bluez.headset", "description": "Headset"},
    {"index": 3, "name": "nameless"},
    {"index": 4, "description": "no name"},
    {"index": 5, "name": 7, "description": "number"},
    "no object", 12, null,
    {"name": "last", "description": ""}
]"#;

#[test]
fn sinks_are_listed_in_order() {
    let sinks = audio_list_devices(&output(true, LISTING), &output(true, b"bluez.headset\n"));
    assert_eq!(
        sinks,
        vec![
            sink("alsa_output.pci", "Built-in \u{e9}", false),
            sink("bluez.headset", "Headset", true),
            sink("last", "", false),
        ]
    );
}

#[test]
fn no_listing_no_sinks() {
    let default = output(true, b"x");
    assert!(audio_list_devices(&None, &default).is_empty());
    assert!(audio_list_devices(&output(false, LISTING), &default).is_empty());
    assert!(audio_list_devices(&output(true, b"{\"name\": \"x\"}"), &default).is_empty());
    assert!(audio_list_devices(&output(true, b"[1, 2"), &default).is_empty());
    assert!(audio_list_devices(&output(true, b"[]"), &default).is_empty());
}

#[test]
fn without_a_default_none_is_marked() {
    let sinks = audio_list_devices(&output(true, LISTING), &None);
    assert_eq!(sinks.len(), 3);
    assert!(sinks.iter().all(|s| !s.is_default));
}

#[test]
fn the_default_sink_is_trimmed_text() {
    assert_eq!(default_sink(&None), "");
    assert_eq!(default_sink(&output(false, b" \t a b \r\n")), "a b");
    assert_eq!(default_sink(&output(true, "\u{2003}\u{e9}\u{3000}".as_bytes())), "\u{e9}");
    assert_eq!(default_sink(&output(true, b"al\xffsa\n")), "al\u{fffd}sa");
    assert_eq!(default_sink(&output(true, b" \n")), "");
}

#[test]
fn entries_keep_only_texts() {
    let entries = sink_entries(LISTING).unwrap();
    assert_eq!(entries.len(), 9);
    assert_eq!(entries[2].name, Some("nameless".to_string()));
    assert_eq!(entries[2].description, None);
    assert_eq!(entries[3].name, None);
    assert_eq!(entries[4].name, None);
    assert_eq!(entries[5].name, None);
    assert!(sink_entries(b"no json").is_none());
}

#[test]
fn complete_entries_become_sinks() {
    let entry = |name: Option<&str>, description: Option<&str>| SinkEntry {
        name: name.map(|s| s.to_string()),
        description: description.map(|s| s.to_string()),
    };
    let entries = vec![
        entry(Some("a"), Some("A")),
        entry(None, Some("B")),
        entry(Some("c"), None),
        entry(Some("a"), Some("D")),
    ];
    assert_eq!(
        select_sinks(&entries, &"a".to_string()),
        vec![sink("a", "A", true), sink("a", "D", true)]
    );
}

#[test]
fn devices_are_chosen_by_name() {
    let names = Some(vec![None, Some("a".to_string()), Some("b".to_string()), Some("b".to_string())]);
    let b = Some("b".to_string());
    assert_eq!(choose_device(&None, &names), Ok(DeviceChoice::Default));
    assert_eq!(choose_device(&b, &names), Ok(DeviceChoice::Listed(2)));
    let missing = Err("Device 'b' not found".to_string());
    assert_eq!(choose_device(&b, &Some(vec![Some("c".to_string())])), missing);
    assert_eq!(choose_device(&b, &None), missing);
    assert_eq!(open_error(&b, "busy"), "Failed to open device 'b': busy");
    assert_eq!(open_error(&None, "busy"), "No audio output: busy");
}

#[test]
fn switching_sets_the_default_sink() {
    assert_eq!(switch_command(&None), None);
    assert_eq!(
        switch_command(&Some("s".to_string())),
        Some(vec!["set-default-sink".to_string(), "s".to_string()])
    );
}

#[test]
fn a_switch_stops_playback_and_takes_the_new_mixer() {
    let mut state: State = init(1);
    install(&mut state, "p");
    let switch = audio_switch_device(&mut state, Ok(())).unwrap();
    assert_eq!(switch.stopped, Some("p"));
    assert_eq!(switch.open, None);
    assert_eq!((state.player, state.has_track, state.load_gen, state.mixer), (None, false, 1, 1));
    assert_eq!(finish_switch(&mut state, SwitchReply::Opened(2)), Ok(()));
    assert_eq!((state.mixer, state.load_gen), (2, 1));
}

#[test]
fn a_failed_command_leaves_playback_alone() {
    let mut state: State = init(1);
    install(&mut state, "p");
    let message = audio_switch_device(&mut state, Err("not found".to_string())).unwrap_err();
    assert_eq!(message, "pactl failed: not found");
    assert_eq!((state.player, state.has_track, state.load_gen), (Some("p"), true, 0));
}

#[test]
fn a_switch_without_an_answer_keeps_the_mixer() {
    let mut state: State = init(1);
    let text = |s: &str| s.to_string();
    assert_eq!(finish_switch(&mut state, SwitchReply::NotSent(text("closed"))), Err(text("closed")));
    assert_eq!(
        finish_switch(&mut state, SwitchReply::NotAnswered(text("gone"))),
        Err(text("Device switch failed: gone"))
    );
    assert_eq!(finish_switch(&mut state, SwitchReply::Refused(text("busy"))), Err(text("busy")));
    assert_eq!(state.mixer, 1);
}

#[test]
fn the_output_thread_answers_commands() {
    let (thread, action) = OutputThread::start();
    assert!(matches!(action, OutputAction::Open(None)));
    let (thread, action) = thread.step(OutputEvent::Opened);
    assert!(matches!(action, OutputAction::PublishMixer));

    let (thread, action) = thread.step(OutputEvent::Command(Some("usb".to_string())));
    match action {
        OutputAction::Open(Some(name)) => assert_eq!(name, "usb"),
        other => panic!("{:?}", other),
    }
    let (thread, action) = thread.step(OutputEvent::Opened);
    assert!(matches!(action, OutputAction::ReplyMixer));

    let (thread, _) = thread.step(OutputEvent::Command(Some("hdmi".to_string())));
    let (thread, action) = thread.step(OutputEvent::OpenFailed("busy".to_string()));
    assert!(matches!(action, OutputAction::Open(None)));
    let (thread, action) = thread.step(OutputEvent::Opened);
    match action {
        OutputAction::ReplyError(cause) => assert_eq!(cause, "busy"),
        other => panic!("{:?}", other),
    }

    let (thread, action) = thread.step(OutputEvent::Disconnected);
    assert!(matches!(action, OutputAction::Exit));
    assert!(matches!(thread, OutputThread::Stopped));
}

#[test]
fn the_output_thread_gives_up_without_a_device() {
    let (thread, _) = OutputThread::start();
    let (_, action) = thread.step(OutputEvent::OpenFailed("none".to_string()));
    assert!(matches!(action, OutputAction::Abort));

    let (thread, action) =
        OutputThread::FallingBack("first".to_string()).step(OutputEvent::OpenFailed("second".to_string()));
    assert!(matches!(action, OutputAction::Abort));
    assert!(matches!(thread, OutputThread::Stopped));
}

#[test]
fn numbers_are_written_in_decimal() {
    for n in [0u32, 7, 10, 99, 100, 4294967295] {
        let mut text = String::from("n=");
        append_decimal(&mut text, n);
        assert_eq!(text, format!("n={}", n));
    }
}
