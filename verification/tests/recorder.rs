use aura::recorder::{
    is_event_node, is_own_virtual_device, macro_file_name, macro_name_of_file, macro_names, play_reply,
    play_report, playback_plan, save_reply, virtual_device_keys, virtual_device_name, MacroRecorder,
    PlaybackFailure, PlaybackStep, RecorderError, SaveOutcome,
};
use aura::types::RecordedEvent;

/// Nanoseconds in a millisecond.
const MS: u64 = 1_000_000;

fn ev(delay_ms: u64, event_type: u16, code: u16, value: i32) -> RecordedEvent {
    RecordedEvent { delay_ms, event_type, code, value }
}

#[test]
fn start_capture_stop_returns_timed_events() {
    let mut r = MacroRecorder::new();
    assert!(!r.is_recording());
    assert_eq!(r.start("firefox-search", 1_000 * MS), Ok(()));
    assert!(r.is_recording());
    assert!(r.capture(1, 30, 1, 1_250 * MS));
    assert!(r.capture(1, 30, 0, 1_300 * MS));
    assert!(r.capture(2, 0, -5, 1_300 * MS));
    let (name, events) = r.stop().unwrap();
    assert_eq!(name, "firefox-search");
    assert_eq!(events, vec![ev(250, 1, 30, 1), ev(50, 1, 30, 0), ev(0, 2, 0, -5)]);
    assert!(!r.is_recording());
    assert_eq!(r.macro_name(), "firefox-search");
}

#[test]
fn start_refused_while_recording() {
    let mut r = MacroRecorder::new();
    r.start("a", 0).unwrap();
    assert!(r.capture(1, 2, 3, 10));
    assert_eq!(r.start("b", 20), Err(RecorderError::AlreadyRecording));
    assert_eq!(r.macro_name(), "a");
    assert_eq!(r.events().len(), 1);
}

#[test]
fn stop_refused_when_idle_and_capture_ignored() {
    let mut r = MacroRecorder::new();
    assert!(!r.capture(1, 2, 3, 10));
    assert_eq!(r.stop().err(), Some(RecorderError::NotRecording));
    assert!(r.events().is_empty());
}

#[test]
fn clock_going_back_counts_as_no_time() {
    let mut r = MacroRecorder::new();
    r.start("a", 500 * MS).unwrap();
    r.capture(1, 1, 1, 400 * MS);
    assert_eq!(r.events()[0].delay_ms, 0);
}

#[test]
fn restart_forgets_previous_events() {
    let mut r = MacroRecorder::new();
    r.start("a", 0).unwrap();
    r.capture(1, 1, 1, 5 * MS);
    r.stop().unwrap();
    r.start("b", 100 * MS).unwrap();
    assert!(r.events().is_empty());
    r.capture(1, 1, 1, 130 * MS);
    assert_eq!(r.events()[0].delay_ms, 30);
}

#[test]
fn start_request_replies() {
    let mut r = MacroRecorder::new();
    let ok = r.start_request("demo", 0);
    assert!(ok.success);
    assert_eq!(ok.message, "Recording macro 'demo' started");
    let again = r.start_request("other", 1);
    assert!(!again.success);
    assert_eq!(again.message, "Already recording");
}

#[test]
fn start_command_reports() {
    let mut r = MacroRecorder::new();
    assert_eq!(r.start_command("demo", 0), "Success: Recording for macro 'demo' started.");
    assert_eq!(r.start_command("demo", 0), "Error: Already recording");
}

#[test]
fn stop_request_replies() {
    let mut r = MacroRecorder::new();
    let reply = r.stop_request().err().unwrap();
    assert!(!reply.success);
    assert_eq!(reply.message, "Not recording");
    r.start("m", 0).unwrap();
    let (name, events) = r.stop_request().ok().unwrap();
    assert_eq!(name, "m");
    assert!(events.is_empty());
}

#[test]
fn save_replies() {
    let ok = save_reply("m", &SaveOutcome::Saved);
    assert!(ok.success);
    assert_eq!(ok.message, "Macro 'm' saved successfully");
    let ser = save_reply("m", &SaveOutcome::SerializationFailed);
    assert!(!ser.success);
    assert_eq!(ser.message, "Serialization failure");
    let w = save_reply("m", &SaveOutcome::WriteFailed("disk full".to_string()));
    assert!(!w.success);
    assert_eq!(w.message, "Failed to save macro: disk full");
}

#[test]
fn macro_file_names() {
    assert_eq!(macro_file_name("firefox-search"), "firefox-search.json");
    assert_eq!(macro_name_of_file("firefox-search.json"), Some("firefox-search".to_string()));
    assert_eq!(macro_name_of_file("notes.txt"), None);
    assert_eq!(macro_name_of_file("json"), None);
    assert_eq!(macro_name_of_file(".json"), None);
    assert_eq!(macro_name_of_file("a.b.json"), Some("a.b".to_string()));
    assert_eq!(macro_name_of_file("a.json.bak"), None);
    assert_eq!(macro_name_of_file(".."), None);
}

#[test]
fn macro_file_round_trip() {
    for name in ["x", "firefox-search", "a.b", "ünïcode"] {
        assert_eq!(macro_name_of_file(&macro_file_name(name)), Some(name.to_string()));
    }
}

#[test]
fn macro_list_keeps_json_stems_in_order() {
    let files = vec!["b.json".to_string(), "readme".to_string(), "a.json".to_string(), ".json".to_string()];
    assert_eq!(macro_names(&files), vec!["b".to_string(), "a".to_string()]);
}

#[test]
fn playback_plan_waits_then_emits() {
    let events = vec![ev(0, 1, 30, 1), ev(120, 1, 30, 0), ev(5, 2, 0, 3)];
    let plan = playback_plan(&events);
    assert_eq!(
        plan,
        vec![
            PlaybackStep::Emit { event_type: 1, code: 30, value: 1 },
            PlaybackStep::Wait(120),
            PlaybackStep::Emit { event_type: 1, code: 30, value: 0 },
            PlaybackStep::Wait(5),
            PlaybackStep::Emit { event_type: 2, code: 0, value: 3 },
        ]
    );
}

#[test]
fn recorded_macro_replays_with_its_timing() {
    let mut r = MacroRecorder::new();
    r.start("m", 1_000 * MS).unwrap();
    r.capture(1, 30, 1, 1_100 * MS);
    r.capture(1, 30, 0, 1_175 * MS);
    let (_, events) = r.stop().unwrap();
    let plan = playback_plan(&events);
    let waited: u64 = plan.iter().map(|s| if let PlaybackStep::Wait(ms) = s { *ms } else { 0 }).sum();
    assert_eq!(waited, 175);
    let emitted: Vec<(u16, u16, i32)> = plan
        .iter()
        .filter_map(|s| if let PlaybackStep::Emit { event_type, code, value } = s { Some((*event_type, *code, *value)) } else { None })
        .collect();
    assert_eq!(emitted, vec![(1, 30, 1), (1, 30, 0)]);
}

#[test]
fn play_replies_and_reports() {
    assert_eq!(play_reply("m", &Ok(())).message, "Macro 'm' played successfully");
    assert!(play_reply("m", &Ok(())).success);
    assert_eq!(play_reply("m", &Err(PlaybackFailure::NotFound)).message, "Macro not found");
    assert_eq!(play_reply("m", &Err(PlaybackFailure::Unreadable("io".into()))).message, "io");
    assert_eq!(play_reply("m", &Err(PlaybackFailure::Malformed("bad".into()))).message, "bad");
    let nd = play_reply("m", &Err(PlaybackFailure::NoDevice));
    assert!(!nd.success);
    assert_eq!(nd.message, "Virtual input device not available");
    assert_eq!(play_report("m", &Ok(())), "Success: Macro 'm' played back successfully");
    assert_eq!(play_report("m", &Err(PlaybackFailure::NotFound)), "Error: Macro 'm' not found");
    assert_eq!(play_report("m", &Err(PlaybackFailure::Unreadable("io".into()))), "Error reading macro: io");
    assert_eq!(play_report("m", &Err(PlaybackFailure::Malformed("bad".into()))), "Error parsing macro: bad");
    assert_eq!(play_report("m", &Err(PlaybackFailure::NoDevice)), "Error: Virtual input device not available");
}

#[test]
fn capture_device_filters() {
    assert!(is_event_node("event3"));
    assert!(!is_event_node("mouse0"));
    assert!(is_own_virtual_device(&virtual_device_name()));
    assert!(!is_own_virtual_device("AT Translated Set 2 keyboard"));
}

#[test]
fn virtual_keys_cover_keyboard_and_mouse_buttons() {
    let keys = virtual_device_keys();
    assert_eq!(keys.len(), 264);
    assert_eq!(keys[0], 0);
    assert_eq!(keys[255], 255);
    assert_eq!(keys[256], 0x110);
    assert_eq!(keys[263], 0x117);
}

#[test]
fn status_words() {
    let mut r = MacroRecorder::new();
    assert_eq!(r.start_request("m", 0).status_word(), "success");
    assert_eq!(r.start_request("m", 0).status_word(), "error");
}

#[test]
fn delays_truncate_the_elapsed_time() {
    let mut r = MacroRecorder::new();
    r.start("m", 999_999).unwrap();
    r.capture(1, 1, 1, 2_000_000);
    r.capture(1, 1, 1, 3_999_999);
    r.capture(1, 1, 1, 4_000_000);
    let d: Vec<u64> = r.events().iter().map(|e| e.delay_ms).collect();
    assert_eq!(d, vec![1, 1, 0]);
}
