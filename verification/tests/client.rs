use aura::client::{is_toggle_request, ClientState, PromptOutcome};
use aura::spotlight::app_catalog;
use aura::types::{BluetoothDevice, ChatMessage, DaemonStatus};

fn status(model: &str) -> DaemonStatus {
    DaemonStatus {
        is_recording: true,
        current_macro_name: "m".to_string(),
        model: model.to_string(),
        available_macros: vec!["m".to_string()],
    }
}

#[test]
fn starts_with_greeting_and_no_model() {
    let s = ClientState::new();
    assert_eq!(s.messages.len(), 1);
    assert_eq!(s.messages[0].role, "Aura");
    assert!(s.messages[0].content.starts_with("Hello! I am Aura"));
    assert_eq!(s.model_name, "Detecting...");
    assert!(!s.model_ready);
}

#[test]
fn model_ready_once_a_usable_model_is_reported() {
    let mut s = ClientState::new();
    s.apply_status(status("No model detected"));
    assert!(!s.model_ready);
    s.apply_status(status(""));
    assert!(!s.model_ready);
    s.apply_status(status("qwen2.5:1.5b"));
    assert!(s.model_ready);
    assert!(s.is_recording);
    assert_eq!(s.current_macro_name, "m");
    s.apply_status(status("Detecting..."));
    assert!(s.model_ready);
}

#[test]
fn unreachable_daemon_resets_model() {
    let mut s = ClientState::new();
    s.apply_status(status("qwen"));
    s.is_waiting = true;
    s.apply_text("Error: unreachable");
    assert!(!s.model_ready);
    assert_eq!(s.model_name, "Detecting...");
    assert!(!s.is_waiting);
    assert_eq!(s.messages.len(), 1);
}

#[test]
fn other_errors_are_shown() {
    let mut s = ClientState::new();
    s.is_waiting = true;
    s.apply_text("Error: Failed to parse AI response");
    assert!(!s.is_waiting);
    assert_eq!(s.messages.last().unwrap().content, "Error: Failed to parse AI response");
    assert_eq!(s.messages.last().unwrap().role, "Aura");
}

#[test]
fn scan_finished_and_other_texts() {
    let mut s = ClientState::new();
    s.begin_scan();
    assert!(s.is_scanning);
    s.apply_scan_results(vec![BluetoothDevice { mac: "a".into(), name: "b".into() }]);
    assert_eq!(s.scanned_devices.len(), 1);
    s.apply_text("ScanFinished");
    assert!(!s.is_scanning);
    s.apply_text("something else");
    assert_eq!(s.messages.len(), 1);
}

#[test]
fn chat_reply_joins_conversation() {
    let mut s = ClientState::new();
    s.is_waiting = true;
    s.apply_chat_reply(Some(ChatMessage { role: "Aura".into(), content: "Done".into() }));
    assert!(!s.is_waiting);
    assert_eq!(s.messages.len(), 2);
    s.is_waiting = true;
    s.apply_chat_reply(None);
    assert!(!s.is_waiting);
    assert_eq!(s.messages.len(), 2);
}

#[test]
fn prompt_math_launch_and_chat() {
    let apps = app_catalog();
    let mut s = ClientState::new();
    assert!(matches!(s.submit_prompt("   ", &apps, None), PromptOutcome::Ignored));
    assert!(matches!(s.submit_prompt(" 2+2*5 ", &apps, Some("12".to_string())), PromptOutcome::Calculated));
    assert_eq!(s.messages[1].content, "2+2*5");
    assert_eq!(s.messages[2].content, "= 12");
    assert!(matches!(s.submit_prompt("firefox", &apps, None), PromptOutcome::Launched(0)));
    assert_eq!(s.messages[3].content, "Launch Firefox Web Browser");
    assert_eq!(s.messages[4].content, "Launched Firefox Web Browser (firefox)");
    match s.submit_prompt(" update my system", &apps, None) {
        PromptOutcome::Sent(p) => assert_eq!(p, " update my system"),
        other => panic!("unexpected {:?}", other),
    }
    assert!(s.is_waiting);
    assert_eq!(s.messages[5].role, "User");
    assert!(matches!(s.submit_prompt("again", &apps, None), PromptOutcome::Ignored));
    assert_eq!(s.messages.len(), 6);
}

#[test]
fn clear_chat_keeps_greeting() {
    let apps = app_catalog();
    let mut s = ClientState::new();
    s.submit_prompt("firefox", &apps, None);
    s.clear_chat();
    assert_eq!(s.messages.len(), 1);
    assert!(s.messages[0].content.starts_with("Hello!"));
}

#[test]
fn phone_setting_and_loading_text() {
    let mut s = ClientState::new();
    assert!(s.phone_setting().mac_address.is_none());
    s.apply_bluetooth_status("00:11".into(), true, false);
    let c = s.phone_setting();
    assert_eq!(c.mac_address.as_deref(), Some("00:11"));
    assert!(c.enabled);
    assert_eq!(s.loading_status(), "Waiting for background system daemon to boot...");
    s.apply_status(status(""));
    assert_eq!(s.loading_status(), "Booting local Ollama server & allocating memory...");
    s.apply_status(status("qwen"));
    assert_eq!(s.loading_status(), "Spinning up model: qwen (loading weights to CPU)...");
}

#[test]
fn toggle_requests() {
    assert!(is_toggle_request(b"toggle"));
    assert!(!is_toggle_request(b"toggl"));
    assert!(!is_toggle_request(b"toggle!"));
}
