use aura::agent::{
    daemon_status, default_model_name, get_system_prompt, shell_error_report, shell_output_report, AgentStep,
    ChatSession, ModelFailure, ModelProbe, ProbeStep, MAX_AGENT_STEPS, SYSTEM_PROMPT,
};
use aura::recorder::MacroRecorder;
use aura::types::{AgentAction, ChatMessage};

fn action(kind: &str, command: &str, macro_name: &str, response: &str) -> AgentAction {
    AgentAction {
        thought: "thinking".to_string(),
        action: kind.to_string(),
        command: command.to_string(),
        macro_name: macro_name.to_string(),
        response: response.to_string(),
    }
}

fn reply(content: &str) -> ChatMessage {
    ChatMessage { role: "assistant".to_string(), content: content.to_string() }
}

fn finish_text(step: AgentStep) -> String {
    match step {
        AgentStep::Finish(t) => t,
        other => panic!("expected Finish, got {:?}", other),
    }
}

#[test]
fn system_prompt_is_the_json_protocol() {
    let p = get_system_prompt();
    assert_eq!(p, SYSTEM_PROMPT);
    assert!(p.starts_with("You are AuraOS Agent"));
    assert!(p.contains("\"action\": \"execute\" | \"record_macro\" | \"play_macro\" | \"respond\""));
    assert!(p.ends_with("just print the JSON directly."));
}

#[test]
fn session_starts_with_system_and_user_messages() {
    let s = ChatSession::new("Show me my system information");
    let h = s.history();
    assert_eq!(h.len(), 2);
    assert_eq!(h[0].role, "system");
    assert_eq!(h[0].content, SYSTEM_PROMPT);
    assert_eq!(h[1].role, "user");
    assert_eq!(h[1].content, "Show me my system information");
    assert_eq!(s.turns(), 0);
}

#[test]
fn respond_finishes_with_the_models_answer() {
    let mut s = ChatSession::new("hello");
    assert!(matches!(s.start_turn(), AgentStep::QueryModel));
    let step = s.on_model_reply(reply("{...}"), Some(action("respond", "", "", "Hi there")));
    assert_eq!(finish_text(step), "Hi there");
    let r = s.into_response("Hi there".to_string());
    assert_eq!(r.response, "Hi there");
    assert_eq!(r.history.len(), 3);
    assert_eq!(r.history[2].content, "{...}");
}

#[test]
fn execute_runs_the_command_and_reports_back() {
    let mut s = ChatSession::new("uname");
    s.start_turn();
    match s.on_model_reply(reply("x"), Some(action("execute", "uname -a", "", ""))) {
        AgentStep::Execute(c) => assert_eq!(c, "uname -a"),
        other => panic!("unexpected {:?}", other),
    }
    s.on_executed("uname -a", "Linux\n");
    let last = s.history().last().unwrap();
    assert_eq!(last.role, "user");
    assert_eq!(last.content, "{\"action_result\": \"executed\", \"command\": \"uname -a\", \"output\": \"Linux\\n\"}");
}

#[test]
fn macro_actions_are_dispatched_and_reported() {
    let mut s = ChatSession::new("record");
    s.start_turn();
    match s.on_model_reply(reply("x"), Some(action("record_macro", "", "firefox-search", ""))) {
        AgentStep::RecordMacro(n) => assert_eq!(n, "firefox-search"),
        other => panic!("unexpected {:?}", other),
    }
    s.on_recording_started("firefox-search", "ok");
    assert_eq!(
        s.history().last().unwrap().content,
        "{\"action_result\": \"record_macro_triggered\", \"macro_name\": \"firefox-search\", \"result\": \"ok\"}"
    );
    s.start_turn();
    match s.on_model_reply(reply("y"), Some(action("play_macro", "", "firefox-search", ""))) {
        AgentStep::PlayMacro(n) => assert_eq!(n, "firefox-search"),
        other => panic!("unexpected {:?}", other),
    }
    s.on_macro_played("firefox-search", "done");
    assert_eq!(
        s.history().last().unwrap().content,
        "{\"action_result\": \"play_macro_completed\", \"macro_name\": \"firefox-search\", \"result\": \"done\"}"
    );
    assert_eq!(s.history().len(), 6);
}

#[test]
fn invalid_json_and_unknown_actions_end_the_conversation() {
    let mut s = ChatSession::new("q");
    s.start_turn();
    let step = s.on_model_reply(reply("not json"), None);
    assert_eq!(finish_text(step), "AI hallucinated invalid JSON format. Raw output: not json");
    assert_eq!(s.history().len(), 3);
    let mut s2 = ChatSession::new("q");
    s2.start_turn();
    let step = s2.on_model_reply(reply("{}"), Some(action("dance", "", "", "")));
    assert_eq!(finish_text(step), "Agent attempted unknown action: dance");
}

#[test]
fn model_failures_end_the_conversation() {
    let mut s = ChatSession::new("q");
    s.start_turn();
    assert_eq!(
        finish_text(s.on_model_failure(&ModelFailure::Unreachable("connection refused".into()))),
        "Error communicating with local Ollama service: connection refused"
    );
    assert!(s.is_finished());
    assert_eq!(s.history().len(), 2);
    let mut s2 = ChatSession::new("q");
    s2.start_turn();
    assert_eq!(
        finish_text(s2.on_model_failure(&ModelFailure::BadReply("eof".into()))),
        "Failed to parse JSON response from Ollama: eof"
    );
}

#[test]
fn model_is_asked_at_most_eight_times() {
    let mut s = ChatSession::new("loop forever");
    let mut queries = 0;
    loop {
        match s.start_turn() {
            AgentStep::QueryModel => {
                queries += 1;
                match s.on_model_reply(reply("x"), Some(action("execute", "true", "", ""))) {
                    AgentStep::Execute(c) => s.on_executed(&c, ""),
                    other => panic!("unexpected {:?}", other),
                }
            }
            AgentStep::Finish(t) => {
                assert_eq!(t, "Agent loop exceeded maximum execution steps.");
                break;
            }
            other => panic!("unexpected {:?}", other),
        }
    }
    assert_eq!(queries, MAX_AGENT_STEPS);
    assert_eq!(s.history().len(), 2 + 2 * 8);
}

#[test]
fn shell_reports() {
    assert_eq!(shell_output_report(b"hello\n", b""), "STDOUT:\nhello\n\nSTDERR:\n");
    assert_eq!(shell_output_report(b"\xff", b"err"), "STDOUT:\n\u{FFFD}\nSTDERR:\nerr");
    assert_eq!(shell_error_report("No such file"), "Execution Error: No such file");
}

#[test]
fn model_probe_adopts_first_model_or_retries_ten_times() {
    let mut p = ModelProbe::new();
    assert!(matches!(p.on_listing(&None), ProbeStep::Retry));
    assert!(matches!(p.on_listing(&Some(vec![])), ProbeStep::Retry));
    match p.on_listing(&Some(vec!["llama3:8b".to_string(), "qwen".to_string()])) {
        ProbeStep::Adopt(n) => assert_eq!(n, "llama3:8b"),
        other => panic!("unexpected {:?}", other),
    }
    let mut q = ModelProbe::new();
    let mut tries = 0;
    while q.may_retry() {
        q.on_listing(&None);
        tries += 1;
    }
    assert_eq!(tries, 10);
    assert_eq!(default_model_name(), "qwen2.5:1.5b");
}

#[test]
fn daemon_status_reports_recorder_and_model() {
    let mut r = MacroRecorder::new();
    r.start("demo", 0).unwrap();
    let s = daemon_status(&r, "qwen2.5:1.5b", vec!["a".to_string()]);
    assert!(s.is_recording);
    assert_eq!(s.current_macro_name, "demo");
    assert_eq!(s.model, "qwen2.5:1.5b");
    assert_eq!(s.available_macros, vec!["a".to_string()]);
}

#[test]
fn replies_and_reports_alternate() {
    let mut s = ChatSession::new("do things");
    for (i, kind) in ["execute", "record_macro", "play_macro"].iter().enumerate() {
        s.start_turn();
        assert!(!s.is_finished());
        match s.on_model_reply(reply("x"), Some(action(kind, "ls", "m", ""))) {
            AgentStep::Execute(c) => s.on_executed(&c, "out"),
            AgentStep::RecordMacro(n) => s.on_recording_started(&n, "ok"),
            AgentStep::PlayMacro(n) => s.on_macro_played(&n, "ok"),
            other => panic!("unexpected {:?}", other),
        }
        assert_eq!(s.history().len(), 2 + 2 * (i + 1));
    }
    s.start_turn();
    s.on_model_reply(reply("final"), Some(action("respond", "", "", "all done")));
    assert!(s.is_finished());
    let h = s.history();
    assert_eq!(h.len(), 9);
    for i in [3, 5, 7] {
        assert_eq!(h[i].role, "user");
        assert!(h[i].content.starts_with("{\"action_result\": "));
    }
    for i in [2, 4, 6, 8] {
        assert_eq!(h[i].role, "assistant");
    }
}

#[test]
fn prompt_stays_second_to_the_end() {
    let mut s = ChatSession::new("Show me my system information");
    s.start_turn();
    if let AgentStep::Execute(c) = s.on_model_reply(reply("x"), Some(action("execute", "uname -a", "", ""))) {
        s.on_executed(&c, "Linux");
    }
    s.start_turn();
    let step = s.on_model_reply(reply("y"), Some(action("respond", "", "", "Linux")));
    let r = s.into_response(finish_text(step));
    assert_eq!(r.history[0].role, "system");
    assert_eq!(r.history[0].content, SYSTEM_PROMPT);
    assert_eq!(r.history[1].role, "user");
    assert_eq!(r.history[1].content, "Show me my system information");
    assert_eq!(r.response, "Linux");
}
