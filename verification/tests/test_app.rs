use terminator::app::{App, ChatMessage, PendingTool, State, MAX_RECORD_SECS};
use terminator::bridge::{Request, Response, ToolArgs};
use terminator::tools::{Home, ToolPlan};
use terminator::control::{tick_for, Key, Tick};

fn app() -> App {
    App::new("e4b".to_string())
}

fn idle_app() -> App {
    let mut a = app();
    for _ in 0..6 {
        a.tick_boot();
    }
    a.check_ready(Some(Response::Ready));
    a
}

fn args(path: Option<&str>, command: Option<&str>, json: &str) -> ToolArgs {
    ToolArgs {
        path: path.map(|s| s.to_string()),
        command: command.map(|s| s.to_string()),
        json: json.to_string(),
    }
}

#[test]
fn new_app_is_booting() {
    let a = app();
    assert_eq!(a.state, State::Booting);
    assert_eq!(a.status, "BOOTING...");
    assert_eq!(a.boot_step, 0);
    assert_eq!(a.loading_pct, 0);
    assert!(a.messages.is_empty());
    assert!(!a.voice_mode);
}

#[test]
fn model_display_is_uppercase() {
    assert_eq!(app().model_display(), "GEMMA-4-E4B");
    assert_eq!(App::new("26b-a4b".to_string()).model_display(), "GEMMA-4-26B-A4B");
}

#[test]
fn boot_takes_six_ticks() {
    let mut a = app();
    for i in 1..6 {
        a.tick_boot();
        assert_eq!(a.boot_step, i);
        assert_eq!(a.state, State::Booting);
    }
    a.tick_boot();
    assert_eq!(a.state, State::Loading);
    assert_eq!(a.status, "LOADING NEURAL CORE...");
}

#[test]
fn loading_progress_is_fast_then_slow_then_stalls() {
    let mut a = app();
    a.check_ready(None);
    assert_eq!(a.loading_pct, 3);
    assert_eq!(a.status, "LOADING NEURAL CORE... 3%");
    for _ in 0..19 {
        a.check_ready(None);
    }
    assert_eq!(a.loading_pct, 60);
    a.check_ready(None);
    assert_eq!(a.loading_pct, 61);
    for _ in 0..100 {
        a.check_ready(Some(Response::Done));
    }
    assert_eq!(a.loading_pct, 92);
    assert_eq!(a.status, "LOADING NEURAL CORE... 92%");
    a.check_ready(Some(Response::Ready));
    assert_eq!(a.loading_pct, 100);
    assert_eq!(a.state, State::Idle);
    assert_eq!(a.status, "ONLINE — Type or press [SPACE] to speak");
}

#[test]
fn blank_input_is_not_sent() {
    let mut a = idle_app();
    a.input = "  \t ".to_string();
    assert!(a.submit_text().is_none());
    assert_eq!(a.input, "  \t ");
    assert_eq!(a.state, State::Idle);
    assert!(a.messages.is_empty());
}

#[test]
fn submitted_text_is_trimmed_and_sent() {
    let mut a = idle_app();
    a.input = "  hello there \u{3000}".to_string();
    match a.submit_text() {
        Some(Request::Text { content }) => assert_eq!(content, "hello there"),
        _ => panic!("expected a text request"),
    }
    assert_eq!(a.input, "");
    assert_eq!(a.state, State::Processing);
    assert_eq!(a.status, "PROCESSING...");
    assert_eq!(a.messages.len(), 1);
    assert_eq!(a.messages[0].role, "user");
    assert_eq!(a.messages[0].content, "hello there");
}

#[test]
fn tokens_then_done_record_one_reply() {
    let mut a = idle_app();
    a.input = "hi".to_string();
    a.submit_text();
    assert!(a.poll_tokens(Some(Response::Token { content: "Hel".to_string() })));
    assert_eq!(a.state, State::Streaming);
    assert_eq!(a.status, "TRANSMITTING...");
    assert!(a.poll_tokens(Some(Response::Token { content: "lo".to_string() })));
    assert_eq!(a.current_response, "Hello");
    assert!(!a.poll_tokens(Some(Response::Done)));
    assert_eq!(a.state, State::Idle);
    assert_eq!(a.current_response, "");
    assert_eq!(a.messages.len(), 2);
    assert_eq!(a.messages[1].role, "ai");
    assert_eq!(a.messages[1].content, "Hello");
}

#[test]
fn done_without_tokens_adds_nothing() {
    let mut a = idle_app();
    assert!(!a.poll_tokens(Some(Response::Done)));
    assert!(a.messages.is_empty());
    assert_eq!(a.status, "ONLINE — Type or press [SPACE] to speak");
}

#[test]
fn nothing_received_changes_nothing() {
    let mut a = idle_app();
    a.state = State::Processing;
    assert!(!a.poll_tokens(None));
    assert_eq!(a.state, State::Processing);
    assert!(!a.poll_tokens(Some(Response::Ready)));
    assert_eq!(a.state, State::Processing);
}

#[test]
fn error_ends_the_reply() {
    let mut a = idle_app();
    a.poll_tokens(Some(Response::Token { content: "partial".to_string() }));
    assert!(!a.poll_tokens(Some(Response::Error { message: "boom".to_string() })));
    assert_eq!(a.messages.len(), 1);
    assert_eq!(a.messages[0].content, "[ERROR] boom");
    assert_eq!(a.current_response, "");
    assert_eq!(a.state, State::Idle);
    assert_eq!(a.status, "ERROR — See above");
}

#[test]
fn recording_flow_with_transcript() {
    let mut a = idle_app();
    a.start_recording(false);
    assert_eq!(a.state, State::Idle);
    a.start_recording(true);
    assert_eq!(a.state, State::Recording);
    assert_eq!(a.status, "🎤 RECORDING 0s / 28s — [SPACE] to send");
    assert!(!a.tick_recording(5));
    assert_eq!(a.status, "🎤 RECORDING 5s / 28s — [SPACE] to send");
    assert!(a.tick_recording(MAX_RECORD_SECS));
    let req = a.stop_recording(&[1, 2, 3]);
    match req {
        Some(Request::Audio { data }) => assert_eq!(data, "AQID"),
        _ => panic!("expected audio"),
    }
    assert!(!a.recording);
    assert_eq!(a.state, State::Processing);
    assert_eq!(a.status, "PROCESSING AUDIO...");
    assert_eq!(a.messages.last().unwrap().content, "🎤 [voice input]");
    assert!(a.poll_tokens(Some(Response::Transcript { content: "what time is it".to_string() })));
    assert_eq!(a.messages.len(), 1);
    assert_eq!(a.messages[0].content, "🎤 what time is it");
    assert_eq!(a.status, "TRANSCRIBED — GENERATING RESPONSE...");
}

#[test]
fn empty_recording_returns_to_idle() {
    let mut a = idle_app();
    a.start_recording(true);
    assert!(a.stop_recording(&[]).is_none());
    assert_eq!(a.state, State::Idle);
    assert_eq!(a.status, "ONLINE — No audio captured");
    assert!(a.messages.is_empty());
}

#[test]
fn tick_without_recording_does_nothing() {
    let mut a = idle_app();
    let before = a.status.clone();
    assert!(!a.tick_recording(100));
    assert_eq!(a.status, before);
}

#[test]
fn transcript_leaves_typed_messages_alone() {
    let mut a = idle_app();
    a.messages.push(ChatMessage { role: "user".to_string(), content: "typed".to_string() });
    a.poll_tokens(Some(Response::Transcript { content: "x".to_string() }));
    assert_eq!(a.messages[0].content, "typed");
}

#[test]
fn tool_call_waits_for_approval() {
    let mut a = idle_app();
    let more = a.poll_tokens(Some(Response::ToolCall {
        tool: "read_file".to_string(),
        args: args(Some("~/notes.txt"), None, "{\"path\":\"~/notes.txt\"}"),
    }));
    assert!(!more);
    assert_eq!(a.state, State::AwaitingApproval);
    assert_eq!(a.status, "⚠ AWAITING APPROVAL — [Y] Approve  [N] Reject");
    let p: &PendingTool = a.pending_tool.as_ref().unwrap();
    assert_eq!(p.display, "READ: ~/notes.txt");
}

#[test]
fn approving_plans_the_tool() {
    let mut a = idle_app();
    a.poll_tokens(Some(Response::ToolCall {
        tool: "read_file".to_string(),
        args: args(Some("~/notes.txt"), None, "{}"),
    }));
    let home = Home { lossy: Some("/home/u".to_string()), unicode: "/home/u".to_string() };
    let job = a.approve_tool(&home).unwrap();
    assert!(a.pending_tool.is_none());
    assert_eq!(a.state, State::Processing);
    assert_eq!(a.status, "EXECUTING...");
    assert_eq!(a.messages.last().unwrap().content, "⚡ [APPROVED] READ: ~/notes.txt");
    match &job.plan {
        ToolPlan::Read { path } => assert_eq!(path, "/home/u/notes.txt"),
        _ => panic!("expected a read"),
    }
    match job.complete("data".to_string()) {
        Request::ToolResult { tool, result, approved } => {
            assert_eq!(tool, "read_file");
            assert_eq!(result, "data");
            assert!(approved);
        }
        _ => panic!("expected a tool result"),
    }
    assert!(a.approve_tool(&home).is_none());
}

#[test]
fn rejecting_tells_the_model() {
    let mut a = idle_app();
    a.poll_tokens(Some(Response::ToolCall {
        tool: "run_command".to_string(),
        args: args(None, Some("rm -rf /"), "{}"),
    }));
    match a.reject_tool() {
        Some(Request::ToolResult { tool, result, approved }) => {
            assert_eq!(tool, "run_command");
            assert_eq!(result, "");
            assert!(!approved);
        }
        _ => panic!("expected a tool result"),
    }
    assert_eq!(a.messages.last().unwrap().content, "🚫 [REJECTED] EXEC: rm -rf /");
    assert_eq!(a.status, "PROCESSING REJECTION...");
    assert!(a.reject_tool().is_none());
}

#[test]
fn toggle_voice_twice_restores_mode() {
    let mut a = idle_app();
    a.toggle_voice();
    assert!(a.voice_mode);
    assert_eq!(a.status, "VOICE MODE — Tap [SPACE] to speak");
    a.toggle_voice();
    assert!(!a.voice_mode);
    assert_eq!(a.status, "TEXT MODE — Type and press [ENTER]");
}

#[test]
fn tool_call_ends_the_poll_and_waits_for_a_decision() {
    let mut a = idle_app();
    a.state = State::Processing;
    let mut queue = vec![
        Response::ToolCall { tool: "read_file".to_string(), args: args(None, None, "{}") },
        Response::Done,
    ]
    .into_iter();
    // The main loop's poll: read until a message says stop.
    while a.poll_tokens(queue.next()) {}
    assert_eq!(a.state, State::AwaitingApproval);
    assert_eq!(a.status, "⚠ AWAITING APPROVAL — [Y] Approve  [N] Reject");
    assert_eq!(a.pending_tool.as_ref().unwrap().display, "READ: ?");
    // The loop does not poll while approval waits, and other keys do nothing.
    assert_eq!(tick_for(a.state), Tick::Wait);
    for k in [Key::Enter, Key::Tab, Key::Char('x'), Key::Char(' '), Key::Backspace, Key::Up] {
        a.handle_key(k);
        assert_eq!(a.state, State::AwaitingApproval);
    }
    a.handle_key(Key::Char('n'));
    assert_eq!(a.state, State::Processing);
    assert!(a.pending_tool.is_none());
    // The queued end of reply is read in the next poll.
    assert!(!a.poll_tokens(queue.next()));
    assert_eq!(a.state, State::Idle);
}

#[test]
fn loading_progress_formula() {
    let mut a = app();
    for _ in 0..6 {
        a.tick_boot();
    }
    for n in 1..=120u32 {
        a.check_ready(None);
        let expected = if n <= 20 { 3 * n } else { (60 + (n - 20)).min(92) };
        assert_eq!(a.loading_pct as u32, expected);
        assert_eq!(a.state, State::Loading);
        assert_eq!(a.status, format!("LOADING NEURAL CORE... {}%", expected));
    }
}

#[test]
fn boot_status_texts() {
    let mut a = app();
    for k in 1..=8 {
        a.tick_boot();
        if k < 6 {
            assert_eq!(a.status, "BOOTING...");
        } else {
            assert_eq!(a.status, "LOADING NEURAL CORE...");
            assert_eq!(a.state, State::Loading);
        }
    }
}
