use terminator::app::{App, State};
use terminator::bridge::{models, wait_ready_step, Request, Response, WaitReady};
use terminator::control::{command_for, tick_for, Key, KeyAction, KeyCommand, Tick};
use terminator::picker::{
    chosen_model_id, has_weight_file, is_weight_file, model_dir, model_status, picker_key,
    picker_row_spans, status_label, ModelStatus, PickerStep,
};
use terminator::ui::Tone;

fn idle() -> App {
    let mut a = App::new("e2b".to_string());
    a.state = State::Idle;
    a
}

#[test]
fn escape_always_quits() {
    for s in [State::Booting, State::Idle, State::Recording, State::AwaitingApproval] {
        assert_eq!(command_for(s, false, Key::Esc), KeyCommand::Quit);
        assert_eq!(command_for(s, true, Key::Esc), KeyCommand::Quit);
    }
    let mut a = idle();
    assert!(matches!(a.handle_key(Key::Esc), KeyAction::Nothing));
    assert!(a.should_quit);
}

#[test]
fn typing_in_text_mode() {
    let mut a = idle();
    a.handle_key(Key::Char('h'));
    a.handle_key(Key::Char('y'));
    a.handle_key(Key::Char(' '));
    assert_eq!(a.input, "hy ");
    a.handle_key(Key::Backspace);
    a.handle_key(Key::Backspace);
    assert_eq!(a.input, "h");
    a.handle_key(Key::Backspace);
    a.handle_key(Key::Backspace);
    assert_eq!(a.input, "");
}

#[test]
fn enter_submits() {
    let mut a = idle();
    a.input = "go".to_string();
    match a.handle_key(Key::Enter) {
        KeyAction::Send(Request::Text { content }) => assert_eq!(content, "go"),
        _ => panic!("expected a send"),
    }
    assert!(matches!(idle().handle_key(Key::Enter), KeyAction::Nothing));
}

#[test]
fn voice_mode_keys() {
    let mut a = idle();
    a.handle_key(Key::Tab);
    assert!(a.voice_mode);
    assert!(matches!(a.handle_key(Key::Char(' ')), KeyAction::StartRecording));
    assert!(matches!(a.handle_key(Key::Char('x')), KeyAction::Nothing));
    assert_eq!(a.input, "");
    a.state = State::Recording;
    assert!(matches!(a.handle_key(Key::Char(' ')), KeyAction::StopRecording));
    assert_eq!(command_for(State::Recording, false, Key::Char(' ')), KeyCommand::Ignore);
}

#[test]
fn approval_keys() {
    assert_eq!(command_for(State::AwaitingApproval, false, Key::Char('y')), KeyCommand::Approve);
    assert_eq!(command_for(State::AwaitingApproval, true, Key::Char('n')), KeyCommand::Reject);
    assert_eq!(command_for(State::AwaitingApproval, false, Key::Char('q')), KeyCommand::Ignore);
    assert_eq!(command_for(State::Idle, false, Key::Char('y')), KeyCommand::Type('y'));
    let mut a = idle();
    a.state = State::AwaitingApproval;
    assert!(matches!(a.handle_key(Key::Char('y')), KeyAction::Approve));
    // No pending call: rejecting sends nothing.
    assert!(matches!(a.handle_key(Key::Char('n')), KeyAction::Nothing));
}

#[test]
fn tick_by_phase() {
    assert_eq!(tick_for(State::Booting), Tick::Boot);
    assert_eq!(tick_for(State::Loading), Tick::CheckReady);
    assert_eq!(tick_for(State::Recording), Tick::Record);
    assert_eq!(tick_for(State::Processing), Tick::Poll);
    assert_eq!(tick_for(State::Streaming), Tick::Poll);
    assert_eq!(tick_for(State::Idle), Tick::Wait);
    assert_eq!(tick_for(State::AwaitingApproval), Tick::Wait);
}

#[test]
fn wait_ready_steps() {
    assert!(matches!(wait_ready_step(Some(Response::Ready)), WaitReady::Ready));
    assert!(matches!(wait_ready_step(Some(Response::Done)), WaitReady::Waiting));
    match wait_ready_step(Some(Response::Error { message: "no model".to_string() })) {
        WaitReady::Failed(m) => assert_eq!(m, "Inference error during init: no model"),
        _ => panic!(),
    }
    match wait_ready_step(None) {
        WaitReady::Failed(m) => assert_eq!(m, "Inference process died during init"),
        _ => panic!(),
    }
}

#[test]
fn model_list() {
    let ms = models();
    let ids: Vec<&str> = ms.iter().map(|m| m.id).collect();
    assert_eq!(ids, vec!["E2B", "E4B", "26B-A4B", "31B"]);
    assert_eq!(ms[2].name, "Gemma 4 26B-A4B");
    assert_eq!(ms[3].ram, "~20 GB");
}

#[test]
fn picker_navigation() {
    assert_eq!(picker_key(0, Key::Up), PickerStep::Stay(0));
    assert_eq!(picker_key(2, Key::Char('k')), PickerStep::Stay(1));
    assert_eq!(picker_key(2, Key::Down), PickerStep::Stay(3));
    assert_eq!(picker_key(3, Key::Char('j')), PickerStep::Stay(3));
    assert_eq!(picker_key(1, Key::Enter), PickerStep::Chosen(1));
    assert_eq!(picker_key(1, Key::Esc), PickerStep::Cancelled);
    assert_eq!(picker_key(0, Key::Char('3')), PickerStep::Chosen(2));
    assert_eq!(picker_key(0, Key::Char('9')), PickerStep::Stay(0));
    assert_eq!(chosen_model_id(1), "E4B");
}

#[test]
fn model_directories() {
    let d = model_dir("26B-A4B").unwrap();
    assert_eq!(d.dir, "gemma-4-26B-A4B-it");
    assert_eq!(d.expected_bytes, 16_000_000_000);
    assert!(model_dir("e2b").is_none());
}

#[test]
fn weight_files() {
    assert!(is_weight_file("model-00001.safetensors"));
    assert!(is_weight_file("pytorch_model.bin"));
    assert!(!is_weight_file("config.json"));
    assert!(!is_weight_file("bin"));
    assert!(has_weight_file(&vec!["a.txt".to_string(), "w.bin".to_string()]));
    assert!(!has_weight_file(&vec![]));
}

#[test]
fn status_from_disk() {
    assert_eq!(model_status(false, true, true, 9, 10), ModelStatus::Download);
    assert_eq!(model_status(true, true, true, 0, 10), ModelStatus::Ready);
    assert_eq!(model_status(true, true, false, 9, 10), ModelStatus::Partial { size: 9, expected: 10 });
    assert_eq!(model_status(true, false, false, 0, 10), ModelStatus::Download);
}

#[test]
fn picker_rows() {
    let ms = models();
    let row = picker_row_spans(0, 0, &ms[0], ModelStatus::Ready, "[✓ READY]");
    let t: Vec<String> = row.iter().map(|s| s.text.clone()).collect();
    assert_eq!(t, vec![" ▶ 1. ", "Gemma 4 E2B       ", "RAM: ~4 GB   Disk: ~5 GB  ", " [✓ READY]"]);
    assert_eq!(row[0].tone, Tone::Accent);
    assert_eq!(row[3].tone, Tone::Primary);
    let other = picker_row_spans(2, 0, &ms[2], ModelStatus::Download, "[download]");
    assert_eq!(other[0].text, "   3. ");
    assert_eq!(other[0].tone, Tone::Primary);
    assert_eq!(other[3].tone, Tone::Dim);
}

#[test]
fn status_labels() {
    assert_eq!(status_label(ModelStatus::Download).unwrap(), "[download]");
    assert_eq!(status_label(ModelStatus::Ready).unwrap(), "[✓ READY]");
    assert!(status_label(ModelStatus::Partial { size: 1, expected: 2 }).is_none());
}
