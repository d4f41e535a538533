use terminator::app::{App, ChatMessage, State};
use terminator::ui::{
    chat_lines, header_spans, input_spans, popup_area, popup_text, progress_bar_text,
    scroll_offset, status_spans, waveform_width, Emphasis, Span, Tone,
};

fn texts(line: &[Span]) -> Vec<String> {
    line.iter().map(|s| s.text.clone()).collect()
}

#[test]
fn header_names_the_model() {
    let a = App::new("e2b".to_string());
    let h = header_spans(&a);
    assert_eq!(texts(&h), vec![" TERMINATOR ", "OS v1.0.0 ", "│ ", "NEURAL CORE: ", "GEMMA-4-E2B"]);
    assert_eq!(h[4].tone, Tone::Accent);
    assert_eq!(h[0].emphasis, Emphasis::Bold);
}

#[test]
fn status_bar_shows_mode() {
    let mut a = App::new("e2b".to_string());
    assert_eq!(texts(&status_spans(&a)), vec![" [TEXT] ", "BOOTING...", "  [TAB] mode  [ESC] quit"]);
    a.voice_mode = true;
    assert_eq!(status_spans(&a)[0].text, " [VOICE] ");
}

#[test]
fn input_line_by_phase() {
    let mut a = App::new("e2b".to_string());
    a.state = State::Idle;
    a.input = "abc".to_string();
    assert_eq!(texts(&input_spans(&a, 0, "")), vec![" ⌨ INPUT ", " ", "abc▌"]);
    a.voice_mode = true;
    assert_eq!(texts(&input_spans(&a, 0, "")), vec![" 🎤 VOICE ", " ", "Tap [SPACE] to speak"]);
    a.state = State::Processing;
    assert_eq!(texts(&input_spans(&a, 0, "")), vec![" ⏳ ", " ", "[ processing... ]"]);
    a.state = State::Recording;
    let rec = input_spans(&a, 12, "──⠉");
    assert_eq!(texts(&rec), vec![" 🎤 REC ", " 12s/28s ", "──⠉"]);
    assert_eq!(rec[0].tone, Tone::AlertInverse);
}

#[test]
fn waveform_width_leaves_room_for_label() {
    assert_eq!(waveform_width(80), 60);
    assert_eq!(waveform_width(10), 0);
}

#[test]
fn popup_is_centred_and_fits() {
    let a = popup_area(100, 40);
    assert_eq!((a.x, a.y, a.width, a.height), (22, 14, 56, 11));
    let small = popup_area(30, 10);
    assert_eq!((small.x, small.y, small.width, small.height), (2, 2, 26, 6));
    let tiny = popup_area(3, 2);
    assert_eq!((tiny.x, tiny.y, tiny.width, tiny.height), (1, 1, 0, 0));
}

#[test]
fn popup_lines_show_the_action() {
    let lines = popup_text("read_file", "READ: /x");
    assert_eq!(lines.len(), 8);
    assert_eq!(texts(&lines[3]), vec!["  ACTION: ", "read_file"]);
    assert_eq!(texts(&lines[4]), vec!["  TARGET: ", "READ: /x"]);
    assert_eq!(texts(&lines[7]), vec!["     [Y] ", "APPROVE     ", "    [N] ", "REJECT"]);
}

#[test]
fn progress_bar_cells() {
    assert_eq!(
        progress_bar_text(0).unwrap(),
        format!("  [{}] 0%", "░".repeat(30))
    );
    assert_eq!(
        progress_bar_text(50).unwrap(),
        format!("  [{}{}] 50%", "█".repeat(15), "░".repeat(15))
    );
    assert_eq!(progress_bar_text(100).unwrap(), format!("  [{}] 100%", "█".repeat(30)));
    assert!(progress_bar_text(104).is_none());
}

#[test]
fn scroll_keeps_last_line_visible() {
    assert_eq!(scroll_offset(50, 12), 40);
    assert_eq!(scroll_offset(5, 12), 0);
    assert_eq!(scroll_offset(65536 + 3, 2), 3);
}

#[test]
fn boot_lines_appear_one_by_one() {
    let mut a = App::new("e4b".to_string());
    assert!(chat_lines(&a, 80).unwrap().is_empty());
    a.tick_boot();
    a.tick_boot();
    let lines = chat_lines(&a, 80).unwrap();
    assert_eq!(lines.len(), 2);
    assert_eq!(lines[0][0].text, "TERMINATOR OS v1.0.0");
    for _ in 0..4 {
        a.tick_boot();
    }
    let lines = chat_lines(&a, 80).unwrap();
    // 6 boot lines, 5 ready lines, a blank line, the bar and the hint.
    assert_eq!(lines.len(), 14);
    assert_eq!(lines[5][0].text, "  NEURAL CORE: GEMMA-4-E4B.. LOADING");
    assert_eq!(lines[6][0].text, "  NEURAL CORE: GEMMA-4-E4B.. ONLINE");
    assert_eq!(lines[12][0].text, format!("  [{}] 0%", "░".repeat(30)));
    assert_eq!(lines[13][0].emphasis, Emphasis::SlowBlink);
}

#[test]
fn short_messages_take_one_line() {
    let mut a = App::new("e4b".to_string());
    a.state = State::Idle;
    a.messages.push(ChatMessage { role: "user".to_string(), content: "hi".to_string() });
    a.messages.push(ChatMessage { role: "ai".to_string(), content: "hello".to_string() });
    let lines = chat_lines(&a, 40).unwrap();
    assert_eq!(lines.len(), 4);
    assert_eq!(texts(&lines[0]), vec![""]);
    assert_eq!(texts(&lines[1]), vec!["> USER: ", "hi"]);
    assert_eq!(lines[1][1].tone, Tone::User);
    assert_eq!(texts(&lines[3]), vec!["> AI: ", "hello"]);
    assert_eq!(lines[3][1].tone, Tone::Primary);
}

#[test]
fn long_messages_wrap_by_bytes() {
    let mut a = App::new("e4b".to_string());
    a.state = State::Idle;
    // Pane of 12 cells: 10 bytes of text per line, 2 after "> USER: ".
    a.messages.push(ChatMessage { role: "user".to_string(), content: "abcdefghijklmnop".to_string() });
    let lines = chat_lines(&a, 12).unwrap();
    assert_eq!(texts(&lines[1]), vec!["> USER: ", "ab"]);
    assert_eq!(texts(&lines[2]), vec!["cdefghijkl"]);
    assert_eq!(texts(&lines[3]), vec!["mnop"]);
    assert_eq!(lines.len(), 4);
}

#[test]
fn streaming_reply_ends_with_cursor() {
    let mut a = App::new("e4b".to_string());
    a.state = State::Streaming;
    a.current_response = "abc".to_string();
    let lines = chat_lines(&a, 40).unwrap();
    assert_eq!(texts(&lines[1]), vec!["> AI: ", "abc", "▌"]);
    assert_eq!(lines[1][2].emphasis, Emphasis::RapidBlink);
    a.current_response = "abcdefghijklmnopq".to_string();
    let lines = chat_lines(&a, 12).unwrap();
    assert_eq!(texts(&lines[1]), vec!["> AI: ", "abcd"]);
    assert_eq!(texts(&lines[2]), vec!["efghijklmn"]);
    assert_eq!(texts(&lines[3]), vec!["opq", "▌"]);
}

#[test]
fn wrapped_chunks_decode_lossily() {
    let mut a = App::new("e4b".to_string());
    a.state = State::Idle;
    // "> AI: " leaves 0 bytes on the first line of a 6-byte pane; "é" is split.
    a.messages.push(ChatMessage { role: "ai".to_string(), content: "abcdeéz".to_string() });
    let lines = chat_lines(&a, 8).unwrap();
    assert_eq!(texts(&lines[1]), vec!["> AI: ", ""]);
    assert_eq!(texts(&lines[2]), vec!["abcde\u{FFFD}"]);
    assert_eq!(texts(&lines[3]), vec!["\u{FFFD}z"]);
}

#[test]
fn layout_fails_where_a_cut_splits_a_character() {
    let mut a = App::new("e4b".to_string());
    a.state = State::Idle;
    a.messages.push(ChatMessage { role: "ai".to_string(), content: "aéééééé".to_string() });
    // First line takes 2 bytes: "a" and half of "é".
    assert!(chat_lines(&a, 10).is_none());
    // A pane with no room at all cannot wrap a non-empty message.
    let mut b = App::new("e4b".to_string());
    b.state = State::Idle;
    b.messages.push(ChatMessage { role: "ai".to_string(), content: "x".to_string() });
    assert!(chat_lines(&b, 2).is_none());
}

#[test]
fn ascii_chat_lays_out_in_narrow_pane() {
    let mut a = App::new("e4b".to_string());
    for _ in 0..6 {
        a.tick_boot();
    }
    for _ in 0..40 {
        a.check_ready(None);
    }
    a.messages.push(ChatMessage { role: "user".to_string(), content: "hello world".to_string() });
    a.messages.push(ChatMessage { role: "ai".to_string(), content: "x".repeat(37) });
    a.current_response = "partial answer".to_string();
    for width in 3..20u16 {
        let lines = chat_lines(&a, width).expect("ASCII text always lays out");
        let last = lines.last().unwrap();
        assert_eq!(last.last().unwrap().text, "▌");
    }
}

#[test]
fn ascii_wrapping_reassembles_the_message() {
    let content: String = (0..57).map(|i| (b'a' + (i % 26) as u8) as char).collect();
    for width in 9..30u16 {
        let mut a = App::new("e4b".to_string());
        a.state = State::Idle;
        a.messages.push(ChatMessage { role: "user".to_string(), content: content.clone() });
        let lines = chat_lines(&a, width).unwrap();
        let w = width as usize - 2;
        let first = w.saturating_sub(8);
        let rows = (content.len() - first + w - 1) / w;
        assert_eq!(lines.len(), 2 + rows);
        let mut joined = lines[1][1].text.clone();
        for l in &lines[2..] {
            assert!(l[0].text.len() <= w);
            joined.push_str(&l[0].text);
        }
        assert_eq!(joined, content);
    }
}
