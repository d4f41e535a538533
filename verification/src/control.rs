use vstd::prelude::*;

use crate::app::{after_reject, after_submit, after_toggle_voice, request_view, App, AppView, State};
use crate::bridge::{Request, RequestView};
use crate::text::{chars_of, string_of_range, push_char};

verus! {

/// A key the user pressed.
#[derive(Clone, Copy, Debug, PartialEq, Eq, Structural)]
pub enum Key {
    Esc,
    Enter,
    Tab,
    Backspace,
    Up,
    Down,
    Char(char),
    Other,
}

/// What a key press means in the main screen.
#[derive(Clone, Copy, Debug, PartialEq, Eq, Structural)]
pub enum KeyCommand {
    Quit,
    Approve,
    Reject,
    ToggleVoice,
    StartRecording,
    StopRecording,
    Submit,
    Backspace,
    Type(char),
    Ignore,
}

/// The meaning of `key` in phase `state`, with voice input on or off.
pub open spec fn key_command(state: State, voice_mode: bool, key: Key) -> KeyCommand {
    if key == Key::Esc {
        KeyCommand::Quit
    } else if key == Key::Char('y') && state == State::AwaitingApproval {
        KeyCommand::Approve
    } else if key == Key::Char('n') && state == State::AwaitingApproval {
        KeyCommand::Reject
    } else if key == Key::Tab && state == State::Idle {
        KeyCommand::ToggleVoice
    } else if key == Key::Char(' ') && voice_mode && state == State::Idle {
        KeyCommand::StartRecording
    } else if key == Key::Char(' ') && voice_mode && state == State::Recording {
        KeyCommand::StopRecording
    } else if key == Key::Enter && !voice_mode && state == State::Idle {
        KeyCommand::Submit
    } else if key == Key::Backspace && state == State::Idle && !voice_mode {
        KeyCommand::Backspace
    } else if key is Char && state == State::Idle && !voice_mode {
        KeyCommand::Type(key->0)
    } else {
        KeyCommand::Ignore
    }
}

/// Decides what a key press means.
pub fn command_for(state: State, voice_mode: bool, key: Key) -> (c: KeyCommand)
    ensures
        c == key_command(state, voice_mode, key),
{
    if key == Key::Esc {
        KeyCommand::Quit
    } else if key == Key::Char('y') && state == State::AwaitingApproval {
        KeyCommand::Approve
    } else if key == Key::Char('n') && state == State::AwaitingApproval {
        KeyCommand::Reject
    } else if key == Key::Tab && state == State::Idle {
        KeyCommand::ToggleVoice
    } else if key == Key::Char(' ') && voice_mode && state == State::Idle {
        KeyCommand::StartRecording
    } else if key == Key::Char(' ') && voice_mode && state == State::Recording {
        KeyCommand::StopRecording
    } else if key == Key::Enter && !voice_mode && state == State::Idle {
        KeyCommand::Submit
    } else if key == Key::Backspace && state == State::Idle && !voice_mode {
        KeyCommand::Backspace
    } else {
        match key {
            Key::Char(c) => if state == State::Idle && !voice_mode {
                KeyCommand::Type(c)
            } else {
                KeyCommand::Ignore
            },
            _ => KeyCommand::Ignore,
        }
    }
}

/// What the caller has to do after a key press.
pub enum KeyAction {
    Nothing,
    /// Send this message to the model.
    Send(Request),
    /// Approve the pending tool call (see `App::approve_tool`).
    Approve,
    /// Start the microphone, then report with `App::start_recording`.
    StartRecording,
    /// Stop the microphone, then report with `App::stop_recording`.
    StopRecording,
}

pub open spec fn sent(a: KeyAction) -> Option<RequestView> {
    match a {
        KeyAction::Send(r) => Some(r@),
        _ => None,
    }
}

/// The typed text without its last character (unchanged when empty).
pub open spec fn without_last(s: Seq<char>) -> Seq<char> {
    if s.len() > 0 {
        s.drop_last()
    } else {
        s
    }
}

/// What a key press does to the application, and what it asks of the
/// caller, by the key's meaning.
pub open spec fn key_effect(v: AppView, c: KeyCommand, next: AppView, a: KeyAction) -> bool {
    match c {
        KeyCommand::Quit => next == (AppView { should_quit: true, ..v }) && a is Nothing,
        KeyCommand::Approve => next == v && a is Approve,
        KeyCommand::Reject => (next, sent(a)) == after_reject(v) && (a is Send || a is Nothing),
        KeyCommand::ToggleVoice => next == after_toggle_voice(v) && a is Nothing,
        KeyCommand::StartRecording => next == v && a is StartRecording,
        KeyCommand::StopRecording => next == v && a is StopRecording,
        KeyCommand::Submit => (next, sent(a)) == after_submit(v) && (a is Send || a is Nothing),
        KeyCommand::Backspace => next == (AppView { input: without_last(v.input), ..v }) && a is Nothing,
        KeyCommand::Type(ch) => next == (AppView { input: v.input.push(ch), ..v }) && a is Nothing,
        KeyCommand::Ignore => next == v && a is Nothing,
    }
}

fn into_action(r: Option<Request>) -> (a: KeyAction)
    ensures
        sent(a) == request_view(r),
        a is Send || a is Nothing,
{
    match r {
        Some(q) => KeyAction::Send(q),
        None => KeyAction::Nothing,
    }
}

impl App {
    /// Handles one key press in the main screen.
    pub fn handle_key(&mut self, key: Key) -> (a: KeyAction)
        ensures
            key_effect(old(self)@, key_command(old(self).state, old(self).voice_mode, key), final(self)@, a),
    {
        match command_for(self.state, self.voice_mode, key) {
            KeyCommand::Quit => {
                self.should_quit = true;
                KeyAction::Nothing
            },
            KeyCommand::Approve => KeyAction::Approve,
            KeyCommand::Reject => into_action(self.reject_tool()),
            KeyCommand::ToggleVoice => {
                self.toggle_voice();
                KeyAction::Nothing
            },
            KeyCommand::StartRecording => KeyAction::StartRecording,
            KeyCommand::StopRecording => KeyAction::StopRecording,
            KeyCommand::Submit => into_action(self.submit_text()),
            KeyCommand::Backspace => {
                let v = chars_of(self.input.as_str());
                if v.len() > 0 {
                    self.input = string_of_range(&v, 0, v.len() - 1);
                    assert(v@.subrange(0, v.len() - 1) =~= v@.drop_last());
                }
                KeyAction::Nothing
            },
            KeyCommand::Type(c) => {
                push_char(&mut self.input, c);
                KeyAction::Nothing
            },
            KeyCommand::Ignore => KeyAction::Nothing,
        }
    }
}

/// What the main loop does on each turn, by phase.
#[derive(Clone, Copy, Debug, PartialEq, Eq, Structural)]
pub enum Tick {
    /// Show the next boot line (`App::tick_boot`).
    Boot,
    /// Check whether the model is loaded (`App::check_ready`).
    CheckReady,
    /// Update the running recording (`App::tick_recording`).
    Record,
    /// Read the model's messages (`App::poll_tokens`).
    Poll,
    /// Nothing to do until a key is pressed.
    Wait,
}

pub open spec fn tick_spec(state: State) -> Tick {
    match state {
        State::Booting => Tick::Boot,
        State::Loading => Tick::CheckReady,
        State::Recording => Tick::Record,
        State::Processing | State::Streaming => Tick::Poll,
        _ => Tick::Wait,
    }
}

/// The work of one turn of the main loop in phase `state`.
pub fn tick_for(state: State) -> (t: Tick)
    ensures
        t == tick_spec(state),
{
    match state {
        State::Booting => Tick::Boot,
        State::Loading => Tick::CheckReady,
        State::Recording => Tick::Record,
        State::Processing | State::Streaming => Tick::Poll,
        _ => Tick::Wait,
    }
}

} // verus!
