use vstd::prelude::*;

use crate::audio::{base64_encode, base64_fits, encode_base64};
use crate::bridge::{Request, RequestView, Response, ResponseView, ToolArgs, ToolArgsView};
use crate::text::{concat2, contains, contains_str, decimal, decimal_string, same_text, trim, trim_str};
use crate::tools::{describe_tool, plan_tool, tool_display, tool_plan, Home, ToolJob};
use crate::bridge::opt_view;

verus! {

/// The phases of the application.
#[derive(Clone, Copy, Debug, PartialEq, Eq, Structural)]
pub enum State {
    Booting,
    Loading,
    Idle,
    Recording,
    Processing,
    Streaming,
    AwaitingApproval,
}

/// One entry of the conversation: who said it (`user` or `ai`) and what.
pub struct ChatMessage {
    pub role: String,
    pub content: String,
}

#[verifier::ext_equal]
pub struct MessageView {
    pub role: Seq<char>,
    pub content: Seq<char>,
}

impl View for ChatMessage {
    type V = MessageView;

    open spec fn view(&self) -> MessageView {
        MessageView { role: self.role@, content: self.content@ }
    }
}

/// A tool call the model asked for, waiting for the user's decision.
pub struct PendingTool {
    pub tool: String,
    pub args: ToolArgs,
    pub display: String,
}

#[verifier::ext_equal]
pub struct PendingToolView {
    pub tool: Seq<char>,
    pub args: ToolArgsView,
    pub display: Seq<char>,
}

impl View for PendingTool {
    type V = PendingToolView;

    open spec fn view(&self) -> PendingToolView {
        PendingToolView { tool: self.tool@, args: self.args@, display: self.display@ }
    }
}

/// The state of the application, apart from the terminal, the microphone
/// and the inference process.
pub struct App {
    pub state: State,
    pub input: String,
    pub messages: Vec<ChatMessage>,
    pub current_response: String,
    pub voice_mode: bool,
    pub boot_step: usize,
    pub loading_pct: u8,
    pub should_quit: bool,
    pub status: String,
    /// A recording is running (its start time is kept by the caller).
    pub recording: bool,
    pub pending_tool: Option<PendingTool>,
    pub model_id: String,
}

#[verifier::ext_equal]
pub struct AppView {
    pub state: State,
    pub input: Seq<char>,
    pub messages: Seq<MessageView>,
    pub current_response: Seq<char>,
    pub voice_mode: bool,
    pub boot_step: nat,
    pub loading_pct: nat,
    pub should_quit: bool,
    pub status: Seq<char>,
    pub recording: bool,
    pub pending_tool: Option<PendingToolView>,
    pub model_id: Seq<char>,
}

pub open spec fn messages_view(m: Seq<ChatMessage>) -> Seq<MessageView> {
    m.map_values(|x: ChatMessage| x@)
}

pub open spec fn pending_view(p: Option<PendingTool>) -> Option<PendingToolView> {
    match p {
        Some(t) => Some(t@),
        None => None,
    }
}

impl View for App {
    type V = AppView;

    open spec fn view(&self) -> AppView {
        AppView {
            state: self.state,
            input: self.input@,
            messages: messages_view(self.messages@),
            current_response: self.current_response@,
            voice_mode: self.voice_mode,
            boot_step: self.boot_step as nat,
            loading_pct: self.loading_pct as nat,
            should_quit: self.should_quit,
            status: self.status@,
            recording: self.recording,
            pending_tool: pending_view(self.pending_tool),
            model_id: self.model_id@,
        }
    }
}

// ---------------------------------------------------------------------------
// The texts the application shows
// ---------------------------------------------------------------------------

/// The number of lines of the boot sequence.
pub const BOOT_LINE_COUNT: usize = 6;

/// A recording stops by itself after this many seconds.
pub const MAX_RECORD_SECS: u64 = 28;

pub open spec fn status_online() -> Seq<char> {
    "ONLINE — Type or press [SPACE] to speak"@
}

pub open spec fn status_loading_pct(pct: nat) -> Seq<char> {
    "LOADING NEURAL CORE... "@ + decimal(pct) + "%"@
}

pub open spec fn recording_status(secs: nat) -> Seq<char> {
    "🎤 RECORDING "@ + decimal(secs) + "s / 28s — [SPACE] to send"@
}

pub open spec fn voice_marker() -> Seq<char> {
    "[voice input]"@
}

pub open spec fn user_msg(c: Seq<char>) -> MessageView {
    MessageView { role: "user"@, content: c }
}

pub open spec fn ai_msg(c: Seq<char>) -> MessageView {
    MessageView { role: "ai"@, content: c }
}

// ---------------------------------------------------------------------------
// Transitions
// ---------------------------------------------------------------------------

pub open spec fn initial(model_id: Seq<char>) -> AppView {
    AppView {
        state: State::Booting,
        input: seq![],
        messages: seq![],
        current_response: seq![],
        voice_mode: false,
        boot_step: 0,
        loading_pct: 0,
        should_quit: false,
        status: "BOOTING..."@,
        recording: false,
        pending_tool: None,
        model_id,
    }
}

/// One more line of the boot sequence; after the last, loading begins.
pub open spec fn after_tick_boot(v: AppView) -> AppView {
    let step = v.boot_step + 1;
    if step >= BOOT_LINE_COUNT {
        AppView {
            boot_step: step,
            state: State::Loading,
            status: "LOADING NEURAL CORE..."@,
            ..v
        }
    } else {
        AppView { boot_step: step, ..v }
    }
}

/// The displayed loading progress after one more tick without the model
/// being ready: fast up to 60, then slowly, stalling at 92.
pub open spec fn loading_step(pct: nat) -> nat {
    if pct < 60 {
        pct + 3
    } else if pct < 92 {
        pct + 1
    } else {
        pct
    }
}

/// One check on the loading model; `ready` tells whether the message that
/// arrived (if any) says the model is loaded.
pub open spec fn after_check_ready(v: AppView, ready: bool) -> AppView {
    if ready {
        AppView { loading_pct: 100, state: State::Idle, status: status_online(), ..v }
    } else {
        let pct = loading_step(v.loading_pct);
        AppView { loading_pct: pct, status: status_loading_pct(pct), ..v }
    }
}

/// Sending the typed text: nothing happens when it is blank; otherwise the
/// trimmed text joins the conversation and goes to the model.
pub open spec fn after_submit(v: AppView) -> (AppView, Option<RequestView>) {
    let content = trim(v.input);
    if content.len() == 0 {
        (v, None)
    } else {
        (
            AppView {
                messages: v.messages.push(user_msg(content)),
                input: seq![],
                current_response: seq![],
                state: State::Processing,
                status: "PROCESSING..."@,
                ..v
            },
            Some(RequestView::Text { content }),
        )
    }
}

/// The microphone was asked to start; `started` tells whether it did.
pub open spec fn after_start_recording(v: AppView, started: bool) -> AppView {
    if started {
        AppView {
            state: State::Recording,
            recording: true,
            status: "🎤 RECORDING 0s / 28s — [SPACE] to send"@,
            ..v
        }
    } else {
        v
    }
}

/// The recording stopped with `pcm` captured (as raw bytes): nothing
/// captured returns to idle; otherwise the audio goes to the model.
pub open spec fn after_stop_recording(v: AppView, pcm: Seq<u8>) -> (AppView, Option<RequestView>) {
    if pcm.len() == 0 {
        (
            AppView {
                recording: false,
                state: State::Idle,
                status: "ONLINE — No audio captured"@,
                ..v
            },
            None,
        )
    } else {
        (
            AppView {
                recording: false,
                messages: v.messages.push(user_msg("🎤 "@ + voice_marker())),
                current_response: seq![],
                state: State::Processing,
                status: "PROCESSING AUDIO..."@,
                ..v
            },
            Some(RequestView::Audio { data: base64_encode(pcm) }),
        )
    }
}

/// One tick of a running recording `secs` seconds after it started; the
/// flag says whether the time limit is reached.
pub open spec fn after_tick_recording(v: AppView, secs: nat) -> (AppView, bool) {
    if v.recording {
        (AppView { status: recording_status(secs), ..v }, secs >= MAX_RECORD_SECS)
    } else {
        (v, false)
    }
}

/// The conversation after a transcript of the spoken input arrives: a
/// trailing voice placeholder from the user is replaced by the transcript.
pub open spec fn transcribed(msgs: Seq<MessageView>, t: Seq<char>) -> Seq<MessageView> {
    if msgs.len() > 0 && msgs.last().role == "user"@ && contains(msgs.last().content, voice_marker()) {
        msgs.update(msgs.len() - 1, MessageView { role: msgs.last().role, content: "🎤 "@ + t })
    } else {
        msgs
    }
}

/// What one message from the model does; the flag says whether to keep
/// reading messages in this poll. A tool call ends the poll: the call waits
/// in the approval phase, which only the user's decision leaves.
pub open spec fn after_response(v: AppView, r: ResponseView) -> (AppView, bool) {
    match r {
        ResponseView::Transcript { content } => (
            AppView {
                messages: transcribed(v.messages, content),
                status: "TRANSCRIBED — GENERATING RESPONSE..."@,
                ..v
            },
            true,
        ),
        ResponseView::ToolCall { tool, args } => (
            AppView {
                pending_tool: Some(
                    PendingToolView { tool, args, display: tool_display(tool, args) },
                ),
                state: State::AwaitingApproval,
                status: "⚠ AWAITING APPROVAL — [Y] Approve  [N] Reject"@,
                ..v
            },
            false,
        ),
        ResponseView::Token { content } => (
            AppView {
                state: State::Streaming,
                status: "TRANSMITTING..."@,
                current_response: v.current_response + content,
                ..v
            },
            true,
        ),
        ResponseView::Done => (
            AppView {
                messages: if v.current_response.len() > 0 {
                    v.messages.push(ai_msg(v.current_response))
                } else {
                    v.messages
                },
                current_response: seq![],
                state: State::Idle,
                status: status_online(),
                ..v
            },
            false,
        ),
        ResponseView::Error { message } => (
            AppView {
                messages: v.messages.push(ai_msg("[ERROR] "@ + message)),
                current_response: seq![],
                state: State::Idle,
                status: "ERROR — See above"@,
                ..v
            },
            false,
        ),
        ResponseView::Ready => (v, false),
    }
}

/// Approving the pending tool call (nothing happens without one).
pub open spec fn after_approve(v: AppView) -> AppView {
    match v.pending_tool {
        None => v,
        Some(p) => AppView {
            pending_tool: None,
            messages: v.messages.push(ai_msg("⚡ [APPROVED] "@ + p.display)),
            state: State::Processing,
            status: "EXECUTING..."@,
            ..v
        },
    }
}

/// Rejecting the pending tool call (nothing happens without one); the model
/// is told, with an empty result.
pub open spec fn after_reject(v: AppView) -> (AppView, Option<RequestView>) {
    match v.pending_tool {
        None => (v, None),
        Some(p) => (
            AppView {
                pending_tool: None,
                messages: v.messages.push(ai_msg("🚫 [REJECTED] "@ + p.display)),
                state: State::Processing,
                status: "PROCESSING REJECTION..."@,
                ..v
            },
            Some(RequestView::ToolResult { tool: p.tool, result: seq![], approved: false }),
        ),
    }
}

/// Switching between voice and text input.
pub open spec fn after_toggle_voice(v: AppView) -> AppView {
    AppView {
        voice_mode: !v.voice_mode,
        status: if !v.voice_mode {
            "VOICE MODE — Tap [SPACE] to speak"@
        } else {
            "TEXT MODE — Type and press [ENTER]"@
        },
        ..v
    }
}

pub open spec fn request_view(r: Option<Request>) -> Option<RequestView> {
    match r {
        Some(q) => Some(q@),
        None => None,
    }
}

/// What `str::to_uppercase` returns for a string: its Unicode uppercase
/// mapping.
pub uninterp spec fn uppercase(s: Seq<char>) -> Seq<char>;

/// Trusted: calls `str::to_uppercase`, whose result depends on the string
/// alone; the claim is only that it is `uppercase` of the argument (the
/// Unicode case mapping is not stated).
#[verifier::external_body]
fn to_uppercase(s: &str) -> (r: String)
    ensures
        r@ == uppercase(s@),
{
    s.to_uppercase()
}

/// The model's name as shown in the header, such as `GEMMA-4-E4B`.
pub open spec fn model_display_text(model_id: Seq<char>) -> Seq<char> {
    "GEMMA-4-"@ + uppercase(model_id)
}

proof fn lemma_push_view(m: Seq<ChatMessage>, x: ChatMessage)
    ensures
        messages_view(m.push(x)) == messages_view(m).push(x@),
{
    assert(messages_view(m.push(x)) =~= messages_view(m).push(x@));
}

impl App {
    /// The application as it starts, for the chosen model.
    pub fn new(model_id: String) -> (app: App)
        ensures
            app@ == initial(model_id@),
    {
        let app = App {
            state: State::Booting,
            input: String::new(),
            messages: Vec::new(),
            current_response: String::new(),
            voice_mode: false,
            boot_step: 0,
            loading_pct: 0,
            should_quit: false,
            status: "BOOTING...".to_string(),
            recording: false,
            pending_tool: None,
            model_id,
        };
        assert(app@.messages =~= Seq::<MessageView>::empty());
        app
    }

    /// The model's name as shown in the header.
    pub fn model_display(&self) -> (r: String)
        ensures
            r@ == model_display_text(self.model_id@),
    {
        let up = to_uppercase(self.model_id.as_str());
        concat2("GEMMA-4-", up.as_str())
    }

    fn push_message(&mut self, role: &str, content: String)
        ensures
            final(self)@ == (AppView {
                messages: old(self)@.messages.push(MessageView { role: role@, content: content@ }),
                ..old(self)@
            }),
    {
        let m = ChatMessage { role: role.to_string(), content };
        proof {
            lemma_push_view(self.messages@, m);
        }
        self.messages.push(m);
    }

    /// Shows one more line of the boot sequence.
    pub fn tick_boot(&mut self)
        requires
            old(self).boot_step < usize::MAX,
        ensures
            final(self)@ == after_tick_boot(old(self)@),
    {
        self.boot_step += 1;
        if self.boot_step >= BOOT_LINE_COUNT {
            self.state = State::Loading;
            self.status = "LOADING NEURAL CORE...".to_string();
        }
    }

    /// Checks whether the model has loaded; `received` is the message that
    /// arrived since the last check, if any.
    pub fn check_ready(&mut self, received: Option<Response>)
        ensures
            final(self)@ == after_check_ready(old(self)@, received matches Some(Response::Ready)),
    {
        if let Some(Response::Ready) = received {
            self.loading_pct = 100;
            self.state = State::Idle;
            self.status = "ONLINE — Type or press [SPACE] to speak".to_string();
        } else {
            if self.loading_pct < 60 {
                self.loading_pct = self.loading_pct + 3;
            } else if self.loading_pct < 92 {
                self.loading_pct = self.loading_pct + 1;
            }
            let digits = decimal_string(self.loading_pct as u64);
            let mut s = concat2("LOADING NEURAL CORE... ", digits.as_str());
            s.append("%");
            self.status = s;
        }
    }

    /// Sends the typed text; returns the message for the model, if any.
    pub fn submit_text(&mut self) -> (r: Option<Request>)
        ensures
            (final(self)@, request_view(r)) == after_submit(old(self)@),
    {
        let content = trim_str(self.input.as_str());
        if content.as_str().is_empty() {
            return None;
        }
        let sent = content.clone();
        self.push_message("user", content);
        self.input = String::new();
        self.current_response = String::new();
        self.state = State::Processing;
        self.status = "PROCESSING...".to_string();
        Some(Request::Text { content: sent })
    }

    /// Records whether the microphone started.
    pub fn start_recording(&mut self, started: bool)
        ensures
            final(self)@ == after_start_recording(old(self)@, started),
    {
        if started {
            self.state = State::Recording;
            self.recording = true;
            self.status = "🎤 RECORDING 0s / 28s — [SPACE] to send".to_string();
        }
    }

    /// Ends a recording that captured `pcm` (the samples as raw bytes);
    /// returns the audio message for the model, if anything was captured.
    pub fn stop_recording(&mut self, pcm: &[u8]) -> (r: Option<Request>)
        requires
            base64_fits(pcm@.len()),
        ensures
            (final(self)@, request_view(r)) == after_stop_recording(old(self)@, pcm@),
    {
        self.recording = false;
        if pcm.len() == 0 {
            self.state = State::Idle;
            self.status = "ONLINE — No audio captured".to_string();
            return None;
        }
        proof {
            reveal_strlit("🎤 [voice input]");
            reveal_strlit("🎤 ");
            reveal_strlit("[voice input]");
            assert("🎤 [voice input]"@ =~= "🎤 "@ + voice_marker());
        }
        self.push_message("user", "🎤 [voice input]".to_string());
        self.current_response = String::new();
        self.state = State::Processing;
        self.status = "PROCESSING AUDIO...".to_string();
        let data = encode_base64(pcm);
        Some(Request::Audio { data })
    }

    /// Updates a running recording `secs` seconds after it started; returns
    /// whether the time limit is reached and the recording must stop.
    pub fn tick_recording(&mut self, secs: u64) -> (stop: bool)
        ensures
            (final(self)@, stop) == after_tick_recording(old(self)@, secs as nat),
    {
        if !self.recording {
            return false;
        }
        let digits = decimal_string(secs);
        let mut s = concat2("🎤 RECORDING ", digits.as_str());
        s.append("s / 28s — [SPACE] to send");
        self.status = s;
        secs >= MAX_RECORD_SECS
    }

    /// Handles one message from the model (`None` when none is waiting);
    /// returns whether to keep reading messages.
    pub fn poll_tokens(&mut self, received: Option<Response>) -> (more: bool)
        ensures
            match received {
                None => final(self)@ == old(self)@ && !more,
                Some(resp) => (final(self)@, more) == after_response(old(self)@, resp@),
            },
    {
        match received {
            None => false,
            Some(Response::Transcript { content }) => {
                self.apply_transcript(content);
                self.status = "TRANSCRIBED — GENERATING RESPONSE...".to_string();
                true
            },
            Some(Response::ToolCall { tool, args }) => {
                let display = describe_tool(tool.as_str(), &args);
                self.pending_tool = Some(PendingTool { tool, args, display });
                self.state = State::AwaitingApproval;
                self.status = "⚠ AWAITING APPROVAL — [Y] Approve  [N] Reject".to_string();
                false
            },
            Some(Response::Token { content }) => {
                self.state = State::Streaming;
                self.status = "TRANSMITTING...".to_string();
                self.current_response.append(content.as_str());
                true
            },
            Some(Response::Done) => {
                if !self.current_response.as_str().is_empty() {
                    let reply = self.current_response.clone();
                    self.push_message("ai", reply);
                }
                self.current_response = String::new();
                self.state = State::Idle;
                self.status = "ONLINE — Type or press [SPACE] to speak".to_string();
                false
            },
            Some(Response::Error { message }) => {
                let text = concat2("[ERROR] ", message.as_str());
                self.push_message("ai", text);
                self.current_response = String::new();
                self.state = State::Idle;
                self.status = "ERROR — See above".to_string();
                false
            },
            Some(Response::Ready) => false,
        }
    }

    fn apply_transcript(&mut self, transcript: String)
        ensures
            final(self)@ == (AppView {
                messages: transcribed(old(self)@.messages, transcript@),
                ..old(self)@
            }),
    {
        let n = self.messages.len();
        if n == 0 {
            return;
        }
        let is_user = same_text(self.messages[n - 1].role.as_str(), "user");
        let has_marker = contains_str(self.messages[n - 1].content.as_str(), "[voice input]");
        assert(self.messages@[n - 1]@ == messages_view(self.messages@).last());
        if is_user && has_marker {
            let role = self.messages[n - 1].role.clone();
            let content = concat2("🎤 ", transcript.as_str());
            let m = ChatMessage { role, content };
            let ghost before = self.messages@;
            self.messages.set(n - 1, m);
            assert(messages_view(self.messages@) =~= messages_view(before).update(
                n - 1,
                MessageView { role: before[n - 1].role@, content: "🎤 "@ + transcript@ },
            ));
        }
    }

    /// Approves the pending tool call; returns the job to carry out, if any.
    pub fn approve_tool(&mut self, home: &Home) -> (job: Option<ToolJob>)
        ensures
            final(self)@ == after_approve(old(self)@),
            match old(self)@.pending_tool {
                None => job is None,
                Some(p) => job matches Some(j) && j.tool@ == p.tool && j.plan@ == tool_plan(
                    p.tool,
                    p.args,
                    opt_view(home.lossy),
                    home.unicode@,
                ),
            },
    {
        match self.pending_tool.take() {
            None => None,
            Some(tool) => {
                let text = concat2("⚡ [APPROVED] ", tool.display.as_str());
                self.push_message("ai", text);
                let plan = plan_tool(tool.tool.as_str(), &tool.args, home);
                self.state = State::Processing;
                self.status = "EXECUTING...".to_string();
                Some(ToolJob { tool: tool.tool, plan })
            },
        }
    }

    /// Rejects the pending tool call; returns the message for the model, if
    /// there was a pending call.
    pub fn reject_tool(&mut self) -> (r: Option<Request>)
        ensures
            (final(self)@, request_view(r)) == after_reject(old(self)@),
    {
        match self.pending_tool.take() {
            None => None,
            Some(tool) => {
                let text = concat2("🚫 [REJECTED] ", tool.display.as_str());
                self.push_message("ai", text);
                self.state = State::Processing;
                self.status = "PROCESSING REJECTION...".to_string();
                proof {
                    reveal_strlit("");
                }
                Some(Request::ToolResult { tool: tool.tool, result: String::new(), approved: false })
            },
        }
    }

    /// Switches between voice and text input.
    pub fn toggle_voice(&mut self)
        ensures
            final(self)@ == after_toggle_voice(old(self)@),
    {
        self.voice_mode = !self.voice_mode;
        self.status = if self.voice_mode {
            "VOICE MODE — Tap [SPACE] to speak".to_string()
        } else {
            "TEXT MODE — Type and press [ENTER]".to_string()
        };
    }
}

} // verus!
