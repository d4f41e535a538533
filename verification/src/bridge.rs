use vstd::prelude::*;

verus! {

/// One of the Gemma 4 model variants that can be run.
pub struct ModelInfo {
    pub id: &'static str,
    pub name: &'static str,
    pub ram: &'static str,
    pub size: &'static str,
}

/// The number of model variants offered.
pub open spec fn model_count() -> nat {
    4
}

/// The identifier of the `i`-th model variant.
pub open spec fn model_id(i: int) -> Seq<char> {
    if i == 0 {
        "E2B"@
    } else if i == 1 {
        "E4B"@
    } else if i == 2 {
        "26B-A4B"@
    } else {
        "31B"@
    }
}

/// The display name, memory need and download size of the `i`-th model
/// variant.
pub open spec fn model_facts(i: int) -> (Seq<char>, Seq<char>, Seq<char>) {
    if i == 0 {
        ("Gemma 4 E2B"@, "~4 GB"@, "~5 GB"@)
    } else if i == 1 {
        ("Gemma 4 E4B"@, "~8 GB"@, "~9 GB"@)
    } else if i == 2 {
        ("Gemma 4 26B-A4B"@, "~18 GB"@, "~16 GB"@)
    } else {
        ("Gemma 4 31B"@, "~20 GB"@, "~20 GB"@)
    }
}

/// The available model variants, in the order the picker lists them.
pub fn models() -> (r: Vec<ModelInfo>)
    ensures
        r@.len() == model_count(),
        forall|i: int| 0 <= i < r@.len() ==> (#[trigger] r@[i]).id@ == model_id(i),
        forall|i: int|
            0 <= i < r@.len() ==> ((#[trigger] r@[i]).name@, r@[i].ram@, r@[i].size@)
                == model_facts(i),
{
    let mut r: Vec<ModelInfo> = Vec::new();
    r.push(ModelInfo { id: "E2B", name: "Gemma 4 E2B", ram: "~4 GB", size: "~5 GB" });
    r.push(ModelInfo { id: "E4B", name: "Gemma 4 E4B", ram: "~8 GB", size: "~9 GB" });
    r.push(ModelInfo { id: "26B-A4B", name: "Gemma 4 26B-A4B", ram: "~18 GB", size: "~16 GB" });
    r.push(ModelInfo { id: "31B", name: "Gemma 4 31B", ram: "~20 GB", size: "~20 GB" });
    r
}

/// The arguments of a tool call, as far as the application reads them:
/// the `path` and `command` members when they are strings, and the whole
/// argument object written as compact JSON.
pub struct ToolArgs {
    pub path: Option<String>,
    pub command: Option<String>,
    pub json: String,
}

pub struct ToolArgsView {
    pub path: Option<Seq<char>>,
    pub command: Option<Seq<char>>,
    pub json: Seq<char>,
}

pub open spec fn opt_view(o: Option<String>) -> Option<Seq<char>> {
    match o {
        Some(s) => Some(s@),
        None => None,
    }
}

impl View for ToolArgs {
    type V = ToolArgsView;

    open spec fn view(&self) -> ToolArgsView {
        ToolArgsView { path: opt_view(self.path), command: opt_view(self.command), json: self.json@ }
    }
}

/// A message sent to the inference process.
pub enum Request {
    Text { content: String },
    Audio { data: String },
    ToolResult { tool: String, result: String, approved: bool },
    Reset,
}

pub enum RequestView {
    Text { content: Seq<char> },
    Audio { data: Seq<char> },
    ToolResult { tool: Seq<char>, result: Seq<char>, approved: bool },
    Reset,
}

impl View for Request {
    type V = RequestView;

    open spec fn view(&self) -> RequestView {
        match self {
            Request::Text { content } => RequestView::Text { content: content@ },
            Request::Audio { data } => RequestView::Audio { data: data@ },
            Request::ToolResult { tool, result, approved } => RequestView::ToolResult {
                tool: tool@,
                result: result@,
                approved: *approved,
            },
            Request::Reset => RequestView::Reset,
        }
    }
}

/// A message received from the inference process.
pub enum Response {
    Ready,
    Transcript { content: String },
    Token { content: String },
    ToolCall { tool: String, args: ToolArgs },
    Done,
    Error { message: String },
}

pub enum ResponseView {
    Ready,
    Transcript { content: Seq<char> },
    Token { content: Seq<char> },
    ToolCall { tool: Seq<char>, args: ToolArgsView },
    Done,
    Error { message: Seq<char> },
}

impl View for Response {
    type V = ResponseView;

    open spec fn view(&self) -> ResponseView {
        match self {
            Response::Ready => ResponseView::Ready,
            Response::Transcript { content } => ResponseView::Transcript { content: content@ },
            Response::Token { content } => ResponseView::Token { content: content@ },
            Response::ToolCall { tool, args } => ResponseView::ToolCall { tool: tool@, args: args@ },
            Response::Done => ResponseView::Done,
            Response::Error { message } => ResponseView::Error { message: message@ },
        }
    }
}

/// What waiting for the model to load does with one received message.
pub enum WaitReady {
    /// The model is loaded.
    Ready,
    /// Loading failed; the message says why.
    Failed(String),
    /// Keep waiting.
    Waiting,
}

pub open spec fn init_error_text(message: Seq<char>) -> Seq<char> {
    "Inference error during init: "@ + message
}

pub open spec fn died_text() -> Seq<char> {
    "Inference process died during init"@
}

/// One step of waiting for the model to load: `received` is the next
/// message, or `None` when the inference process has closed its output.
pub fn wait_ready_step(received: Option<Response>) -> (r: WaitReady)
    ensures
        match received {
            None => r matches WaitReady::Failed(m) && m@ == died_text(),
            Some(Response::Ready) => r is Ready,
            Some(Response::Error { message }) => r matches WaitReady::Failed(m) && m@
                == init_error_text(message@),
            Some(_) => r is Waiting,
        },
{
    match received {
        None => WaitReady::Failed("Inference process died during init".to_string()),
        Some(Response::Ready) => WaitReady::Ready,
        Some(Response::Error { message }) => {
            let mut m = "Inference error during init: ".to_string();
            m.append(message.as_str());
            WaitReady::Failed(m)
        },
        Some(_) => WaitReady::Waiting,
    }
}

} // verus!
