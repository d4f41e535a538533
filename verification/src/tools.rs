use vstd::prelude::*;

use crate::bridge::{opt_view, Request, RequestView, ToolArgs, ToolArgsView};
use crate::text::{
    byte_len, byte_len_exec, byte_prefix, chars_of, concat2, concat3, decimal, decimal_string,
    is_byte_boundary, join, prefix_of_bytes, replace_all, replace_str, same_text, signed_decimal,
    signed_decimal_string, starts_with, starts_with_str, string_of_range, trim, trim_str,
};

verus! {

// ---------------------------------------------------------------------------
// How a tool call is shown to the user
// ---------------------------------------------------------------------------

/// `o`'s text, or `d` when there is none.
pub open spec fn or_text(o: Option<Seq<char>>, d: Seq<char>) -> Seq<char> {
    match o {
        Some(s) => s,
        None => d,
    }
}

/// The one-line description of a requested tool call shown in the approval
/// popup.
pub open spec fn tool_display(tool: Seq<char>, args: ToolArgsView) -> Seq<char> {
    if tool == "open_file"@ {
        "OPEN: "@ + or_text(args.path, "?"@)
    } else if tool == "read_file"@ {
        "READ: "@ + or_text(args.path, "?"@)
    } else if tool == "list_directory"@ {
        "LIST: "@ + or_text(args.path, "?"@)
    } else if tool == "run_command"@ {
        "EXEC: "@ + or_text(args.command, "?"@)
    } else if tool == "analyze_image"@ {
        "VISION: "@ + or_text(args.path, "?"@)
    } else {
        tool + ": "@ + args.json
    }
}

/// `o`'s text, or `d`.
fn text_or(o: &Option<String>, d: &str) -> (r: String)
    ensures
        r@ == or_text(opt_view(*o), d@),
{
    match o {
        Some(s) => s.clone(),
        None => d.to_string(),
    }
}

/// Describes a requested tool call for the approval popup.
pub fn describe_tool(tool: &str, args: &ToolArgs) -> (r: String)
    ensures
        r@ == tool_display(tool@, args@),
{
    if same_text(tool, "open_file") {
        concat2("OPEN: ", text_or(&args.path, "?").as_str())
    } else if same_text(tool, "read_file") {
        concat2("READ: ", text_or(&args.path, "?").as_str())
    } else if same_text(tool, "list_directory") {
        concat2("LIST: ", text_or(&args.path, "?").as_str())
    } else if same_text(tool, "run_command") {
        concat2("EXEC: ", text_or(&args.command, "?").as_str())
    } else if same_text(tool, "analyze_image") {
        concat2("VISION: ", text_or(&args.path, "?").as_str())
    } else {
        concat3(tool, ": ", args.json.as_str())
    }
}

// ---------------------------------------------------------------------------
// Planning a tool call
// ---------------------------------------------------------------------------

/// The home directory as the environment gives it: `lossy` is `HOME` read as
/// an OS string and converted lossily (absent when unset); `unicode` is
/// `HOME` read as Unicode, empty when unset or not valid Unicode.
pub struct Home {
    pub lossy: Option<String>,
    pub unicode: String,
}

/// A path with a leading `~/` expanded to the home directory, when the home
/// directory is known.
pub open spec fn expand_home(path: Seq<char>, home: Option<Seq<char>>) -> Seq<char> {
    if starts_with(path, "~/"@) && home is Some {
        home->0 + path.skip(1)
    } else {
        path
    }
}

/// A shell command with `~/` expanded to the home directory: first after a
/// double quote, then after a single quote, then anywhere.
pub open spec fn expand_command(cmd: Seq<char>, home: Seq<char>) -> Seq<char> {
    let c1 = replace_all(cmd, "\"~/"@, "\""@ + home + "/"@);
    let c2 = replace_all(c1, "'~/"@, "'"@ + home + "/"@);
    replace_all(c2, "~/"@, home + "/"@)
}

/// Expands a leading `~/` in a path.
pub fn shellexpand(path: &str, home: &Option<String>) -> (r: String)
    ensures
        r@ == expand_home(path@, opt_view(*home)),
{
    proof {
        reveal_strlit("~/");
    }
    if starts_with_str(path, "~/") {
        match home {
            Some(h) => {
                let v = chars_of(path);
                let rest = string_of_range(&v, 1, v.len());
                assert(v@.subrange(1, v@.len() as int) =~= path@.skip(1));
                return concat2(h.as_str(), rest.as_str());
            },
            None => {},
        }
    }
    path.to_string()
}

/// Expands `~/` in a shell command.
pub fn expand_command_home(cmd: &str, home: &str) -> (r: String)
    ensures
        r@ == expand_command(cmd@, home@),
{
    proof {
        reveal_strlit("\"~/");
        reveal_strlit("'~/");
        reveal_strlit("~/");
    }
    let to1 = concat3("\"", home, "/");
    let c1 = replace_str(cmd, "\"~/", to1.as_str());
    let to2 = concat3("'", home, "/");
    let c2 = replace_str(c1.as_str(), "'~/", to2.as_str());
    let to3 = concat2(home, "/");
    replace_str(c2.as_str(), "~/", to3.as_str())
}

/// What carrying out a tool call asks of the system.
pub enum ToolPlan {
    /// Open the path with the desktop's default application.
    Open { path: String },
    /// Read the file at the path as text.
    Read { path: String },
    /// List the directory at the path.
    List { path: String },
    /// Run the command with `sh -c`.
    Run { command: String },
    /// Nothing to do: the result is this text.
    Reply { text: String },
}

pub enum ToolPlanView {
    Open { path: Seq<char> },
    Read { path: Seq<char> },
    List { path: Seq<char> },
    Run { command: Seq<char> },
    Reply { text: Seq<char> },
}

impl View for ToolPlan {
    type V = ToolPlanView;

    open spec fn view(&self) -> ToolPlanView {
        match self {
            ToolPlan::Open { path } => ToolPlanView::Open { path: path@ },
            ToolPlan::Read { path } => ToolPlanView::Read { path: path@ },
            ToolPlan::List { path } => ToolPlanView::List { path: path@ },
            ToolPlan::Run { command } => ToolPlanView::Run { command: command@ },
            ToolPlan::Reply { text } => ToolPlanView::Reply { text: text@ },
        }
    }
}

/// What a tool call does, from the tool's name, its arguments and the home
/// directory. A missing `path` or `command` counts as empty.
pub open spec fn tool_plan(
    tool: Seq<char>,
    args: ToolArgsView,
    home_lossy: Option<Seq<char>>,
    home_unicode: Seq<char>,
) -> ToolPlanView {
    let path = expand_home(or_text(args.path, seq![]), home_lossy);
    if tool == "open_file"@ {
        ToolPlanView::Open { path }
    } else if tool == "read_file"@ {
        ToolPlanView::Read { path }
    } else if tool == "list_directory"@ {
        ToolPlanView::List { path }
    } else if tool == "run_command"@ {
        ToolPlanView::Run { command: expand_command(or_text(args.command, seq![]), home_unicode) }
    } else if tool == "analyze_image"@ {
        ToolPlanView::Reply { text: args.json }
    } else {
        ToolPlanView::Reply { text: "Unknown tool: "@ + tool }
    }
}

/// Decides what carrying out a tool call takes.
pub fn plan_tool(tool: &str, args: &ToolArgs, home: &Home) -> (r: ToolPlan)
    ensures
        r@ == tool_plan(tool@, args@, opt_view(home.lossy), home.unicode@),
{
    proof {
        reveal_strlit("");
        assert(""@ =~= Seq::<char>::empty());
    }
    let path_arg = text_or(&args.path, "");
    let path = shellexpand(path_arg.as_str(), &home.lossy);
    if same_text(tool, "open_file") {
        ToolPlan::Open { path }
    } else if same_text(tool, "read_file") {
        ToolPlan::Read { path }
    } else if same_text(tool, "list_directory") {
        ToolPlan::List { path }
    } else if same_text(tool, "run_command") {
        let cmd = text_or(&args.command, "");
        ToolPlan::Run { command: expand_command_home(cmd.as_str(), home.unicode.as_str()) }
    } else if same_text(tool, "analyze_image") {
        ToolPlan::Reply { text: args.json.clone() }
    } else {
        ToolPlan::Reply { text: concat2("Unknown tool: ", tool) }
    }
}

/// An approved tool call, ready to be carried out.
pub struct ToolJob {
    pub tool: String,
    pub plan: ToolPlan,
}

impl ToolJob {
    /// The message that reports the call's result back to the model.
    pub fn complete(self, result: String) -> (r: Request)
        ensures
            r@ == (RequestView::ToolResult { tool: self.tool@, result: result@, approved: true }),
    {
        Request::ToolResult { tool: self.tool, result, approved: true }
    }
}

// ---------------------------------------------------------------------------
// Turning what the system reported into the result text
// ---------------------------------------------------------------------------

/// Results longer than this many bytes are cut.
pub const OUTPUT_LIMIT: usize = 2000;

/// The text reported for opening `path`; `error` describes a failure.
pub open spec fn open_text(path: Seq<char>, error: Option<Seq<char>>) -> Seq<char> {
    match error {
        None => "Opened: "@ + path,
        Some(e) => "Failed to open: "@ + e,
    }
}

/// The text reported for reading a file whose contents are `content`; `None`
/// when the cut at `OUTPUT_LIMIT` bytes would split a character.
pub open spec fn read_text(content: Seq<char>) -> Option<Seq<char>> {
    if byte_len(content) > OUTPUT_LIMIT {
        if is_byte_boundary(content, OUTPUT_LIMIT as int) {
            Some(prefix_of_bytes(content, OUTPUT_LIMIT as int) + "...\n[truncated, "@ + decimal(
                byte_len(content),
            ) + " bytes total]"@)
        } else {
            None
        }
    } else {
        Some(content)
    }
}

/// One directory entry: its name, and whether it is a directory.
pub struct DirEntryInfo {
    pub name: String,
    pub is_dir: bool,
}

/// How one directory entry is listed: directories end with `/`.
pub open spec fn entry_label(e: DirEntryInfo) -> Seq<char> {
    if e.is_dir {
        e.name@ + "/"@
    } else {
        e.name@
    }
}

/// At most this many directory entries are listed.
pub const LIST_LIMIT: usize = 50;

/// The listing of a directory: the first `LIST_LIMIT` entries, one per line.
pub open spec fn list_text(entries: Seq<DirEntryInfo>) -> Seq<char> {
    let shown = if entries.len() > LIST_LIMIT {
        entries.take(LIST_LIMIT as int)
    } else {
        entries
    };
    join(shown.map_values(|e: DirEntryInfo| entry_label(e)), "\n"@)
}

/// What running a shell command produced: its output and error output
/// (decoded lossily), whether it succeeded, and its exit code if it has one.
pub struct CommandOutput {
    pub stdout: String,
    pub stderr: String,
    pub success: bool,
    pub code: Option<i32>,
}

pub open spec fn exit_code(code: Option<i32>) -> int {
    match code {
        Some(c) => c as int,
        None => -1,
    }
}

/// The text of a finished command before it is cut: its output, then its
/// error output when there is any; a failed command with no visible output
/// is reported with its exit code instead.
pub open spec fn command_text(o: CommandOutput) -> Seq<char> {
    let base = if o.stderr@.len() == 0 {
        o.stdout@
    } else {
        o.stdout@ + "\nSTDERR: "@ + o.stderr@
    };
    if !o.success && trim(base).len() == 0 {
        "Command failed (exit "@ + signed_decimal(exit_code(o.code))
            + "). HINT: If file paths contain spaces, wrap them in quotes."@
    } else {
        base
    }
}

/// The text reported for a finished command, cut at `OUTPUT_LIMIT` bytes;
/// `None` when the cut would split a character.
pub open spec fn run_text(o: CommandOutput) -> Option<Seq<char>> {
    let t = command_text(o);
    if byte_len(t) > OUTPUT_LIMIT {
        if is_byte_boundary(t, OUTPUT_LIMIT as int) {
            Some(prefix_of_bytes(t, OUTPUT_LIMIT as int) + "...[truncated]"@)
        } else {
            None
        }
    } else {
        Some(t)
    }
}

/// Reports the outcome of opening `path`.
pub fn open_result(path: &str, outcome: Result<(), String>) -> (r: String)
    ensures
        r@ == open_text(
            path@,
            match outcome {
                Ok(_) => None,
                Err(e) => Some(e@),
            },
        ),
{
    match outcome {
        Ok(_) => concat2("Opened: ", path),
        Err(e) => concat2("Failed to open: ", e.as_str()),
    }
}

/// Reports the outcome of reading a file. `None` where the cut at
/// `OUTPUT_LIMIT` bytes would split a character.
pub fn read_result(outcome: Result<String, String>) -> (r: Option<String>)
    ensures
        match outcome {
            Ok(c) => opt_view(r) == read_text(c@),
            Err(e) => opt_view(r) == Some("Failed to read: "@ + e@),
        },
{
    match outcome {
        Err(e) => Some(concat2("Failed to read: ", e.as_str())),
        Ok(content) => {
            let n = byte_len_exec(content.as_str());
            if n > OUTPUT_LIMIT {
                match byte_prefix(content.as_str(), OUTPUT_LIMIT) {
                    Some(p) => {
                        let total = decimal_string(n as u64);
                        let mut r = concat2(p.as_str(), "...\n[truncated, ");
                        r.append(total.as_str());
                        r.append(" bytes total]");
                        Some(r)
                    },
                    None => None,
                }
            } else {
                Some(content)
            }
        },
    }
}

/// The label of one directory entry.
fn label_of(e: &DirEntryInfo) -> (r: String)
    ensures
        r@ == entry_label(*e),
{
    if e.is_dir {
        concat2(e.name.as_str(), "/")
    } else {
        e.name.clone()
    }
}

/// Reports the outcome of listing a directory.
pub fn list_result(outcome: Result<Vec<DirEntryInfo>, String>) -> (r: String)
    ensures
        match outcome {
            Ok(entries) => r@ == list_text(entries@),
            Err(e) => r@ == "Failed to list: "@ + e@,
        },
{
    match outcome {
        Err(e) => concat2("Failed to list: ", e.as_str()),
        Ok(entries) => {
            let n = if entries.len() > LIST_LIMIT {
                LIST_LIMIT
            } else {
                entries.len()
            };
            let ghost shown = entries@.take(n as int);
            let ghost labels = shown.map_values(|e: DirEntryInfo| entry_label(e));
            assert(n == entries.len() ==> shown =~= entries@);
            let mut r = String::new();
            let mut i: usize = 0;
            while i < n
                invariant
                    n <= entries.len(),
                    i <= n,
                    shown == entries@.take(n as int),
                    labels == shown.map_values(|e: DirEntryInfo| entry_label(e)),
                    r@ == join(labels.take(i as int), "\n"@),
                decreases n - i,
            {
                let label = label_of(&entries[i]);
                assert(labels.take(i + 1).drop_last() =~= labels.take(i as int));
                assert(labels[i as int] == entry_label(entries@[i as int]));
                if i > 0 {
                    r.append("\n");
                }
                r.append(label.as_str());
                i += 1;
            }
            assert(labels.take(n as int) =~= labels);
            r
        },
    }
}

/// The text of a finished command before it is cut.
fn command_text_exec(o: &CommandOutput) -> (r: String)
    ensures
        r@ == command_text(*o),
{
    let mut base = o.stdout.clone();
    if !o.stderr.as_str().is_empty() {
        base.append("\nSTDERR: ");
        base.append(o.stderr.as_str());
    }
    let trimmed = trim_str(base.as_str());
    if !o.success && trimmed.as_str().is_empty() {
        let code: i64 = match o.code {
            Some(c) => c as i64,
            None => -1,
        };
        let digits = signed_decimal_string(code);
        let mut r = concat2("Command failed (exit ", digits.as_str());
        r.append("). HINT: If file paths contain spaces, wrap them in quotes.");
        r
    } else {
        base
    }
}

/// Reports the outcome of running a command. `None` where the cut at
/// `OUTPUT_LIMIT` bytes would split a character.
pub fn run_result(outcome: Result<CommandOutput, String>) -> (r: Option<String>)
    ensures
        match outcome {
            Ok(o) => opt_view(r) == run_text(o),
            Err(e) => opt_view(r) == Some("Failed to execute: "@ + e@),
        },
{
    match outcome {
        Err(e) => Some(concat2("Failed to execute: ", e.as_str())),
        Ok(o) => {
            let t = command_text_exec(&o);
            if byte_len_exec(t.as_str()) > OUTPUT_LIMIT {
                match byte_prefix(t.as_str(), OUTPUT_LIMIT) {
                    Some(p) => Some(concat2(p.as_str(), "...[truncated]")),
                    None => None,
                }
            } else {
                Some(t)
            }
        },
    }
}

} // verus!
