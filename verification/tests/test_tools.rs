use terminator::bridge::ToolArgs;
use terminator::tools::{
    describe_tool, expand_command_home, list_result, open_result, plan_tool, read_result,
    run_result, shellexpand, CommandOutput, DirEntryInfo, Home, ToolPlan,
};

fn args(path: Option<&str>, command: Option<&str>, json: &str) -> ToolArgs {
    ToolArgs {
        path: path.map(|s| s.to_string()),
        command: command.map(|s| s.to_string()),
        json: json.to_string(),
    }
}

fn home() -> Home {
    Home { lossy: Some("/Users/t".to_string()), unicode: "/Users/t".to_string() }
}

#[test]
fn display_of_each_tool() {
    let a = args(Some("/tmp/x"), Some("ls"), "{\"path\":\"/tmp/x\"}");
    assert_eq!(describe_tool("open_file", &a), "OPEN: /tmp/x");
    assert_eq!(describe_tool("read_file", &a), "READ: /tmp/x");
    assert_eq!(describe_tool("list_directory", &a), "LIST: /tmp/x");
    assert_eq!(describe_tool("run_command", &a), "EXEC: ls");
    assert_eq!(describe_tool("analyze_image", &a), "VISION: /tmp/x");
    assert_eq!(describe_tool("mystery", &a), "mystery: {\"path\":\"/tmp/x\"}");
}

#[test]
fn display_without_arguments_shows_question_mark() {
    let a = args(None, None, "{}");
    assert_eq!(describe_tool("open_file", &a), "OPEN: ?");
    assert_eq!(describe_tool("run_command", &a), "EXEC: ?");
}

#[test]
fn shellexpand_replaces_leading_tilde() {
    let h = Some("/Users/t".to_string());
    assert_eq!(shellexpand("~/Downloads/x.pdf", &h), "/Users/t/Downloads/x.pdf");
    assert_eq!(shellexpand("/abs/~/x", &h), "/abs/~/x");
    assert_eq!(shellexpand("~", &h), "~");
    assert_eq!(shellexpand("~/x", &None), "~/x");
}

#[test]
fn command_tilde_expansion() {
    assert_eq!(expand_command_home("ls ~/a \"~/b\" '~/c'", "/h"), "ls /h/a \"/h/b\" '/h/c'");
    assert_eq!(expand_command_home("echo ~user", "/h"), "echo ~user");
    assert_eq!(expand_command_home("cat ~/x", ""), "cat /x");
}

#[test]
fn plans_for_each_tool() {
    let a = args(Some("~/f"), Some("ls ~/"), "{\"path\":\"~/f\"}");
    match plan_tool("open_file", &a, &home()) {
        ToolPlan::Open { path } => assert_eq!(path, "/Users/t/f"),
        _ => panic!(),
    }
    match plan_tool("list_directory", &a, &home()) {
        ToolPlan::List { path } => assert_eq!(path, "/Users/t/f"),
        _ => panic!(),
    }
    match plan_tool("run_command", &a, &home()) {
        ToolPlan::Run { command } => assert_eq!(command, "ls /Users/t/"),
        _ => panic!(),
    }
    match plan_tool("analyze_image", &a, &home()) {
        ToolPlan::Reply { text } => assert_eq!(text, "{\"path\":\"~/f\"}"),
        _ => panic!(),
    }
    match plan_tool("fly", &a, &home()) {
        ToolPlan::Reply { text } => assert_eq!(text, "Unknown tool: fly"),
        _ => panic!(),
    }
    match plan_tool("read_file", &args(None, None, "{}"), &home()) {
        ToolPlan::Read { path } => assert_eq!(path, ""),
        _ => panic!(),
    }
}

#[test]
fn open_results() {
    assert_eq!(open_result("/x", Ok(())), "Opened: /x");
    assert_eq!(open_result("/x", Err("denied".to_string())), "Failed to open: denied");
}

#[test]
fn read_results() {
    assert_eq!(read_result(Ok("short".to_string())).unwrap(), "short");
    assert_eq!(read_result(Err("missing".to_string())).unwrap(), "Failed to read: missing");
    let long = "a".repeat(2500);
    let r = read_result(Ok(long)).unwrap();
    assert_eq!(r, format!("{}...\n[truncated, 2500 bytes total]", "a".repeat(2000)));
    let exact = "b".repeat(2000);
    assert_eq!(read_result(Ok(exact.clone())).unwrap(), exact);
}

#[test]
fn read_result_refuses_to_split_a_character() {
    // 1999 ASCII bytes, then a two-byte character across the 2000-byte cut.
    let s = format!("{}é tail", "a".repeat(1999));
    assert!(read_result(Ok(s)).is_none());
    // The cut falls between characters.
    let t = format!("{}é tail", "a".repeat(1998));
    let r = read_result(Ok(t)).unwrap();
    assert!(r.starts_with(&format!("{}é...\n[truncated, ", "a".repeat(1998))));
}

#[test]
fn list_results() {
    let entries = vec![
        DirEntryInfo { name: "docs".to_string(), is_dir: true },
        DirEntryInfo { name: "a.txt".to_string(), is_dir: false },
    ];
    assert_eq!(list_result(Ok(entries)), "docs/\na.txt");
    assert_eq!(list_result(Ok(vec![])), "");
    assert_eq!(list_result(Err("nope".to_string())), "Failed to list: nope");
    let many: Vec<DirEntryInfo> =
        (0..60).map(|i| DirEntryInfo { name: format!("f{i}"), is_dir: false }).collect();
    let listed = list_result(Ok(many));
    assert_eq!(listed.lines().count(), 50);
    assert!(listed.ends_with("f49"));
}

fn output(stdout: &str, stderr: &str, success: bool, code: Option<i32>) -> CommandOutput {
    CommandOutput { stdout: stdout.to_string(), stderr: stderr.to_string(), success, code }
}

#[test]
fn run_results() {
    assert_eq!(run_result(Ok(output("hi\n", "", true, Some(0)))).unwrap(), "hi\n");
    assert_eq!(run_result(Ok(output("hi", "warn", true, Some(0)))).unwrap(), "hi\nSTDERR: warn");
    assert_eq!(
        run_result(Ok(output("  \n", "", false, Some(2)))).unwrap(),
        "Command failed (exit 2). HINT: If file paths contain spaces, wrap them in quotes."
    );
    assert_eq!(
        run_result(Ok(output("", "", false, None))).unwrap(),
        "Command failed (exit -1). HINT: If file paths contain spaces, wrap them in quotes."
    );
    assert_eq!(run_result(Ok(output("out", "", false, Some(1)))).unwrap(), "out");
    assert_eq!(run_result(Err("no sh".to_string())).unwrap(), "Failed to execute: no sh");
}

#[test]
fn run_result_is_cut_at_2000_bytes() {
    let r = run_result(Ok(output(&"x".repeat(3000), "", true, Some(0)))).unwrap();
    assert_eq!(r, format!("{}...[truncated]", "x".repeat(2000)));
    let split = format!("{}€", "x".repeat(1999));
    assert!(run_result(Ok(output(&split, "", true, Some(0)))).is_none());
}
