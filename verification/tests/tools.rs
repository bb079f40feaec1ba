use freeq::json::JsonValue;
use freeq::tools::{decode_tool_call, shell_report, write_report, ToolCall, Workspace};

#[test]
fn workspace_names_are_directory_safe() {
    let base = std::path::PathBuf::from("/tmp/ws");
    let w = Workspace::layout(&base, "My App/../x");
    assert_eq!(w.project_name, "My-App----x");
    assert_eq!(w.root, std::path::PathBuf::from("/tmp/ws/My-App----x"));
}

#[test]
fn write_reports_bytes() {
    assert_eq!(write_report("src/main.rs", 120), "Wrote src/main.rs (120 bytes)");
    assert_eq!(write_report("a", 0), "Wrote a (0 bytes)");
}

#[test]
fn shell_reports_streams_and_status() {
    assert_eq!(shell_report("ok\n", "", true, Some(0)), "ok\n");
    assert_eq!(shell_report("", "boom", false, Some(2)), "[stderr] boom\n[exit code: 2]");
    assert_eq!(shell_report("out", "err", true, None), "out\n[stderr] err");
    assert_eq!(shell_report("", "", false, None), "\n[exit code: -1]");
}

#[test]
fn shell_reports_are_truncated() {
    let big = "y".repeat(9000);
    let r = shell_report(&big, "", true, Some(0));
    assert_eq!(r, "y".repeat(8000) + "\n... (truncated)");
}

fn input(ms: Vec<(&str, JsonValue)>) -> JsonValue {
    JsonValue::Object(ms.into_iter().map(|(k, v)| (k.to_string(), v)).collect())
}

#[test]
fn tool_calls_decode_with_defaults() {
    assert_eq!(
        decode_tool_call("write_file", &input(vec![("content", JsonValue::Str("x".into()))])),
        Ok(ToolCall::WriteFile { path: "unnamed.txt".into(), content: "x".into() })
    );
    assert_eq!(
        decode_tool_call("read_file", &input(vec![("path", JsonValue::Str("src/main.rs".into()))])),
        Ok(ToolCall::ReadFile { path: "src/main.rs".into() })
    );
    assert_eq!(decode_tool_call("list_files", &JsonValue::Null), Ok(ToolCall::ListFiles));
    assert_eq!(
        decode_tool_call("shell", &input(vec![("timeout", JsonValue::Number("120".into()))])),
        Ok(ToolCall::Shell { command: "echo 'no command'".into(), timeout_secs: 120 })
    );
    assert_eq!(
        decode_tool_call(
            "shell",
            &input(vec![("command", JsonValue::Str("ls".into())), ("timeout", JsonValue::Number("-1".into()))])
        ),
        Ok(ToolCall::Shell { command: "ls".into(), timeout_secs: 30 })
    );
    assert_eq!(decode_tool_call("deploy", &JsonValue::Null), Ok(ToolCall::Deploy));
    assert_eq!(decode_tool_call("rm_rf", &JsonValue::Null), Err("Unknown tool: rm_rf".to_string()));
}
