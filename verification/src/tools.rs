//! The agents' project workspace: where a project's files live, what a
//! write reports, and how a shell command's output is reported back.
use vstd::prelude::*;
use crate::bots::{safe_name, safe_project_name};
use crate::history::{parse_u64_digits, u64_digits};
use crate::json::{member, str_of, JsonValue};
use crate::text::{
    at_boundary, byte_len, byte_len_of, byte_prefix, chars_of, chars_within_bytes, dec,
    i64_decimal, push_str, same_text, sdec, string_from, string_of, u64_decimal,
};

verus! {

#[verifier::external_type_specification]
#[verifier::external_body]
pub struct ExPathBuf(std::path::PathBuf);

/// A project's isolated directory for generated code.
#[derive(Debug)]
pub struct Workspace {
    pub root: std::path::PathBuf,
    pub project_name: String,
}

/// Calls `Path::join`: `base` with `name` appended as a component.
/// Nothing is claimed of the path (it is opaque here).
#[verifier::external_body]
fn join_path(base: &std::path::PathBuf, name: &str) -> std::path::PathBuf {
    base.join(name)
}

impl Workspace {
    /// The workspace for project `project_name` under `base`: the name
    /// made directory-safe, and the directory of that name in `base`.
    pub fn layout(base: &std::path::PathBuf, project_name: &str) -> (r: Workspace)
        ensures
            r.project_name@ == safe_name(project_name@),
    {
        let safe = safe_project_name(project_name);
        let root = join_path(base, safe.as_str());
        Workspace { root, project_name: safe }
    }
}

/// What writing `content_bytes` bytes to `path` reports.
pub open spec fn write_report_text(path: Seq<char>, content_bytes: nat) -> Seq<char> {
    "Wrote "@ + path + " ("@ + dec(content_bytes) + " bytes)"@
}

/// The report for writing `content_bytes` bytes to `path`.
pub fn write_report(path: &str, content_bytes: u64) -> (r: String)
    ensures
        r@ == write_report_text(path@, content_bytes as nat),
{
    let mut r = string_from("Wrote ");
    push_str(&mut r, path);
    push_str(&mut r, " (");
    let d = u64_decimal(content_bytes);
    push_str(&mut r, d.as_str());
    push_str(&mut r, " bytes)");
    r
}

/// The longest shell report kept, in bytes.
pub const SHELL_OUTPUT_LIMIT: u128 = 8000;

/// A command's output as reported: its stdout, then its stderr marked
/// `[stderr] ` (on a new line after stdout), then the exit code when the
/// command failed (`-1` when it has none).
pub open spec fn shell_text(stdout: Seq<char>, stderr: Seq<char>, success: bool, code: Option<i32>) -> Seq<char> {
    let out = stdout;
    let with_err = if stderr.len() == 0 {
        out
    } else {
        (if out.len() == 0 {
            out
        } else {
            out + "\n"@
        }) + "[stderr] "@ + stderr
    };
    if success {
        with_err
    } else {
        with_err + "\n[exit code: "@ + sdec(
            match code {
                Some(c) => c as int,
                None => -1,
            },
        ) + "]"@
    }
}

/// The report, cut to its first 8000 bytes and marked when longer.
pub open spec fn shell_report_text(stdout: Seq<char>, stderr: Seq<char>, success: bool, code: Option<i32>) -> Seq<char> {
    let t = shell_text(stdout, stderr, success, code);
    if byte_len(t) > 8000 {
        byte_prefix(t, 8000) + "\n... (truncated)"@
    } else {
        t
    }
}

/// Whether the 8000-byte cut falls on a character boundary (else the
/// byte-indexed `String::truncate` would not be valid there).
pub open spec fn shell_cut_ok(stdout: Seq<char>, stderr: Seq<char>, success: bool, code: Option<i32>) -> bool {
    let t = shell_text(stdout, stderr, success, code);
    byte_len(t) > 8000 ==> at_boundary(t, 8000)
}

/// Report a finished command's output (`stdout` and `stderr` decoded,
/// whether it succeeded, its exit code).
pub fn shell_report(stdout: &str, stderr: &str, success: bool, code: Option<i32>) -> (r: String)
    requires
        shell_cut_ok(stdout@, stderr@, success, code),
    ensures
        r@ == shell_report_text(stdout@, stderr@, success, code),
{
    let mut result = string_from(stdout);
    let err = chars_of(stderr);
    if err.len() > 0 {
        let out = chars_of(result.as_str());
        if out.len() > 0 {
            push_str(&mut result, "\n");
        }
        push_str(&mut result, "[stderr] ");
        push_str(&mut result, stderr);
    }
    if !success {
        let c: i64 = match code {
            Some(c) => c as i64,
            None => -1,
        };
        push_str(&mut result, "\n[exit code: ");
        let d = i64_decimal(c);
        push_str(&mut result, d.as_str());
        push_str(&mut result, "]");
    }
    let rc = chars_of(result.as_str());
    let bytes = byte_len_of(rc.as_slice());
    if bytes > SHELL_OUTPUT_LIMIT {
        let cut = chars_within_bytes(rc.as_slice(), SHELL_OUTPUT_LIMIT);
        let mut r = string_of(cut.as_slice());
        push_str(&mut r, "\n... (truncated)");
        return r;
    }
    result
}

/// A tool call from the model, decoded.
#[derive(Debug, Clone, PartialEq, Eq)]
pub enum ToolCall {
    /// Write `content` to `path` in the workspace.
    WriteFile { path: String, content: String },
    /// Read `path` from the workspace.
    ReadFile { path: String },
    /// List the workspace's files.
    ListFiles,
    /// Run `command` in the workspace, for at most `timeout_secs`.
    Shell { command: String, timeout_secs: u64 },
    /// Deploy the workspace.
    Deploy,
}

/// The string member `k` of a tool's input, or `dflt` when it is missing
/// or not a string.
pub open spec fn input_str(input: JsonValue, k: Seq<char>, dflt: Seq<char>) -> Seq<char> {
    match str_of(member(input, k)) {
        Some(s) => s,
        None => dflt,
    }
}

/// The unsigned integer member `k` of a tool's input, or `dflt` when it
/// is missing or not a non-negative integer that fits a `u64`.
pub open spec fn input_u64(input: JsonValue, k: Seq<char>, dflt: nat) -> nat {
    match member(input, k) {
        Some(JsonValue::Number(n)) => match u64_digits(n@) {
            Some(v) => v,
            None => dflt,
        },
        _ => dflt,
    }
}

fn str_member(input: &JsonValue, k: &str, dflt: &str) -> (r: String)
    ensures
        r@ == input_str(*input, k@, dflt@),
{
    match input.get(k) {
        Some(v) => match v.as_str() {
            Some(s) => string_from(s),
            None => string_from(dflt),
        },
        None => string_from(dflt),
    }
}

/// The error for a tool the agent does not have.
pub open spec fn unknown_tool_text(name: Seq<char>) -> Seq<char> {
    "Unknown tool: "@ + name
}

/// Decode the model's call of tool `name` with `input`: `write_file`
/// (path defaulting to `unnamed.txt`, content to empty), `read_file`,
/// `list_files`, `shell` (command defaulting to `echo 'no command'`,
/// timeout to 30 seconds) and `deploy`; any other name is an error.
pub fn decode_tool_call(name: &str, input: &JsonValue) -> (r: Result<ToolCall, String>)
    ensures
        match r {
            Ok(ToolCall::WriteFile { path, content }) => name@ == "write_file"@ && path@ == input_str(
                *input,
                "path"@,
                "unnamed.txt"@,
            ) && content@ == input_str(*input, "content"@, ""@),
            Ok(ToolCall::ReadFile { path }) => name@ == "read_file"@ && path@ == input_str(*input, "path"@, ""@),
            Ok(ToolCall::ListFiles) => name@ == "list_files"@,
            Ok(ToolCall::Shell { command, timeout_secs }) => name@ == "shell"@ && command@ == input_str(
                *input,
                "command"@,
                "echo 'no command'"@,
            ) && timeout_secs == input_u64(*input, "timeout"@, 30),
            Ok(ToolCall::Deploy) => name@ == "deploy"@,
            Err(e) => name@ != "write_file"@ && name@ != "read_file"@ && name@ != "list_files"@ && name@
                != "shell"@ && name@ != "deploy"@ && e@ == unknown_tool_text(name@),
        },
{
    let n = chars_of(name);
    if same_text(n.as_slice(), "write_file") {
        let path = str_member(input, "path", "unnamed.txt");
        let content = str_member(input, "content", "");
        Ok(ToolCall::WriteFile { path, content })
    } else if same_text(n.as_slice(), "read_file") {
        Ok(ToolCall::ReadFile { path: str_member(input, "path", "") })
    } else if same_text(n.as_slice(), "list_files") {
        Ok(ToolCall::ListFiles)
    } else if same_text(n.as_slice(), "shell") {
        let command = str_member(input, "command", "echo 'no command'");
        let timeout_secs = match input.get("timeout") {
            Some(JsonValue::Number(t)) => match parse_u64_digits(chars_of(t.as_str()).as_slice()) {
                Some(v) => v,
                None => 30,
            },
            _ => 30,
        };
        Ok(ToolCall::Shell { command, timeout_secs })
    } else if same_text(n.as_slice(), "deploy") {
        Ok(ToolCall::Deploy)
    } else {
        let mut e = string_from("Unknown tool: ");
        push_str(&mut e, name);
        Err(e)
    }
}

} // verus!
