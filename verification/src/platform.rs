//! The platform interface between Codex and the iOS host: statuses, error
//! values, unsupported-operation messages, what a typed callback's status and
//! output amount to, and the payloads that describe each operation.
use std::collections::HashMap;
use vstd::prelude::*;

use crate::buffer::{c_string_bytes, read_buffer, utf8_lossy};
use crate::text::push_str;

verus! {

/// ABI version of the host's callback table.
pub const CODEX_IOS_PLATFORM_CALLBACKS_VERSION: u32 = 3;

/// Callback operation for app-server `command/exec` requests.
pub const OPERATION_COMMAND_EXEC: &'static str = "command.exec";

/// Callback operation for local process execution.
pub const OPERATION_PROCESS_SPAWN: &'static str = "process.spawn";

/// Callback operation for internal git command execution.
pub const OPERATION_GIT_COMMAND: &'static str = "git.command";

/// Callback operation for git apply helpers.
pub const OPERATION_GIT_APPLY: &'static str = "git.apply";

/// Callback operation for git staging helpers.
pub const OPERATION_GIT_STAGE: &'static str = "git.stage";

/// Callback operation for shell snapshot generation.
pub const OPERATION_SHELL_SNAPSHOT: &'static str = "shell.snapshot";

/// Callback operation for hook command execution.
pub const OPERATION_HOOK_COMMAND: &'static str = "hook.command";

/// Callback operation for local stdio MCP server launch.
pub const OPERATION_MCP_STDIO: &'static str = "mcp.stdio";

/// Callback operation for doctor-report subprocess collection.
pub const OPERATION_FEEDBACK_DOCTOR_REPORT: &'static str = "feedback.doctorReport";

/// Callback operation for the code-mode JavaScript runtime.
pub const OPERATION_JAVASCRIPT_RUNTIME: &'static str = "javascript.runtime";

/// What a host callback reports.
#[derive(Clone, Copy, Debug, PartialEq, Eq, Structural)]
pub enum CodexIosStatus {
    Accepted,
    Unsupported,
    Error,
}

/// Why the host is asked to start a process, as the host sees it.
#[derive(Clone, Copy, Debug, PartialEq, Eq, Structural)]
pub enum CodexIosProcessPurpose {
    CommandExec,
    ProcessSpawn,
    ShellTool,
    FsSandbox,
    HookCommand,
    McpStdio,
}

/// A terminal size, as the host sees it.
#[derive(Clone, Copy, Debug, PartialEq, Eq, Structural)]
pub struct CodexIosTerminalSize {
    pub cols: u16,
    pub rows: u16,
}

/// Why a process is started.
#[derive(Clone, Copy, Debug, PartialEq, Eq, Structural)]
pub enum ProcessPurpose {
    CommandExec,
    ProcessSpawn,
    ShellTool,
    FsSandbox,
    HookCommand,
    McpStdio,
}

/// What the host needs to start a process.
pub struct ProcessSpawnConfig<'a> {
    pub purpose: ProcessPurpose,
    pub program: &'a str,
    pub args: &'a [String],
    pub cwd: &'a str,
    pub env: &'a HashMap<String, String>,
    pub arg0: Option<&'a str>,
    pub tty: bool,
    pub stream_stdin: bool,
    pub size: TerminalSize,
}

/// A terminal size in columns and rows.
#[derive(Clone, Copy, Debug, Default, PartialEq, Eq, Structural)]
pub struct TerminalSize {
    pub cols: u16,
    pub rows: u16,
}

impl ProcessPurpose {
    /// The host's name for this purpose.
    pub fn ffi(self) -> (p: CodexIosProcessPurpose)
        ensures
            p == self.ffi_spec(),
    {
        match self {
            ProcessPurpose::CommandExec => CodexIosProcessPurpose::CommandExec,
            ProcessPurpose::ProcessSpawn => CodexIosProcessPurpose::ProcessSpawn,
            ProcessPurpose::ShellTool => CodexIosProcessPurpose::ShellTool,
            ProcessPurpose::FsSandbox => CodexIosProcessPurpose::FsSandbox,
            ProcessPurpose::HookCommand => CodexIosProcessPurpose::HookCommand,
            ProcessPurpose::McpStdio => CodexIosProcessPurpose::McpStdio,
        }
    }

    pub open spec fn ffi_spec(self) -> CodexIosProcessPurpose {
        match self {
            ProcessPurpose::CommandExec => CodexIosProcessPurpose::CommandExec,
            ProcessPurpose::ProcessSpawn => CodexIosProcessPurpose::ProcessSpawn,
            ProcessPurpose::ShellTool => CodexIosProcessPurpose::ShellTool,
            ProcessPurpose::FsSandbox => CodexIosProcessPurpose::FsSandbox,
            ProcessPurpose::HookCommand => CodexIosProcessPurpose::HookCommand,
            ProcessPurpose::McpStdio => CodexIosProcessPurpose::McpStdio,
        }
    }
}

impl TerminalSize {
    /// The host's form of this size.
    pub fn ffi(self) -> (s: CodexIosTerminalSize)
        ensures
            s.cols == self.cols,
            s.rows == self.rows,
    {
        CodexIosTerminalSize { cols: self.cols, rows: self.rows }
    }
}

/// Why a platform operation did not succeed.
#[derive(Debug, Clone)]
pub enum IosPlatformError {
    /// The host does not support the operation; the text is user-visible.
    Unsupported(String),
    /// The host reported a failure.
    Error(String),
}

impl IosPlatformError {
    /// The text carried by the error.
    pub open spec fn text(self) -> Seq<char> {
        match self {
            IosPlatformError::Unsupported(m) => m@,
            IosPlatformError::Error(m) => m@,
        }
    }

    /// The error's message, as it is displayed.
    pub fn message(&self) -> (m: String)
        ensures
            m@ == self.text(),
    {
        match self {
            IosPlatformError::Unsupported(m) => m.clone(),
            IosPlatformError::Error(m) => m.clone(),
        }
    }
}

impl PartialEq for IosPlatformError {
    fn eq(&self, other: &Self) -> (r: bool) {
        match (self, other) {
            (IosPlatformError::Unsupported(a), IosPlatformError::Unsupported(b)) => a.eq(b),
            (IosPlatformError::Error(a), IosPlatformError::Error(b)) => a.eq(b),
            _ => false,
        }
    }
}

impl vstd::std_specs::cmp::PartialEqSpecImpl for IosPlatformError {
    open spec fn obeys_eq_spec() -> bool {
        true
    }

    open spec fn eq_spec(&self, other: &Self) -> bool {
        match (self, other) {
            (IosPlatformError::Unsupported(a), IosPlatformError::Unsupported(b)) => a@ == b@,
            (IosPlatformError::Error(a), IosPlatformError::Error(b)) => a@ == b@,
            _ => false,
        }
    }
}

impl Eq for IosPlatformError {}

/// The default message for an operation that the host does not support.
pub open spec fn generic_unsupported_message_spec(operation: Seq<char>) -> Seq<char> {
    "iOS platform operation `"@ + operation + "` is unsupported"@
}

/// The default message for an operation that the host does not support.
pub fn generic_unsupported_message(operation: &str) -> (m: String)
    ensures
        m@ == generic_unsupported_message_spec(operation@),
{
    let mut m = String::new();
    push_str(&mut m, "iOS platform operation `");
    push_str(&mut m, operation);
    push_str(&mut m, "` is unsupported");
    assert(m@ =~= generic_unsupported_message_spec(operation@));
    m
}

/// The text of the error for an unsupported operation: the host's own
/// message where it gave one, the default message otherwise.
pub open spec fn unsupported_text(operation: Seq<char>, host_message: Option<String>) -> Seq<char> {
    match host_message {
        Some(m) => m@,
        None => generic_unsupported_message_spec(operation),
    }
}

/// The error for an unsupported operation: the host's own message where its
/// unsupported-operation callback gave one, the default message otherwise.
pub fn unsupported_error(operation: &str, host_message: Option<String>) -> (e: IosPlatformError)
    ensures
        e is Unsupported,
        e.text() == unsupported_text(operation@, host_message),
{
    match host_message {
        Some(m) => IosPlatformError::Unsupported(m),
        None => IosPlatformError::Unsupported(generic_unsupported_message(operation)),
    }
}

/// Whether a callback table offered by the host is taken: its ABI version
/// must be the current one and it must be at least as large as this crate's
/// table.
pub fn accepts_callbacks(version: u32, struct_size: usize, table_size: usize) -> (ok: bool)
    ensures
        ok == (version == CODEX_IOS_PLATFORM_CALLBACKS_VERSION && struct_size >= table_size),
{
    version == CODEX_IOS_PLATFORM_CALLBACKS_VERSION && struct_size >= table_size
}

/// What a typed callback's status and output amount to.
#[derive(Debug)]
pub enum CallOutcome<T> {
    /// The call is over, with this result.
    Finished(Result<T, IosPlatformError>),
    /// The host reported the operation unsupported: the result is
    /// `unsupported_error` with what the unsupported-operation callback says.
    Unsupported,
}

/// The message of a callback that reported an error: what it wrote to its
/// buffer, or the default message when it wrote nothing.
pub open spec fn error_text(operation: Seq<char>, output: Seq<u8>) -> Seq<char> {
    if utf8_lossy(c_string_bytes(output)).len() == 0 {
        generic_unsupported_message_spec(operation)
    } else {
        utf8_lossy(c_string_bytes(output))
    }
}

fn error_from_output(operation: &str, output: &[u8]) -> (e: IosPlatformError)
    ensures
        e is Error,
        e.text() == error_text(operation@, output@),
{
    let message = read_buffer(output);
    if message.as_str().is_empty() {
        IosPlatformError::Error(generic_unsupported_message(operation))
    } else {
        IosPlatformError::Error(message)
    }
}

/// What a typed callback that returned `status` after writing `output` amounts to.
pub fn call_with_output(operation: &str, status: CodexIosStatus, output: &[u8]) -> (r: CallOutcome<String>)
    ensures
        status == CodexIosStatus::Accepted ==> (r matches CallOutcome::Finished(Ok(text)) && text@ == utf8_lossy(c_string_bytes(output@))),
        status == CodexIosStatus::Unsupported ==> r is Unsupported,
        status == CodexIosStatus::Error ==> (r matches CallOutcome::Finished(Err(e)) && e is Error && e.text() == error_text(operation@, output@)),
{
    match status {
        CodexIosStatus::Accepted => CallOutcome::Finished(Ok(read_buffer(output))),
        CodexIosStatus::Unsupported => CallOutcome::Unsupported,
        CodexIosStatus::Error => CallOutcome::Finished(Err(error_from_output(operation, output))),
    }
}

/// What a typed callback without a result text amounts to: as
/// `call_with_output`, its text dropped.
pub fn status_to_result(operation: &str, status: CodexIosStatus, output: &[u8]) -> (r: CallOutcome<()>)
    ensures
        status == CodexIosStatus::Accepted ==> r matches CallOutcome::Finished(Ok(())),
        status == CodexIosStatus::Unsupported ==> r is Unsupported,
        status == CodexIosStatus::Error ==> (r matches CallOutcome::Finished(Err(e)) && e is Error && e.text() == error_text(operation@, output@)),
{
    match call_with_output(operation, status, output) {
        CallOutcome::Finished(Ok(_)) => CallOutcome::Finished(Ok(())),
        CallOutcome::Finished(Err(e)) => CallOutcome::Finished(Err(e)),
        CallOutcome::Unsupported => CallOutcome::Unsupported,
    }
}

/// The doctor report a host produced: none when it wrote nothing.
pub fn doctor_report_output(output: String) -> (report: Option<String>)
    ensures
        output@.len() == 0 ==> report is None,
        output@.len() > 0 ==> report == Some(output),
{
    if output.as_str().is_empty() {
        None
    } else {
        Some(output)
    }
}

} // verus!
