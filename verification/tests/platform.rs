use codex_ios_platform::buffer::{
    host_message_from_output, write_buffer, CALLBACK_MESSAGE_CAPACITY, CALLBACK_OUTPUT_CAPACITY,
};
use codex_ios_platform::platform::{
    accepts_callbacks, call_with_output, doctor_report_output, generic_unsupported_message,
    status_to_result, unsupported_error, CallOutcome, CodexIosProcessPurpose, CodexIosStatus,
    IosPlatformError, ProcessPurpose, TerminalSize, CODEX_IOS_PLATFORM_CALLBACKS_VERSION,
    OPERATION_JAVASCRIPT_RUNTIME, OPERATION_PROCESS_SPAWN, OPERATION_SHELL_SNAPSHOT,
};

#[test]
fn generic_message_names_operation() {
    assert_eq!(
        generic_unsupported_message(OPERATION_PROCESS_SPAWN),
        "iOS platform operation `process.spawn` is unsupported"
    );
}

#[test]
fn unsupported_error_prefers_host_message() {
    assert_eq!(
        unsupported_error(OPERATION_SHELL_SNAPSHOT, Some("swift handled shell.snapshot".to_string())),
        IosPlatformError::Unsupported("swift handled shell.snapshot".to_string())
    );
}

#[test]
fn unsupported_error_falls_back_to_generic_message() {
    assert_eq!(
        unsupported_error(OPERATION_JAVASCRIPT_RUNTIME, None),
        IosPlatformError::Unsupported(
            "iOS platform operation `javascript.runtime` is unsupported".to_string()
        )
    );
}

#[test]
fn error_message_is_its_text() {
    assert_eq!(IosPlatformError::Error("boom".to_string()).message(), "boom");
    assert_eq!(IosPlatformError::Unsupported("no".to_string()).message(), "no");
    assert_ne!(
        IosPlatformError::Error("x".to_string()),
        IosPlatformError::Unsupported("x".to_string())
    );
}

#[test]
fn callbacks_accepted_only_for_current_version_and_size() {
    assert_eq!(CODEX_IOS_PLATFORM_CALLBACKS_VERSION, 3);
    assert!(accepts_callbacks(3, 200, 200));
    assert!(accepts_callbacks(3, 256, 200));
    assert!(!accepts_callbacks(3, 199, 200));
    assert!(!accepts_callbacks(2, 200, 200));
}

#[test]
fn accepted_call_reads_output() {
    match call_with_output(OPERATION_SHELL_SNAPSHOT, CodexIosStatus::Accepted, b"snapshot\0\0") {
        CallOutcome::Finished(Ok(text)) => assert_eq!(text, "snapshot"),
        other => panic!("unexpected {other:?}"),
    }
}

#[test]
fn failed_call_carries_output_or_generic_message() {
    match call_with_output(OPERATION_SHELL_SNAPSHOT, CodexIosStatus::Error, b"bad shell\0") {
        CallOutcome::Finished(Err(e)) => assert_eq!(e, IosPlatformError::Error("bad shell".to_string())),
        other => panic!("unexpected {other:?}"),
    }
    match call_with_output(OPERATION_SHELL_SNAPSHOT, CodexIosStatus::Error, &[0u8; 4]) {
        CallOutcome::Finished(Err(e)) => assert_eq!(
            e,
            IosPlatformError::Error("iOS platform operation `shell.snapshot` is unsupported".to_string())
        ),
        other => panic!("unexpected {other:?}"),
    }
}

#[test]
fn unsupported_call_defers_to_unsupported_error() {
    assert!(matches!(
        call_with_output(OPERATION_SHELL_SNAPSHOT, CodexIosStatus::Unsupported, b"x\0"),
        CallOutcome::Unsupported
    ));
}

#[test]
fn status_to_result_drops_output() {
    assert!(matches!(
        status_to_result(OPERATION_PROCESS_SPAWN, CodexIosStatus::Accepted, b"ignored\0"),
        CallOutcome::Finished(Ok(()))
    ));
    match status_to_result(OPERATION_PROCESS_SPAWN, CodexIosStatus::Error, b"nope\0") {
        CallOutcome::Finished(Err(e)) => assert_eq!(e, IosPlatformError::Error("nope".to_string())),
        other => panic!("unexpected {other:?}"),
    }
}

#[test]
fn doctor_report_empty_output_is_none() {
    assert_eq!(doctor_report_output(String::new()), None);
    assert_eq!(doctor_report_output("report".to_string()), Some("report".to_string()));
}

#[test]
fn process_purpose_maps_to_host_purpose() {
    assert_eq!(ProcessPurpose::CommandExec.ffi(), CodexIosProcessPurpose::CommandExec);
    assert_eq!(ProcessPurpose::ProcessSpawn.ffi(), CodexIosProcessPurpose::ProcessSpawn);
    assert_eq!(ProcessPurpose::ShellTool.ffi(), CodexIosProcessPurpose::ShellTool);
    assert_eq!(ProcessPurpose::FsSandbox.ffi(), CodexIosProcessPurpose::FsSandbox);
    assert_eq!(ProcessPurpose::HookCommand.ffi(), CodexIosProcessPurpose::HookCommand);
    assert_eq!(ProcessPurpose::McpStdio.ffi(), CodexIosProcessPurpose::McpStdio);
}

#[test]
fn terminal_size_maps_to_host_size() {
    let size = TerminalSize { cols: 80, rows: 24 }.ffi();
    assert_eq!((size.cols, size.rows), (80, 24));
}

#[test]
fn host_override_message_becomes_unsupported_error() {
    let mut buffer = Some(vec![0u8; CALLBACK_MESSAGE_CAPACITY]);
    let written = write_buffer(&mut buffer, "swift handled shell.snapshot");
    let host_message = host_message_from_output(buffer.unwrap(), written);
    assert_eq!(
        unsupported_error(OPERATION_SHELL_SNAPSHOT, host_message),
        IosPlatformError::Unsupported("swift handled shell.snapshot".to_string())
    );
}

#[test]
fn typed_callback_output_written_by_host_is_returned() {
    let mut output = Some(vec![0u8; CALLBACK_OUTPUT_CAPACITY]);
    write_buffer(&mut output, "snapshot");
    match call_with_output(OPERATION_SHELL_SNAPSHOT, CodexIosStatus::Accepted, &output.unwrap()) {
        CallOutcome::Finished(Ok(text)) => assert_eq!(text, "snapshot"),
        other => panic!("unexpected {other:?}"),
    }
}

#[test]
fn unsupported_message_uses_callback_override() {
    let mut buffer = Some(vec![0u8; CALLBACK_MESSAGE_CAPACITY]);
    let written = write_buffer(&mut buffer, &format!("swift handled {}", OPERATION_PROCESS_SPAWN));
    assert_eq!(
        host_message_from_output(buffer.unwrap(), written),
        Some("swift handled process.spawn".to_string())
    );
}

#[test]
fn typed_shell_snapshot_callback_returns_output() {
    let payload = codex_ios_platform::payloads::shell_snapshot_payload("zsh", "echo ok", "/tmp");
    assert_eq!(payload, "{\"shell\":\"zsh\",\"script\":\"echo ok\",\"cwd\":\"/tmp\"}");
    let mut output = Some(vec![0u8; CALLBACK_OUTPUT_CAPACITY]);
    write_buffer(&mut output, "snapshot");
    match call_with_output(OPERATION_SHELL_SNAPSHOT, CodexIosStatus::Accepted, &output.unwrap()) {
        CallOutcome::Finished(Ok(text)) => assert_eq!(text, "snapshot".to_string()),
        other => panic!("unexpected {other:?}"),
    }
}

#[test]
fn typed_callback_falls_back_to_unsupported_message() {
    let mut buffer = Some(vec![0u8; CALLBACK_MESSAGE_CAPACITY]);
    let written = write_buffer(&mut buffer, &format!("swift handled {}", OPERATION_SHELL_SNAPSHOT));
    assert_eq!(
        unsupported_error(OPERATION_SHELL_SNAPSHOT, host_message_from_output(buffer.unwrap(), written)),
        IosPlatformError::Unsupported("swift handled shell.snapshot".to_string())
    );
}

#[test]
fn platform_error_clones() {
    let error = IosPlatformError::Error("boom".to_string());
    assert_eq!(error.clone(), error);
}
