use codex_ios_platform::code_mode::{
    bridge_for_handle, disabled_message, disabled_payload, ffi_error, finish_response,
    invoke_tool_reply, is_terminal, notify_reply, read_ffi_string, response_cell_id,
    runtime_failure, wait_response, CellTokens, HostString, RuntimeFailure, RuntimeResponse,
    SessionLifecycle, WaitOutcome,
};
use codex_ios_platform::platform::{CodexIosStatus, IosPlatformError};
use codex_ios_platform::registry::HandleRegistry;

#[test]
fn token_is_shared_per_cell() {
    let mut cells = CellTokens::new();
    let first = cells.token("cell-1");
    let again = cells.token("cell-1");
    let other = cells.token("cell-2");
    assert_eq!(first, again);
    assert_ne!(first, other);
    assert_eq!(cells.cell_ids(), vec!["cell-1".to_string(), "cell-2".to_string()]);
}

#[test]
fn closing_a_cell_cancels_and_forgets_its_token() {
    let mut cells = CellTokens::new();
    let token = cells.token("cell-1");
    let other = cells.token("cell-2");
    assert!(cells.close_cell("cell-1"));
    assert!(token.is_cancelled());
    assert!(!other.is_cancelled());
    assert!(!cells.close_cell("cell-1"));
    assert_eq!(cells.cell_ids(), vec!["cell-2".to_string()]);
    let fresh = cells.token("cell-1");
    assert!(!fresh.is_cancelled());
}

#[test]
fn terminal_responses_close_their_cell() {
    let mut cells = CellTokens::new();
    let token = cells.token("c");
    let yielded = RuntimeResponse::Yielded { cell_id: "c".to_string() };
    assert!(!is_terminal(&yielded));
    assert_eq!(finish_response(&mut cells, &yielded), None);
    assert!(!token.is_cancelled());
    let done = RuntimeResponse::Result { cell_id: "c".to_string() };
    assert!(is_terminal(&done));
    assert_eq!(response_cell_id(&done), "c");
    assert_eq!(finish_response(&mut cells, &done), Some("c".to_string()));
    assert!(token.is_cancelled());
    assert!(cells.cell_ids().is_empty());
    let terminated = RuntimeResponse::Terminated { cell_id: "gone".to_string() };
    assert_eq!(finish_response(&mut cells, &terminated), Some("gone".to_string()));
}

#[test]
fn wait_outcome_exposes_response() {
    let outcome = WaitOutcome::MissingCell(RuntimeResponse::Terminated { cell_id: "x".to_string() });
    assert_eq!(response_cell_id(wait_response(&outcome)), "x");
}

#[test]
fn lifecycle_creates_runtime_session_once() {
    let mut life = SessionLifecycle::new();
    assert!(life.is_alive());
    assert!(life.needs_runtime_session());
    assert_eq!(
        life.record_runtime_session(Err(IosPlatformError::Error("no runtime".to_string()))),
        Err("no runtime".to_string())
    );
    assert!(life.needs_runtime_session());
    assert_eq!(life.record_runtime_session(Ok(())), Ok(()));
    assert!(!life.needs_runtime_session());
    assert!(life.shut_down());
    assert!(!life.is_alive());
}

#[test]
fn shutting_down_uninitialized_session_skips_runtime() {
    let mut life = SessionLifecycle::new();
    assert!(!life.shut_down());
    assert!(!life.is_alive());
}

#[test]
fn runtime_failures() {
    assert!(matches!(
        runtime_failure(IosPlatformError::Error("bad".to_string())),
        RuntimeFailure::Failed(m) if m == "bad"
    ));
    assert!(matches!(
        runtime_failure(IosPlatformError::Unsupported("no".to_string())),
        RuntimeFailure::Disabled
    ));
}

#[test]
fn disabled_message_and_payload() {
    assert_eq!(disabled_payload(None), "{}");
    assert_eq!(disabled_payload(Some("{\"action\":\"wait\"}".to_string())), "{\"action\":\"wait\"}");
    assert_eq!(
        disabled_message(None),
        "iOS platform operation `javascript.runtime` is unsupported"
    );
    assert_eq!(disabled_message(Some("host says no".to_string())), "host says no");
}

#[test]
fn unknown_session_is_named() {
    let mut sessions = HandleRegistry::new();
    sessions.insert(7, "bridge");
    assert_eq!(bridge_for_handle(&sessions, 7), Ok(&"bridge"));
    assert_eq!(
        bridge_for_handle(&sessions, 42),
        Err("unknown iOS code-mode session 42".to_string())
    );
    assert_eq!(
        bridge_for_handle(&sessions, u64::MAX),
        Err("unknown iOS code-mode session 18446744073709551615".to_string())
    );
}

#[test]
fn host_strings() {
    assert_eq!(read_ffi_string(HostString::Null { len: 0 }), Ok(String::new()));
    assert_eq!(
        read_ffi_string(HostString::Null { len: 3 }),
        Err("invalid null iOS string".to_string())
    );
    assert_eq!(read_ffi_string(HostString::Bytes(b"cell".to_vec())), Ok("cell".to_string()));
    let err = read_ffi_string(HostString::Bytes(vec![0xff, 0xfe])).unwrap_err();
    assert_eq!(err, String::from_utf8(vec![0xff, 0xfe]).unwrap_err().to_string());
}

#[test]
fn ffi_error_writes_message_or_notice() {
    let mut roomy = Some(vec![1u8; 8]);
    assert_eq!(ffi_error(&mut roomy, "boom"), CodexIosStatus::Error);
    assert_eq!(roomy, Some(vec![b'b', b'o', b'o', b'm', 0, 1, 1, 1]));

    let notice = "iOS code-mode response exceeded its buffer";
    let mut medium = Some(vec![1u8; notice.len() + 1]);
    assert_eq!(ffi_error(&mut medium, &"x".repeat(100)), CodexIosStatus::Error);
    let mut expected = notice.as_bytes().to_vec();
    expected.push(0);
    assert_eq!(medium, Some(expected));

    let mut tiny = Some(vec![1u8; 2]);
    assert_eq!(ffi_error(&mut tiny, "boom"), CodexIosStatus::Error);
    assert_eq!(tiny, Some(vec![1u8; 2]));
}

#[test]
fn tool_replies() {
    let mut buffer = Some(vec![0u8; 16]);
    assert_eq!(invoke_tool_reply(&mut buffer, Ok("{\"ok\":1}".to_string())), CodexIosStatus::Accepted);
    assert_eq!(&buffer.as_ref().unwrap()[..9], b"{\"ok\":1}\0");

    let mut small = Some(vec![0u8; 64]);
    assert_eq!(invoke_tool_reply(&mut small, Ok("y".repeat(100))), CodexIosStatus::Error);
    assert_eq!(
        codex_ios_platform::buffer::read_buffer(small.as_ref().unwrap()),
        "iOS code-mode tool response is too large"
    );

    let mut failed = Some(vec![0u8; 16]);
    assert_eq!(invoke_tool_reply(&mut failed, Err("denied".to_string())), CodexIosStatus::Error);
    assert_eq!(codex_ios_platform::buffer::read_buffer(failed.as_ref().unwrap()), "denied");
}

#[test]
fn notify_replies() {
    let mut buffer = Some(vec![5u8; 8]);
    assert_eq!(notify_reply(&mut buffer, Ok(())), CodexIosStatus::Accepted);
    assert_eq!(buffer, Some(vec![5u8; 8]));
    assert_eq!(notify_reply(&mut buffer, Err("late".to_string())), CodexIosStatus::Error);
    assert_eq!(codex_ios_platform::buffer::read_buffer(buffer.as_ref().unwrap()), "late");
}

#[test]
fn closing_all_cells_cancels_every_token() {
    let mut cells = CellTokens::new();
    let a = cells.token("a");
    let b = cells.token("b");
    assert_eq!(cells.close_all(), vec!["a".to_string(), "b".to_string()]);
    assert!(a.is_cancelled());
    assert!(b.is_cancelled());
    assert!(cells.cell_ids().is_empty());
    assert!(cells.close_all().is_empty());
}

#[test]
fn new_cell_gets_its_own_token() {
    let mut cells = CellTokens::new();
    let a = cells.token("a");
    let b = cells.token("b");
    assert_ne!(a, b);
    assert!(cells.close_cell("b"));
    assert!(b.is_cancelled());
    assert!(!a.is_cancelled());
}

#[test]
fn cancelling_a_cell_keeps_its_cancelled_token() {
    let mut cells = CellTokens::new();
    let a = cells.token("a");
    cells.cancel_cell("a");
    assert!(a.is_cancelled());
    assert!(cells.token("a").is_cancelled());
    cells.cancel_cell("b");
    assert!(cells.token("b").is_cancelled());
    assert_eq!(cells.cell_ids(), vec!["a".to_string(), "b".to_string()]);
    assert!(cells.close_cell("b"));
    assert!(!cells.token("b").is_cancelled());
}
