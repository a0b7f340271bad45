use codex_ios_platform::app_server::{
    frame_line, initialize_client_name, request_stop, request_stop_status, start_handle,
    stop_status, take_for_stop,
    ReaderStep, ServerExit, StdioReader,
};
use codex_ios_platform::process::{
    finish_spawn, process_exited, process_failed, process_failure, process_output, OutputStream,
    ProcessEvent,
};
use codex_ios_platform::platform::{CallOutcome, CodexIosStatus, IosPlatformError};
use codex_ios_platform::registry::{HandleCounter, HandleRegistry};

#[test]
fn start_rejects_negative_descriptors_without_taking_a_handle() {
    let mut counter = HandleCounter::new();
    assert_eq!(start_handle(-1, 4, &mut counter), None);
    assert_eq!(start_handle(3, -1, &mut counter), None);
    assert_eq!(start_handle(3, 4, &mut counter), Some(1));
    assert_eq!(start_handle(3, 4, &mut counter), Some(2));
}

#[test]
fn counter_hands_out_consecutive_handles() {
    let mut counter = HandleCounter::new();
    assert_eq!(counter.next_handle(), 1);
    assert_eq!(counter.next_handle(), 2);
    assert_eq!(counter.next_handle(), 3);
}

#[test]
fn stop_statuses() {
    assert_eq!(request_stop_status(true), 0);
    assert_eq!(request_stop_status(false), -1);
    assert_eq!(stop_status(None), -1);
    assert_eq!(stop_status(Some(ServerExit::Clean)), 0);
    assert_eq!(stop_status(Some(ServerExit::Failed)), -2);
    assert_eq!(stop_status(Some(ServerExit::Panicked)), -3);
}

#[test]
fn client_name_only_from_initialize() {
    assert_eq!(initialize_client_name("initialize", Some("vscode".to_string())), Some("vscode".to_string()));
    assert_eq!(initialize_client_name("initialized", Some("vscode".to_string())), None);
    assert_eq!(initialize_client_name("initialize", None), None);
}

#[test]
fn reader_reports_client_name_once() {
    let mut reader = StdioReader::new();
    assert!(matches!(reader.on_line(None), ReaderStep::Forward { client_name: None }));
    assert!(matches!(
        reader.on_line(Some("first".to_string())),
        ReaderStep::Forward { client_name: Some(name) } if name == "first"
    ));
    assert!(matches!(
        reader.on_line(Some("second".to_string())),
        ReaderStep::Forward { client_name: None }
    ));
}

#[test]
fn reader_stops_when_processor_is_gone_or_input_ends() {
    let reader = StdioReader::new();
    assert!(matches!(reader.on_forwarded(true), ReaderStep::ReadNext));
    assert!(matches!(reader.on_forwarded(false), ReaderStep::Close));
    assert!(matches!(reader.on_end(), ReaderStep::Close));
}

#[test]
fn outgoing_lines_end_with_newline() {
    assert_eq!(frame_line("{\"id\":1}".to_string()), "{\"id\":1}\n");
}

#[test]
fn registry_read_after_write() {
    let mut registry = HandleRegistry::new();
    registry.insert(1, "one");
    registry.insert(2, "two");
    registry.insert(1, "uno");
    assert_eq!(registry.get(1), Some(&"uno"));
    assert!(registry.contains(2));
    assert_eq!(registry.remove(2), Some("two"));
    assert_eq!(registry.remove(2), None);
    assert!(!registry.contains(2));
}

#[test]
fn failed_spawn_forgets_process() {
    let mut processes = HandleRegistry::new();
    processes.insert(5, "pending");
    assert!(matches!(
        finish_spawn(&mut processes, 5, CodexIosStatus::Accepted, &[0u8; 4]),
        CallOutcome::Finished(Ok(()))
    ));
    assert!(processes.contains(5));
    match finish_spawn(&mut processes, 5, CodexIosStatus::Error, b"no shell\0") {
        CallOutcome::Finished(Err(e)) => assert_eq!(e, IosPlatformError::Error("no shell".to_string())),
        other => panic!("unexpected {other:?}"),
    }
    assert!(!processes.contains(5));
    processes.insert(6, "pending");
    assert!(matches!(
        finish_spawn(&mut processes, 6, CodexIosStatus::Unsupported, &[0u8; 4]),
        CallOutcome::Unsupported
    ));
    assert!(!processes.contains(6));
}

#[test]
fn output_routing() {
    let mut processes = HandleRegistry::new();
    processes.insert(9, "proc");
    assert_eq!(process_output(&processes, 9, Some(b"out"), true), Some((&"proc", OutputStream::Stdout)));
    assert_eq!(process_output(&processes, 9, Some(b"err"), false), Some((&"proc", OutputStream::Stderr)));
    assert_eq!(process_output(&processes, 9, Some(b""), true), None);
    assert_eq!(process_output(&processes, 9, None, true), None);
    assert_eq!(process_output(&processes, 10, Some(b"out"), true), None);
}

#[test]
fn failure_reports_go_to_stderr() {
    let mut processes = HandleRegistry::new();
    processes.insert(3, "proc");
    assert_eq!(
        process_failure(&processes, 3, Some(b"crashed\0")),
        Some((&"proc", b"crashed".to_vec()))
    );
    assert_eq!(process_failure(&processes, 3, None), None);
    assert_eq!(process_failure(&processes, 4, Some(b"x\0")), None);
}

#[test]
fn request_stop_keeps_server_and_stop_takes_it_out() {
    let mut servers = HandleRegistry::new();
    servers.insert(1, "server");
    assert_eq!(request_stop(&servers, 1), (0, Some(&"server")));
    assert_eq!(request_stop(&servers, 1), (0, Some(&"server")));
    assert_eq!(request_stop(&servers, 2), (-1, None));
    assert_eq!(take_for_stop(&mut servers, 1), Some("server"));
    assert_eq!(take_for_stop(&mut servers, 1), None);
    assert_eq!(request_stop(&servers, 1), (-1, None));
}

#[test]
fn failure_sends_stderr_then_exit_and_unregisters() {
    let mut processes = HandleRegistry::new();
    processes.insert(3, "proc");
    processes.insert(4, "other");
    match process_failed(&mut processes, 3, Some(b"crashed\0")) {
        Some((p, events)) => {
            assert_eq!(p, "proc");
            assert_eq!(events.len(), 2);
            assert!(matches!(&events[0], ProcessEvent::Stderr(chunk) if chunk == b"crashed"));
            assert!(matches!(events[1], ProcessEvent::Exit(-1)));
        }
        None => panic!("live process not found"),
    }
    assert!(!processes.contains(3));
    assert!(process_failed(&mut processes, 3, Some(b"again\0")).is_none());
    match process_failed(&mut processes, 4, None) {
        Some((p, events)) => {
            assert_eq!(p, "other");
            assert_eq!(events.len(), 1);
            assert!(matches!(events[0], ProcessEvent::Exit(-1)));
        }
        None => panic!("live process not found"),
    }
    assert!(!processes.contains(4));
}

#[test]
fn exit_unregisters_process() {
    let mut processes = HandleRegistry::new();
    processes.insert(7, "proc");
    assert_eq!(process_exited(&mut processes, 7), Some("proc"));
    assert!(!processes.contains(7));
    assert_eq!(process_exited(&mut processes, 7), None);
}

#[test]
fn spawn_keeps_registration_only_when_accepted() {
    for (status, kept) in [
        (CodexIosStatus::Accepted, true),
        (CodexIosStatus::Unsupported, false),
        (CodexIosStatus::Error, false),
    ] {
        let mut processes = HandleRegistry::new();
        processes.insert(11, "pending");
        let _ = finish_spawn(&mut processes, 11, status, b"failed\0");
        assert_eq!(processes.contains(11), kept);
    }
}
