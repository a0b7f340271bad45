//! Processes the host runs on this crate's behalf: which registrations a
//! spawn keeps, and where the host's output and failure reports go.
use vstd::prelude::*;
use vstd::slice::slice_to_vec;
use vstd::utf8::encode_utf8;

use crate::buffer::{c_string_bytes, utf8_lossy};
use crate::platform::{
    error_text, status_to_result, CallOutcome, CodexIosStatus, OPERATION_PROCESS_SPAWN,
};
use crate::registry::HandleRegistry;

verus! {

/// Which output stream a chunk belongs to.
#[derive(Clone, Copy, Debug, PartialEq, Eq, Structural)]
pub enum OutputStream {
    Stdout,
    Stderr,
}

/// Settles the registration of a process the host was asked to spawn: it
/// stays when the host accepted, and is dropped otherwise. The outcome is
/// that of the spawn call (its error text read from the spawn's error buffer).
pub fn finish_spawn<T>(processes: &mut HandleRegistry<T>, handle: u64, status: CodexIosStatus, error: &[u8]) -> (r: CallOutcome<()>)
    ensures
        status == CodexIosStatus::Accepted ==> final(processes)@ == old(processes)@ && r matches CallOutcome::Finished(Ok(())),
        status != CodexIosStatus::Accepted ==> final(processes)@ == old(processes)@.remove(handle),
        status == CodexIosStatus::Unsupported ==> r is Unsupported,
        status == CodexIosStatus::Error ==> (r matches CallOutcome::Finished(Err(e)) && e is Error && e.text() == error_text(OPERATION_PROCESS_SPAWN@, error@)),
{
    if status != CodexIosStatus::Accepted {
        let _ = processes.remove(handle);
    }
    status_to_result(OPERATION_PROCESS_SPAWN, status, error)
}

/// Where a chunk of output the host reports for `handle` goes: nowhere when
/// the chunk is null or empty or the handle is not a live process, otherwise
/// to that process's stdout or stderr.
pub fn process_output<'a, T>(processes: &'a HandleRegistry<T>, handle: u64, chunk: Option<&[u8]>, stdout: bool) -> (route: Option<(&'a T, OutputStream)>)
    ensures
        match chunk {
            Some(bytes) if bytes@.len() > 0 && processes@.contains_key(handle) => {
                &&& route matches Some((p, stream))
                &&& *p == processes@[handle]
                &&& stream == (if stdout { OutputStream::Stdout } else { OutputStream::Stderr })
            },
            _ => route is None,
        },
{
    match chunk {
        None => None,
        Some(bytes) => {
            if bytes.len() == 0 {
                return None;
            }
            match processes.get(handle) {
                None => None,
                Some(p) => Some((p, if stdout { OutputStream::Stdout } else { OutputStream::Stderr })),
            }
        },
    }
}

/// The stderr chunk for a failure the host reports for `handle`: the
/// message's text (decoded lossily, as UTF-8 bytes) when the handle is a live
/// process and the message is not null.
pub fn process_failure<'a, T>(processes: &'a HandleRegistry<T>, handle: u64, message: Option<&[u8]>) -> (report: Option<(&'a T, Vec<u8>)>)
    ensures
        match message {
            Some(bytes) if processes@.contains_key(handle) => {
                &&& report matches Some((p, chunk))
                &&& *p == processes@[handle]
                &&& chunk@ == encode_utf8(utf8_lossy(c_string_bytes(bytes@)))
            },
            _ => report is None,
        },
{
    match message {
        None => None,
        Some(bytes) => match processes.get(handle) {
            None => None,
            Some(p) => {
                let text = crate::buffer::read_buffer(bytes);
                Some((p, slice_to_vec(text.as_str().as_bytes())))
            },
        },
    }
}

/// What the host's report of a process's end delivers to that process, in
/// order.
#[derive(Debug)]
pub enum ProcessEvent {
    /// A chunk of stderr.
    Stderr(Vec<u8>),
    /// The exit code.
    Exit(i32),
}

/// The exit code reported for a process that failed.
pub const FAILED_EXIT_CODE: i32 = -1;

/// The host reports that the process under `handle` exited: it is taken out
/// of the registry, to receive the exit code. An unknown handle changes
/// nothing.
pub fn process_exited<T>(processes: &mut HandleRegistry<T>, handle: u64) -> (process: Option<T>)
    ensures
        final(processes)@ == old(processes)@.remove(handle),
        old(processes)@.contains_key(handle) ==> process == Some(old(processes)@[handle]),
        !old(processes)@.contains_key(handle) ==> process is None,
{
    processes.remove(handle)
}

/// The host reports that the process under `handle` failed with `message`:
/// the process is taken out of the registry, and receives the message's
/// text on stderr (when there is a message) and then the exit code -1. An
/// unknown handle changes nothing and receives nothing.
pub fn process_failed<T>(processes: &mut HandleRegistry<T>, handle: u64, message: Option<&[u8]>) -> (r: Option<(T, Vec<ProcessEvent>)>)
    ensures
        final(processes)@ == old(processes)@.remove(handle),
        !old(processes)@.contains_key(handle) ==> r is None,
        old(processes)@.contains_key(handle) ==> {
            &&& r matches Some((p, events))
            &&& p == old(processes)@[handle]
            &&& events@.len() == (if message is Some { 2int } else { 1int })
            &&& events@.last() == ProcessEvent::Exit(FAILED_EXIT_CODE)
            &&& message matches Some(bytes) ==> (events@[0] matches ProcessEvent::Stderr(chunk)
                && chunk@ == encode_utf8(utf8_lossy(c_string_bytes(bytes@))))
        },
{
    let chunk: Option<Vec<u8>> = match process_failure(processes, handle, message) {
        Some((_, c)) => Some(c),
        None => None,
    };
    match process_exited(processes, handle) {
        None => None,
        Some(p) => {
            let mut events: Vec<ProcessEvent> = Vec::new();
            match chunk {
                Some(c) => events.push(ProcessEvent::Stderr(c)),
                None => {},
            }
            events.push(ProcessEvent::Exit(FAILED_EXIT_CODE));
            Some((p, events))
        },
    }
}

/// Law: a process registered under `handle` before the host is asked to
/// spawn it stays registered after `finish_spawn` exactly when the host
/// accepted, and then it is the process that was registered.
pub proof fn law_spawn_keeps_registration_iff_accepted<T>(
    before: HandleRegistry<T>,
    registered: HandleRegistry<T>,
    after: HandleRegistry<T>,
    handle: u64,
    process: T,
    status: CodexIosStatus,
)
    requires
        registered@ == before@.insert(handle, process),
        status == CodexIosStatus::Accepted ==> after@ == registered@,
        status != CodexIosStatus::Accepted ==> after@ == registered@.remove(handle),
    ensures
        after@.contains_key(handle) <==> status == CodexIosStatus::Accepted,
        status == CodexIosStatus::Accepted ==> after@[handle] == process,
{
}

} // verus!
