//! The embedded app-server: the decisions of its start and stop entry
//! points, and the stdio transport's reader, which forwards each line and
//! reports the client's name from the first `initialize` request.
use vstd::prelude::*;

use crate::registry::{HandleCounter, HandleRegistry};
use crate::text::push_char;

verus! {

/// The handle that reports a failed start.
pub const NO_HANDLE: u64 = 0;

/// What a stop request answers for a handle that no server has.
pub const UNKNOWN_HANDLE_STATUS: i32 = -1;

/// Decides a start request: the two pipe descriptors must be valid, and the
/// server gets the counter's next handle unless that is the reserved 0.
/// Descriptors are checked before a handle is taken.
pub fn start_handle(input_read_fd: i32, output_write_fd: i32, handles: &mut HandleCounter) -> (h: Option<u64>)
    ensures
        (input_read_fd < 0 || output_write_fd < 0) ==> h is None && final(handles)@ == old(handles)@,
        (input_read_fd >= 0 && output_write_fd >= 0) ==> {
            &&& final(handles)@ == (if old(handles)@ == u64::MAX { 0 } else { (old(handles)@ + 1) as u64 })
            &&& old(handles)@ == NO_HANDLE ==> h is None
            &&& old(handles)@ != NO_HANDLE ==> h == Some(old(handles)@)
        },
{
    if input_read_fd < 0 || output_write_fd < 0 {
        return None;
    }
    let handle_id = handles.next_handle();
    if handle_id == NO_HANDLE {
        None
    } else {
        Some(handle_id)
    }
}

/// What a request to stop (without waiting) answers: 0 when the server was
/// found and told to shut down, -1 for an unknown handle.
pub fn request_stop_status(found: bool) -> (status: i32)
    ensures
        status == (if found { 0i32 } else { UNKNOWN_HANDLE_STATUS }),
{
    if found {
        0
    } else {
        UNKNOWN_HANDLE_STATUS
    }
}

/// A request to stop the server registered under `handle` without waiting:
/// its status, and the server to be told to shut down. The server stays
/// registered.
pub fn request_stop<T>(servers: &HandleRegistry<T>, handle: u64) -> (r: (i32, Option<&T>))
    ensures
        servers@.contains_key(handle) ==> r.0 == 0 && (r.1 matches Some(s) && *s == servers@[handle]),
        !servers@.contains_key(handle) ==> r.0 == UNKNOWN_HANDLE_STATUS && r.1 is None,
{
    let server = servers.get(handle);
    (request_stop_status(server.is_some()), server)
}

/// A request to stop the server registered under `handle` and wait for it:
/// the server is taken out of the registry, to be told to shut down and
/// joined.
pub fn take_for_stop<T>(servers: &mut HandleRegistry<T>, handle: u64) -> (server: Option<T>)
    ensures
        final(servers)@ == old(servers)@.remove(handle),
        old(servers)@.contains_key(handle) ==> server == Some(old(servers)@[handle]),
        !old(servers)@.contains_key(handle) ==> server is None,
{
    servers.remove(handle)
}

/// Law: once a server is taken out for stopping, later stop requests for its
/// handle answer "unknown"; a request to stop without waiting leaves the
/// registry as it was, so it can be repeated.
pub proof fn law_stop_unregisters<T>(before: HandleRegistry<T>, after: HandleRegistry<T>, handle: u64)
    requires
        after@ == before@.remove(handle),
    ensures
        !after@.contains_key(handle),
        stop_status_spec(None) == UNKNOWN_HANDLE_STATUS,
{
}

/// What `stop_status` answers.
pub open spec fn stop_status_spec(exit: Option<ServerExit>) -> i32 {
    match exit {
        None => UNKNOWN_HANDLE_STATUS,
        Some(ServerExit::Clean) => 0i32,
        Some(ServerExit::Failed) => -2i32,
        Some(ServerExit::Panicked) => -3i32,
    }
}

/// How a stopped server's thread ended.
#[derive(Clone, Copy, Debug, PartialEq, Eq, Structural)]
pub enum ServerExit {
    /// The app-server returned normally.
    Clean,
    /// The app-server returned an error.
    Failed,
    /// The runtime thread panicked.
    Panicked,
}

/// What a stop request answers: 0 on clean shutdown, -1 for an unknown
/// handle (`None`), -2 if the app-server returned an error, -3 if its thread
/// panicked.
pub fn stop_status(exit: Option<ServerExit>) -> (status: i32)
    ensures
        status == stop_status_spec(exit),
{
    match exit {
        None => UNKNOWN_HANDLE_STATUS,
        Some(ServerExit::Clean) => 0,
        Some(ServerExit::Failed) => -2,
        Some(ServerExit::Panicked) => -3,
    }
}

/// The client name carried by a JSON-RPC request: only an `initialize`
/// request's `clientInfo.name` counts.
pub fn initialize_client_name(method: &str, client_name: Option<String>) -> (name: Option<String>)
    ensures
        method@ == "initialize"@ ==> name == client_name,
        method@ != "initialize"@ ==> name is None,
{
    let expected = "initialize".to_owned();
    if method.to_owned().eq(&expected) {
        client_name
    } else {
        None
    }
}

/// What the stdio reader does next.
#[derive(Debug)]
pub enum ReaderStep {
    /// Forward the line just read to the processor, after reporting the
    /// client's name where one is given.
    Forward { client_name: Option<String> },
    /// Read the next line.
    ReadNext,
    /// Stop reading and report the connection closed.
    Close,
}

/// The stdio reader: whether the client's name is still to be reported.
pub struct StdioReader {
    name_pending: bool,
}

impl View for StdioReader {
    /// Whether the client's name is still to be reported.
    type V = bool;

    closed spec fn view(&self) -> bool {
        self.name_pending
    }
}

impl StdioReader {
    /// A reader that has not reported the client's name.
    pub fn new() -> (r: Self)
        ensures
            r@,
    {
        StdioReader { name_pending: true }
    }

    /// A line was read; `client_name` is the name an `initialize` request in
    /// it carries. The name is reported the first time one comes, never again.
    pub fn on_line(&mut self, client_name: Option<String>) -> (step: ReaderStep)
        ensures
            old(self)@ && client_name is Some ==> !final(self)@ && step == (ReaderStep::Forward { client_name }),
            !(old(self)@ && client_name is Some) ==> final(self)@ == old(self)@ && step == (ReaderStep::Forward { client_name: None }),
            final(self)@ == (old(self)@ && client_name is None),
    {
        match client_name {
            Some(name) => if self.name_pending {
                self.name_pending = false;
                ReaderStep::Forward { client_name: Some(name) }
            } else {
                ReaderStep::Forward { client_name: None }
            },
            None => ReaderStep::Forward { client_name: None },
        }
    }

    /// The processor took the forwarded line (`true`) or is gone (`false`).
    pub fn on_forwarded(&self, accepted: bool) -> (step: ReaderStep)
        ensures
            accepted ==> step is ReadNext,
            !accepted ==> step is Close,
    {
        if accepted {
            ReaderStep::ReadNext
        } else {
            ReaderStep::Close
        }
    }

    /// Input ended, reading failed, or shutdown was requested.
    pub fn on_end(&self) -> (step: ReaderStep)
        ensures
            step is Close,
    {
        ReaderStep::Close
    }
}

/// The client names reported by a reader (name still pending: `pending`)
/// for lines carrying the names `names`, line by line, as `on_line` reports them.
pub open spec fn reported_names(pending: bool, names: Seq<Option<Seq<char>>>) -> Seq<Option<Seq<char>>>
    decreases names.len(),
{
    if names.len() == 0 {
        Seq::empty()
    } else {
        seq![if pending { names[0] } else { None }] + reported_names(
            pending && names[0] is None,
            names.drop_first(),
        )
    }
}

proof fn lemma_reported_index(pending: bool, names: Seq<Option<Seq<char>>>, i: int)
    requires
        0 < i < names.len(),
    ensures
        reported_names(pending, names).len() == names.len(),
        reported_names(pending, names)[i] == reported_names(pending && names[0] is None, names.drop_first())[i - 1],
    decreases names.len(),
{
    lemma_reported_len(pending, names);
}

proof fn lemma_reported_len(pending: bool, names: Seq<Option<Seq<char>>>)
    ensures
        reported_names(pending, names).len() == names.len(),
    decreases names.len(),
{
    if names.len() > 0 {
        lemma_reported_len(pending && names[0] is None, names.drop_first());
    }
}

/// Law: over any run of lines, the stdio reader reports a client name at
/// most once; what it reports is the name of the first line that carries
/// one (and only while the name is pending), and a pending reader does
/// report once some line carries a name.
pub proof fn law_client_name_reported_once(pending: bool, names: Seq<Option<Seq<char>>>)
    ensures
        reported_names(pending, names).len() == names.len(),
        forall|i: int, j: int|
            0 <= i < j < names.len() ==> !(#[trigger] reported_names(pending, names)[i] is Some
                && #[trigger] reported_names(pending, names)[j] is Some),
        forall|i: int|
            0 <= i < names.len() && #[trigger] reported_names(pending, names)[i] is Some ==> {
                &&& pending
                &&& reported_names(pending, names)[i] == names[i]
                &&& forall|j: int| 0 <= j < i ==> names[j] is None
            },
        pending && (exists|i: int| 0 <= i < names.len() && names[i] is Some) ==> exists|i: int|
            0 <= i < names.len() && reported_names(pending, names)[i] is Some,
    decreases names.len(),
{
    lemma_reported_len(pending, names);
    if names.len() > 0 {
        let rest = names.drop_first();
        let next = pending && names[0] is None;
        let r = reported_names(pending, names);
        law_client_name_reported_once(next, rest);
        assert forall|i: int| 0 < i < names.len() implies r[i] == reported_names(next, rest)[i - 1] by {
            lemma_reported_index(pending, names, i);
        }
        assert forall|i: int, j: int|
            0 <= i < j < names.len() implies !(r[i] is Some && r[j] is Some) by {
            if i == 0 && r[0] is Some {
                assert(!next);
                assert(reported_names(next, rest)[j - 1] is None) by {
                    if reported_names(next, rest)[j - 1] is Some {
                        assert(next);
                    }
                }
            }
        }
        assert forall|i: int|
            0 <= i < names.len() && r[i] is Some implies {
                &&& pending
                &&& r[i] == names[i]
                &&& forall|j: int| 0 <= j < i ==> names[j] is None
            } by {
            if i > 0 {
                assert(reported_names(next, rest)[i - 1] is Some);
                assert(next);
                assert forall|j: int| 0 <= j < i implies names[j] is None by {
                    if j > 0 {
                        assert(rest[j - 1] == names[j]);
                    }
                }
                assert(rest[i - 1] == names[i]);
            }
        }
        if pending && (exists|i: int| 0 <= i < names.len() && names[i] is Some) {
            if names[0] is Some {
                assert(r[0] is Some);
            } else {
                let i = choose|i: int| 0 <= i < names.len() && names[i] is Some;
                assert(rest[i - 1] is Some);
                let k = choose|k: int| 0 <= k < rest.len() && reported_names(next, rest)[k] is Some;
                assert(r[k + 1] is Some);
            }
        }
    }
}

/// An outgoing message as written to stdout: its JSON and a newline.
pub fn frame_line(json: String) -> (line: String)
    ensures
        line@ == json@.push('\n'),
{
    let mut line = json;
    push_char(&mut line, '\n');
    line
}

} // verus!
