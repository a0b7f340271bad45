//! The code-mode bridge as it runs when the JavaScript runtime is provided
//! by the host: cancellation tokens per cell, the session's lifecycle, what
//! runtime responses mean for cells, and the replies written back to the
//! host through its buffers.
use tokio_util::sync::CancellationToken;
use vstd::prelude::*;
use vstd::utf8::{decode_utf8, encode_utf8, valid_utf8};

use crate::cancel::{cancel_token, clone_cancellation_token, new_cancellation_token, CancelLog};
use crate::buffer::{
    c_string_bytes, law_ffi_write_then_read, string_from_utf8, utf8_error_text, with_c_string,
    write_ffi_buffer,
};
use crate::platform::{
    generic_unsupported_message_spec, unsupported_error, CodexIosStatus, IosPlatformError,
    OPERATION_JAVASCRIPT_RUNTIME,
};
use crate::registry::HandleRegistry;
use crate::text::{decimal_spec, push_decimal, push_str};

verus! {

/// The cancellation tokens of a session's open cells, by cell id, and the
/// record of the tokens it has cancelled.
pub struct CellTokens {
    entries: Vec<(String, CancellationToken)>,
    cancelled: CancelLog,
}

/// The cell ids and tokens of `entries`, in order.
pub open spec fn cell_entries(entries: Seq<(String, CancellationToken)>) -> Seq<(Seq<char>, CancellationToken)> {
    entries.map_values(|e: (String, CancellationToken)| (e.0@, e.1))
}

/// No cell id occurs twice.
pub open spec fn distinct_ids(cells: Seq<(Seq<char>, CancellationToken)>) -> bool {
    forall|i: int, j: int| 0 <= i < j < cells.len() ==> cells[i].0 != cells[j].0
}

/// The tokens of the first `k` cells of `cells`.
pub open spec fn tokens_of(cells: Seq<(Seq<char>, CancellationToken)>, k: int) -> Set<CancellationToken> {
    Set::new(|t: CancellationToken| exists|j: int| 0 <= j < k && #[trigger] cells[j].1 == t)
}

proof fn lemma_tokens_of_step(cells: Seq<(Seq<char>, CancellationToken)>, k: int)
    requires
        0 <= k < cells.len(),
    ensures
        tokens_of(cells, k + 1) == tokens_of(cells, k).insert(cells[k].1),
{
    assert forall|t: CancellationToken| #[trigger] tokens_of(cells, k + 1).contains(t) implies tokens_of(cells, k).insert(cells[k].1).contains(t) by {
        let j = choose|j: int| 0 <= j < k + 1 && #[trigger] cells[j].1 == t;
        if j < k {
            assert(tokens_of(cells, k).contains(t));
        }
    }
    assert forall|t: CancellationToken| #[trigger] tokens_of(cells, k).insert(cells[k].1).contains(t) implies tokens_of(cells, k + 1).contains(t) by {
        if t == cells[k].1 {
            assert(0 <= k < k + 1 && cells[k].1 == t);
        } else {
            let j = choose|j: int| 0 <= j < k && #[trigger] cells[j].1 == t;
            assert(0 <= j < k + 1 && cells[j].1 == t);
        }
    }
    assert(tokens_of(cells, k + 1) =~= tokens_of(cells, k).insert(cells[k].1));
}

/// Whether `cell` has a token in `cells`.
pub open spec fn has_cell(cells: Seq<(Seq<char>, CancellationToken)>, cell: Seq<char>) -> bool {
    exists|i: int| 0 <= i < cells.len() && cells[i].0 == cell
}

impl View for CellTokens {
    type V = Seq<(Seq<char>, CancellationToken)>;

    closed spec fn view(&self) -> Seq<(Seq<char>, CancellationToken)> {
        cell_entries(self.entries@)
    }
}

impl CellTokens {
    /// The tokens this registry has cancelled.
    pub closed spec fn cancelled(&self) -> Set<CancellationToken> {
        self.cancelled.contents()
    }

    #[verifier::type_invariant]
    spec fn wf(self) -> bool {
        distinct_ids(cell_entries(self.entries@))
    }

    /// No cells.
    pub fn new() -> (c: Self)
        ensures
            c@ == Seq::<(Seq<char>, CancellationToken)>::empty(),
            distinct_ids(c@),
            c.cancelled() == Set::<CancellationToken>::empty(),
    {
        let c = CellTokens { entries: Vec::new(), cancelled: CancelLog::new() };
        assert(c@ =~= Seq::<(Seq<char>, CancellationToken)>::empty());
        c
    }

    fn position(&self, cell_id: &str) -> (p: Option<usize>)
        ensures
            match p {
                Some(i) => i < self@.len() && self@[i as int].0 == cell_id@,
                None => !has_cell(self@, cell_id@),
            },
    {
        let target = cell_id.to_owned();
        let n = self.entries.len();
        for i in 0..n
            invariant
                n == self.entries@.len(),
                target@ == cell_id@,
                self@ == cell_entries(self.entries@),
                forall|j: int| 0 <= j < i ==> self@[j].0 != cell_id@,
        {
            if self.entries[i].0.eq(&target) {
                return Some(i);
            }
        }
        None
    }

    /// The token of `cell_id`; a new one is registered when the cell has none.
    pub fn token(&mut self, cell_id: &str) -> (t: CancellationToken)
        ensures
            has_cell(old(self)@, cell_id@) ==> final(self)@ == old(self)@ && exists|i: int|
                0 <= i < old(self)@.len() && old(self)@[i].0 == cell_id@ && old(self)@[i].1 == t,
            !has_cell(old(self)@, cell_id@) ==> final(self)@ == old(self)@.push((cell_id@, t)),
            !has_cell(old(self)@, cell_id@) ==> forall|i: int|
                0 <= i < old(self)@.len() ==> old(self)@[i].1 != t,
            distinct_ids(final(self)@),
            final(self).cancelled() == old(self).cancelled(),
    {
        proof {
            use_type_invariant(&*self);
        }
        match self.position(cell_id) {
            Some(i) => clone_cancellation_token(&self.entries[i].1),
            None => {
                let fresh = new_cancellation_token(&self.entries);
                let t = clone_cancellation_token(&fresh);
                let ghost before = self@;
                let mut entries = Vec::new();
                std::mem::swap(&mut entries, &mut self.entries);
                entries.push((cell_id.to_owned(), fresh));
                assert(cell_entries(entries@) =~= before.push((cell_id@, t)));
                self.entries = entries;
                t
            },
        }
    }

    /// Removes the token of `cell_id` and cancels it; returns whether the
    /// cell had one.
    pub fn close_cell(&mut self, cell_id: &str) -> (closed: bool)
        ensures
            closed == has_cell(old(self)@, cell_id@),
            closed ==> exists|i: int|
                0 <= i < old(self)@.len() && old(self)@[i].0 == cell_id@ && final(self)@ == old(
                    self,
                )@.remove(i) && final(self).cancelled() == old(self).cancelled().insert(
                    old(self)@[i].1,
                ),
            !closed ==> final(self)@ == old(self)@ && final(self).cancelled() == old(self).cancelled(),
            !has_cell(final(self)@, cell_id@),
            distinct_ids(final(self)@),
    {
        proof {
            use_type_invariant(&*self);
        }
        match self.position(cell_id) {
            Some(i) => {
                let ghost before = self@;
                let mut entries = Vec::new();
                std::mem::swap(&mut entries, &mut self.entries);
                let (_, token) = entries.remove(i);
                assert(cell_entries(entries@) =~= before.remove(i as int));
                self.entries = entries;
                let receipt = cancel_token(token);
                self.cancelled.record(receipt);
                assert(!has_cell(self@, cell_id@)) by {
                    if has_cell(self@, cell_id@) {
                        let k = choose|k: int| 0 <= k < self@.len() && self@[k].0 == cell_id@;
                        if k < i {
                            assert(before[k].0 == cell_id@);
                        } else {
                            assert(before[k + 1].0 == cell_id@);
                        }
                    }
                }
                true
            },
            None => false,
        }
    }

    /// Cancels the token of `cell_id`, registering a new one first when the
    /// cell has none; the cell keeps its (now cancelled) token.
    pub fn cancel_cell(&mut self, cell_id: &str)
        ensures
            has_cell(old(self)@, cell_id@) ==> final(self)@ == old(self)@,
            !has_cell(old(self)@, cell_id@) ==> {
                &&& final(self)@.len() == old(self)@.len() + 1
                &&& final(self)@.drop_last() == old(self)@
                &&& final(self)@.last().0 == cell_id@
                &&& forall|i: int| 0 <= i < old(self)@.len() ==> old(self)@[i].1 != final(self)@.last().1
            },
            exists|i: int|
                0 <= i < final(self)@.len() && final(self)@[i].0 == cell_id@
                    && final(self).cancelled() == old(self).cancelled().insert(final(self)@[i].1),
            distinct_ids(final(self)@),
    {
        let ghost before = self@;
        let t = self.token(cell_id);
        let ghost registered = self@;
        let receipt = cancel_token(t);
        self.cancelled.record(receipt);
        proof {
            if has_cell(before, cell_id@) {
                let i = choose|i: int| 0 <= i < before.len() && before[i].0 == cell_id@ && before[i].1 == t;
                assert(self@[i].0 == cell_id@ && self@[i].1 == t);
            } else {
                let i = before.len() as int;
                assert(registered == before.push((cell_id@, t)));
                assert(self@[i] == (cell_id@, t));
                assert(self@.drop_last() =~= before);
            }
        }
    }

    /// Removes and cancels the tokens of all cells; returns their ids, in
    /// registration order.
    pub fn close_all(&mut self) -> (ids: Vec<String>)
        ensures
            final(self)@ == Seq::<(Seq<char>, CancellationToken)>::empty(),
            ids@.len() == old(self)@.len(),
            forall|i: int| 0 <= i < ids@.len() ==> ids@[i]@ == old(self)@[i].0,
            final(self).cancelled() == old(self).cancelled().union(tokens_of(old(self)@, old(self)@.len() as int)),
    {
        let ghost before = self@;
        let ghost cancelled_before = self.cancelled();
        let mut entries = Vec::new();
        std::mem::swap(&mut entries, &mut self.entries);
        assert(self@ =~= Seq::<(Seq<char>, CancellationToken)>::empty());
        let mut ids: Vec<String> = Vec::new();
        let n = entries.len();
        let mut k: usize = 0;
        proof {
            assert(tokens_of(before, 0) =~= Set::<CancellationToken>::empty());
            assert(cancelled_before.union(tokens_of(before, 0)) =~= cancelled_before);
        }
        while k < n
            invariant
                n == entries@.len() == before.len(),
                k <= n,
                cell_entries(entries@) == before,
                self@ == Seq::<(Seq<char>, CancellationToken)>::empty(),
                ids@.len() == k,
                forall|j: int| 0 <= j < k ==> ids@[j]@ == before[j].0,
                self.cancelled() == cancelled_before.union(tokens_of(before, k as int)),
            decreases n - k,
        {
            ids.push(entries[k].0.clone());
            let token = clone_cancellation_token(&entries[k].1);
            let receipt = cancel_token(token);
            self.cancelled.record(receipt);
            proof {
                assert(before[k as int].1 == entries@[k as int].1);
                lemma_tokens_of_step(before, k as int);
                assert(self.cancelled() =~= cancelled_before.union(tokens_of(before, k + 1)));
            }
            k = k + 1;
        }
        ids
    }

    /// The ids of the cells that have a token, in registration order.
    pub fn cell_ids(&self) -> (ids: Vec<String>)
        ensures
            ids@.len() == self@.len(),
            forall|i: int| 0 <= i < ids@.len() ==> ids@[i]@ == self@[i].0,
    {
        let mut ids: Vec<String> = Vec::new();
        let n = self.entries.len();
        for i in 0..n
            invariant
                n == self.entries@.len(),
                self@ == cell_entries(self.entries@),
                ids@.len() == i,
                forall|j: int| 0 <= j < i ==> ids@[j]@ == self@[j].0,
        {
            ids.push(self.entries[i].0.clone());
        }
        ids
    }
}

/// The delegate of a session that nobody else handles: tools are refused
/// as unsupported, notifications are accepted and dropped.
pub struct NoopCodeModeSessionDelegate;

/// Creates code-mode sessions that run in this process.
#[derive(Default)]
pub struct InProcessCodeModeSessionProvider;

/// What the runtime reports about a cell, reduced to what the bridge reads.
#[derive(Debug)]
pub enum RuntimeResponse {
    /// The cell yielded and is still running.
    Yielded { cell_id: String },
    /// The cell was terminated.
    Terminated { cell_id: String },
    /// The cell finished with a result.
    Result { cell_id: String },
}

/// What waiting on a cell reports.
#[derive(Debug)]
pub enum WaitOutcome {
    LiveCell(RuntimeResponse),
    MissingCell(RuntimeResponse),
}

impl RuntimeResponse {
    pub open spec fn cell(&self) -> Seq<char> {
        match self {
            RuntimeResponse::Yielded { cell_id } => cell_id@,
            RuntimeResponse::Terminated { cell_id } => cell_id@,
            RuntimeResponse::Result { cell_id } => cell_id@,
        }
    }

    pub open spec fn terminal(&self) -> bool {
        !(self is Yielded)
    }
}

/// The cell a response is about.
pub fn response_cell_id(response: &RuntimeResponse) -> (id: String)
    ensures
        id@ == response.cell(),
{
    match response {
        RuntimeResponse::Yielded { cell_id } => cell_id.clone(),
        RuntimeResponse::Terminated { cell_id } => cell_id.clone(),
        RuntimeResponse::Result { cell_id } => cell_id.clone(),
    }
}

/// Whether a response ends its cell (it was terminated or has a result).
pub fn is_terminal(response: &RuntimeResponse) -> (b: bool)
    ensures
        b == response.terminal(),
{
    match response {
        RuntimeResponse::Yielded { .. } => false,
        _ => true,
    }
}

/// The response inside a wait outcome.
pub fn wait_response(outcome: &WaitOutcome) -> (r: &RuntimeResponse)
    ensures
        match outcome {
            WaitOutcome::LiveCell(x) => r == x,
            WaitOutcome::MissingCell(x) => r == x,
        },
{
    match outcome {
        WaitOutcome::LiveCell(r) => r,
        WaitOutcome::MissingCell(r) => r,
    }
}

/// Closes the cell of a terminal response (removing and cancelling its
/// token) and returns its id, for the delegate to hear of; a response of a
/// running cell changes nothing.
pub fn finish_response(cells: &mut CellTokens, response: &RuntimeResponse) -> (closed: Option<String>)
    ensures
        !response.terminal() ==> closed is None && final(cells)@ == old(cells)@
            && final(cells).cancelled() == old(cells).cancelled(),
        response.terminal() ==> (closed matches Some(id) && id@ == response.cell()),
        response.terminal() ==> !has_cell(final(cells)@, response.cell()),
        response.terminal() && !has_cell(old(cells)@, response.cell()) ==> final(cells)@ == old(cells)@
            && final(cells).cancelled() == old(cells).cancelled(),
        response.terminal() && has_cell(old(cells)@, response.cell()) ==> exists|i: int|
            0 <= i < old(cells)@.len() && old(cells)@[i].0 == response.cell() && final(cells)@
                == old(cells)@.remove(i) && final(cells).cancelled() == old(cells).cancelled().insert(
                old(cells)@[i].1,
            ),
{
    if is_terminal(response) {
        let cell_id = response_cell_id(response);
        cells.close_cell(cell_id.as_str());
        Some(cell_id)
    } else {
        None
    }
}

/// Whether a session has asked the host for its runtime session and
/// whether it has been shut down.
pub struct SessionLifecycle {
    initialized: bool,
    alive: bool,
}

impl View for SessionLifecycle {
    /// (runtime session created, alive)
    type V = (bool, bool);

    closed spec fn view(&self) -> (bool, bool) {
        (self.initialized, self.alive)
    }
}

impl SessionLifecycle {
    /// A live session whose runtime session is not created yet.
    pub fn new() -> (s: Self)
        ensures
            s@ == (false, true),
    {
        SessionLifecycle { initialized: false, alive: true }
    }

    /// Whether the host must still be asked to create the runtime session.
    pub fn needs_runtime_session(&self) -> (b: bool)
        ensures
            b == !self@.0,
    {
        !self.initialized
    }

    /// Records the host's answer to a create-session request: the session is
    /// initialized on success; a failure is reported by its message.
    pub fn record_runtime_session(&mut self, created: Result<(), IosPlatformError>) -> (r: Result<(), String>)
        ensures
            created is Ok ==> r is Ok && final(self)@ == (true, old(self)@.1),
            created matches Err(e) ==> (r matches Err(m) && m@ == e.text() && final(self)@ == old(self)@),
    {
        match created {
            Ok(()) => {
                self.initialized = true;
                Ok(())
            },
            Err(e) => Err(e.message()),
        }
    }

    /// Whether the session is still alive.
    pub fn is_alive(&self) -> (b: bool)
        ensures
            b == self@.1,
    {
        self.alive
    }

    /// Marks the session shut down; returns whether the host's runtime
    /// session must be shut down too (it was created).
    pub fn shut_down(&mut self) -> (shut_runtime: bool)
        ensures
            shut_runtime == old(self)@.0,
            final(self)@ == (old(self)@.0, false),
    {
        self.alive = false;
        self.initialized
    }
}

/// How many times the host's runtime session is created by a run of calls
/// that each first ask `needs_runtime_session` and, when it is needed, make
/// the request and record its outcome (`outcomes[i]`: whether the i-th such
/// request would succeed), starting from `created`.
pub open spec fn runtime_sessions_created(created: bool, outcomes: Seq<bool>) -> nat
    decreases outcomes.len(),
{
    if outcomes.len() == 0 {
        0
    } else if created {
        runtime_sessions_created(true, outcomes.drop_first())
    } else {
        (if outcomes[0] { 1nat } else { 0nat }) + runtime_sessions_created(
            outcomes[0],
            outcomes.drop_first(),
        )
    }
}

/// Law: a session creates its runtime session at most once, and not at all
/// once created; a failed request leaves it to be retried by the next call.
pub proof fn law_runtime_session_created_once(created: bool, outcomes: Seq<bool>)
    ensures
        runtime_sessions_created(created, outcomes) <= 1,
        created ==> runtime_sessions_created(created, outcomes) == 0,
        !created && outcomes.len() > 0 && !outcomes[0] ==> runtime_sessions_created(created, outcomes)
            == runtime_sessions_created(false, outcomes.drop_first()),
    decreases outcomes.len(),
{
    if outcomes.len() > 0 {
        law_runtime_session_created_once(true, outcomes.drop_first());
        law_runtime_session_created_once(outcomes[0], outcomes.drop_first());
    }
}

/// How a failed runtime call is reported to the model.
#[derive(Debug)]
pub enum RuntimeFailure {
    /// The host's own error message.
    Failed(String),
    /// The runtime is unavailable: reported by `disabled_message`.
    Disabled,
}

/// How a failed execute or wait call is reported.
pub fn runtime_failure(error: IosPlatformError) -> (f: RuntimeFailure)
    ensures
        error is Error ==> (f matches RuntimeFailure::Failed(m) && m@ == error.text()),
        error is Unsupported ==> f is Disabled,
{
    match error {
        IosPlatformError::Error(m) => RuntimeFailure::Failed(m),
        IosPlatformError::Unsupported(_) => RuntimeFailure::Disabled,
    }
}

/// The payload sent to the host with a disabled-runtime report: the
/// serialized `{"action", "payload"}` object, or `{}` where serializing failed.
pub fn disabled_payload(serialized: Option<String>) -> (p: String)
    ensures
        serialized matches Some(s) ==> p@ == s@,
        serialized is None ==> p@ == "{}"@,
{
    match serialized {
        Some(s) => s,
        None => "{}".to_owned(),
    }
}

/// The message reporting that the JavaScript runtime is unavailable: the
/// host's own message where its unsupported-operation callback gave one, the
/// default message for the JavaScript runtime otherwise.
pub fn disabled_message(host_message: Option<String>) -> (m: String)
    ensures
        host_message matches Some(h) ==> m@ == h@,
        host_message is None ==> m@ == generic_unsupported_message_spec(OPERATION_JAVASCRIPT_RUNTIME@),
{
    unsupported_error(OPERATION_JAVASCRIPT_RUNTIME, host_message).message()
}

/// The error for a session handle that no session has.
pub open spec fn unknown_session_text(handle: u64) -> Seq<char> {
    "unknown iOS code-mode session "@ + decimal_spec(handle as nat)
}

/// The session registered under `handle`, or the error naming the handle.
pub fn bridge_for_handle<T>(sessions: &HandleRegistry<T>, handle: u64) -> (r: Result<&T, String>)
    ensures
        sessions@.contains_key(handle) ==> (r matches Ok(b) && *b == sessions@[handle]),
        !sessions@.contains_key(handle) ==> (r matches Err(m) && m@ == unknown_session_text(handle)),
{
    match sessions.get(handle) {
        Some(b) => Ok(b),
        None => {
            let mut m = String::new();
            push_str(&mut m, "unknown iOS code-mode session ");
            push_decimal(&mut m, handle);
            assert(m@ =~= unknown_session_text(handle));
            Err(m)
        },
    }
}

/// A string handed over by the host: a null pointer with its stated length,
/// or the bytes it points to.
pub enum HostString {
    Null { len: usize },
    Bytes(Vec<u8>),
}

/// The text of a string handed over by the host: a null pointer stands for
/// the empty string when its length is zero and is an error otherwise; the
/// bytes must be UTF-8.
pub fn read_ffi_string(value: HostString) -> (r: Result<String, String>)
    ensures
        match value {
            HostString::Null { len } => if len == 0 {
                r matches Ok(s) && s@.len() == 0
            } else {
                r matches Err(m) && m@ == "invalid null iOS string"@
            },
            HostString::Bytes(b) => {
                &&& r is Ok <==> valid_utf8(b@)
                &&& r matches Ok(s) ==> s@ == decode_utf8(b@)
                &&& r matches Err(m) ==> m@ == utf8_error_text(b@)
            },
        },
{
    match value {
        HostString::Null { len } => if len == 0 {
            Ok(String::new())
        } else {
            Err("invalid null iOS string".to_owned())
        },
        HostString::Bytes(b) => string_from_utf8(b),
    }
}

/// The message written when an error reply does not fit the host's buffer.
pub const BUFFER_TOO_SMALL_MESSAGE: &'static str = "iOS code-mode response exceeded its buffer";

/// The message written when a tool's result does not fit the host's buffer.
pub const TOOL_RESPONSE_TOO_LARGE_MESSAGE: &'static str = "iOS code-mode tool response is too large";

/// Whether `text` and its NUL fit in `buffer`.
pub open spec fn fits(buffer: Option<Vec<u8>>, text: Seq<char>) -> bool {
    buffer matches Some(b) && encode_utf8(text).len() < b@.len()
}

/// `buffer` after `text` was written into it (it fits).
pub open spec fn written(buffer: Option<Vec<u8>>, text: Seq<char>) -> Seq<u8> {
    with_c_string(buffer->Some_0@, encode_utf8(text), encode_utf8(text).len() as int)
}

/// The bytes of `buffer` after an error reply carrying `message`: the message
/// where it fits with its NUL, else the too-small notice where that fits;
/// `None` where nothing is written.
pub open spec fn error_reply(buffer: Option<Vec<u8>>, message: Seq<char>) -> Option<Seq<u8>> {
    if fits(buffer, message) {
        Some(written(buffer, message))
    } else if fits(buffer, BUFFER_TOO_SMALL_MESSAGE@) {
        Some(written(buffer, BUFFER_TOO_SMALL_MESSAGE@))
    } else {
        None
    }
}

/// `after` is `before` with `bytes` written, or `before` itself where nothing is.
pub open spec fn replied(before: Option<Vec<u8>>, after: Option<Vec<u8>>, bytes: Option<Seq<u8>>) -> bool {
    match bytes {
        Some(b) => after matches Some(f) && f@ == b,
        None => after == before,
    }
}

/// Writes an error reply into the host's buffer: the message where it fits,
/// the too-small notice where only that fits, nothing otherwise.
pub fn ffi_error(buffer: &mut Option<Vec<u8>>, message: &str) -> (status: CodexIosStatus)
    ensures
        status == CodexIosStatus::Error,
        replied(*old(buffer), *final(buffer), error_reply(*old(buffer), message@)),
{
    if !write_ffi_buffer(buffer, message) {
        let _ = write_ffi_buffer(buffer, BUFFER_TOO_SMALL_MESSAGE);
    }
    CodexIosStatus::Error
}

/// The reply to a tool invocation from the host: the result's JSON where it
/// fits the buffer (accepted), an error reply otherwise.
pub fn invoke_tool_reply(buffer: &mut Option<Vec<u8>>, result: Result<String, String>) -> (status: CodexIosStatus)
    ensures
        match result {
            Ok(json) => if fits(*old(buffer), json@) {
                &&& status == CodexIosStatus::Accepted
                &&& replied(*old(buffer), *final(buffer), Some(written(*old(buffer), json@)))
            } else {
                &&& status == CodexIosStatus::Error
                &&& replied(*old(buffer), *final(buffer), error_reply(*old(buffer), TOOL_RESPONSE_TOO_LARGE_MESSAGE@))
            },
            Err(m) => {
                &&& status == CodexIosStatus::Error
                &&& replied(*old(buffer), *final(buffer), error_reply(*old(buffer), m@))
            },
        },
{
    match result {
        Ok(json) => if write_ffi_buffer(buffer, json.as_str()) {
            CodexIosStatus::Accepted
        } else {
            ffi_error(buffer, TOOL_RESPONSE_TOO_LARGE_MESSAGE)
        },
        Err(m) => ffi_error(buffer, m.as_str()),
    }
}

/// The reply to a notification from the host: accepted, or an error reply
/// carrying the failure.
pub fn notify_reply(buffer: &mut Option<Vec<u8>>, result: Result<(), String>) -> (status: CodexIosStatus)
    ensures
        match result {
            Ok(()) => status == CodexIosStatus::Accepted && *final(buffer) == *old(buffer),
            Err(m) => {
                &&& status == CodexIosStatus::Error
                &&& replied(*old(buffer), *final(buffer), error_reply(*old(buffer), m@))
            },
        },
{
    match result {
        Ok(()) => CodexIosStatus::Accepted,
        Err(m) => ffi_error(buffer, m.as_str()),
    }
}

/// Law: a tool result is accepted exactly when its UTF-8 bytes and a NUL fit
/// in the host's buffer, whatever their share of it; the buffer then keeps its
/// length and holds the result's bytes followed by a NUL, the rest of its
/// bytes unchanged, and C reads the result back from it (a result holding no
/// NUL character).
pub proof fn law_tool_result_fits_iff_writable(buffer: Option<Vec<u8>>, json: Seq<char>)
    ensures
        fits(buffer, json) <==> (buffer matches Some(b) && encode_utf8(json).len() < b@.len()),
        fits(buffer, json) ==> {
            let after = written(buffer, json);
            let n = encode_utf8(json).len() as int;
            &&& after.len() == buffer->Some_0@.len()
            &&& after.take(n) == encode_utf8(json)
            &&& after[n] == 0u8
            &&& after.skip(n + 1) == buffer->Some_0@.skip(n + 1)
            &&& !json.contains('\0') ==> valid_utf8(c_string_bytes(after))
                && decode_utf8(c_string_bytes(after)) == json
        },
{
    if fits(buffer, json) {
        let b = buffer->Some_0@;
        let data = encode_utf8(json);
        let n = data.len() as int;
        let after = written(buffer, json);
        assert(after == data.take(n) + seq![0u8] + b.skip(n + 1));
        assert(data.take(n) =~= data);
        assert(after.take(n) =~= data);
        assert(after[n] == 0u8);
        assert(after.skip(n + 1) =~= b.skip(n + 1));
        if !json.contains('\0') {
            law_ffi_write_then_read(b, json);
        }
    }
}

/// Law: a cell id names at most one entry of a session's tokens, so the
/// token handed out for a cell is the one registered for it, every time.
pub proof fn law_one_token_per_cell(cells: Seq<(Seq<char>, CancellationToken)>, cell: Seq<char>, i: int, j: int)
    requires
        distinct_ids(cells),
        0 <= i < cells.len(),
        0 <= j < cells.len(),
        cells[i].0 == cell,
        cells[j].0 == cell,
    ensures
        i == j,
        cells[i].1 == cells[j].1,
{
}

} // verus!
