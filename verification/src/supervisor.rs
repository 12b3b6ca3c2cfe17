//! The parent's side of a run: it owns the host bindings, and holds the worker to its limits
//! whatever the worker sends.
//!
//! [`Supervisor::step`] takes what happened and says what to do next. The caller waits for
//! frames, runs host calls and writes replies.

use serde_json::Value;
use std::collections::HashSet;
use vstd::prelude::*;
use vstd::string::*;

use crate::frame::{json_size, FrameError, MAX_FRAME_BYTES};
use crate::host::MAX_CHECKPOINT_BYTES;
use crate::host_calls::{Calls, HostCalls, Move};
use crate::json::{error_result, result_ok};
use crate::ledger::sort_by_index;
use crate::model::{
    terminated_outcome, CallRecord, FetchArgs, Frame, Limits, ScriptOutcome,
};

verus! {

broadcast use vstd::std_specs::hash::group_hash_axioms;

/// Work for the host.
pub enum HostRequest {
    Call { id: u64, index: usize, name: String, args: Value },
    Fetch { id: u64, args: FetchArgs },
}

/// What happened.
pub enum Event {
    /// The request that started the run was cancelled.
    Cancelled,
    /// The wall-clock budget is used up.
    Deadline,
    /// Nothing came in for a while.
    Idle,
    /// The threads that report events are gone.
    Disconnected,
    /// The worker's pipe closed or broke; `exit` says what became of the worker.
    PipeClosed { exit: String, error: String },
    Failure(String),
    /// A host call is done and its reply can be sent.
    HostReply(Frame),
    /// A reply could not be queued.
    ReplyRefused,
    /// A host call could not be run.
    HostNotStarted(String),
    /// The worker sent a frame; `fits` says whether its encoding is within the limit for host
    /// arguments.
    Frame { frame: Frame, fits: bool },
}

/// What to do next.
pub enum Action {
    Wait,
    Send(Frame),
    Dispatch(HostRequest),
    Finish(ScriptOutcome),
    Fail(String),
}

/// What an [`Action`] is, apart from what it carries.
pub enum Reaction {
    Wait,
    Send,
    Dispatch,
    Finish,
    Fail(Seq<char>),
}

/// The supervision of one run.
pub struct Supervisor {
    pub(crate) max_calls: usize,
    pub(crate) max_parallel: usize,
    /// Host calls that the worker made.
    pub(crate) calls: usize,
    /// Host calls that are at work.
    pub(crate) inflight: usize,
    pub(crate) seen_ids: HashSet<u64>,
    pub(crate) seen_indices: HashSet<usize>,
    pub(crate) checkpoint: Option<Value>,
}

/// What a [`Supervisor`] holds.
#[verifier::ext_equal]
pub struct Watch {
    pub max_calls: nat,
    pub max_parallel: nat,
    pub calls: nat,
    pub inflight: nat,
    pub ids: Set<u64>,
    pub indices: Set<usize>,
    pub checkpoint: Option<Value>,
}

impl View for Supervisor {
    type V = Watch;

    open(crate) spec fn view(&self) -> Watch {
        Watch {
            max_calls: self.max_calls as nat,
            max_parallel: self.max_parallel as nat,
            calls: self.calls as nat,
            inflight: self.inflight as nat,
            ids: self.seen_ids@,
            indices: self.seen_indices@,
            checkpoint: self.checkpoint,
        }
    }
}

/// The id of a frame that asks for host work.
pub open spec fn request_id(frame: Frame) -> Option<u64> {
    match frame {
        Frame::Call { id, .. } => Some(id),
        Frame::Fetch { id, .. } => Some(id),
        _ => None,
    }
}

impl Watch {
    pub open spec fn wf(self) -> bool {
        &&& self.max_parallel >= 1
        &&& self.calls <= self.max_calls
        &&& self.inflight <= self.max_parallel
        &&& self.inflight <= self.calls
        &&& forall|index: usize| #[trigger] self.indices.contains(index) ==> index < self.max_calls
        &&& self.indices.finite() && self.indices.len() <= self.calls
        &&& self.checkpoint matches Some(value) ==> crate::frame::size_within(
            value,
            MAX_CHECKPOINT_BYTES as nat,
        ) is Some
    }

    /// A run that nothing happened to yet.
    pub open spec fn start(max_calls: nat, max_parallel: nat) -> Watch {
        Watch {
            max_calls,
            max_parallel: if max_parallel == 0 {
                1
            } else {
                max_parallel
            },
            calls: 0,
            inflight: 0,
            ids: Set::empty(),
            indices: Set::empty(),
            checkpoint: None,
        }
    }

    /// Why a request is refused before it counts, if it is.
    pub open spec fn request_error(self, id: u64, fits: bool) -> Option<Seq<char>> {
        if self.calls >= self.max_calls || self.ids.contains(id) {
            Some("code mode worker exceeded its call budget or reused a request id"@)
        } else if self.inflight >= self.max_parallel {
            Some("code mode worker exceeded its host-call parallelism limit"@)
        } else if !fits {
            Some("code mode host arguments exceed the value limit"@)
        } else {
            None
        }
    }

    /// Whether the position of a call can be taken.
    pub open spec fn position_free(self, index: usize) -> bool {
        index < self.max_calls && !self.indices.contains(index)
    }

    /// What is done about a frame of the worker.
    pub open spec fn react_to_frame(self, frame: Frame, fits: bool) -> Reaction {
        match frame {
            Frame::Outcome { .. } => if self.inflight != 0 {
                Reaction::Fail("code mode worker returned with host calls still pending"@)
            } else {
                Reaction::Finish
            },
            Frame::Checkpoint { value } => if crate::frame::size_within(
                value,
                MAX_CHECKPOINT_BYTES as nat,
            ) is None {
                Reaction::Fail("code mode checkpoint exceeded its byte limit"@)
            } else {
                Reaction::Wait
            },
            Frame::Call { id, index, .. } => match self.request_error(id, fits) {
                Some(error) => Reaction::Fail(error),
                None => if self.position_free(index) {
                    Reaction::Dispatch
                } else {
                    Reaction::Fail("code mode worker sent an invalid call position"@)
                },
            },
            Frame::Fetch { id, .. } => match self.request_error(id, fits) {
                Some(error) => Reaction::Fail(error),
                None => Reaction::Dispatch,
            },
            _ => Reaction::Fail("code mode worker sent an unexpected frame"@),
        }
    }

    /// What is done about an event.
    pub open spec fn react(self, event: Event) -> Reaction {
        match event {
            Event::Cancelled => Reaction::Fail("code mode script was cancelled"@),
            Event::Deadline => {
                Reaction::Fail("code mode worker exceeded its wall-clock deadline"@)
            },
            Event::Idle => Reaction::Wait,
            Event::Disconnected => Reaction::Fail("code mode worker IPC disconnected"@),
            Event::PipeClosed { exit, error } => Reaction::Fail(exit@ + ": "@ + error@),
            Event::Failure(error) => Reaction::Fail(error@),
            Event::HostReply(_) => Reaction::Send,
            Event::ReplyRefused => Reaction::Fail(
                "code mode response pipe exceeded its queue limit or disconnected"@,
            ),
            Event::HostNotStarted(error) => Reaction::Fail(
                "code mode host worker could not start: "@ + error@,
            ),
            Event::Frame { frame, fits } => self.react_to_frame(frame, fits),
        }
    }

    /// The request counts, and is at work.
    pub open spec fn counted(self, id: u64) -> Watch {
        Watch {
            calls: self.calls + 1,
            inflight: self.inflight + 1,
            ids: self.ids.insert(id),
            ..self
        }
    }

    /// The run after an event. A request with a position that cannot be taken still counts.
    pub open spec fn after(self, event: Event) -> Watch {
        match event {
            Event::HostReply(_) => Watch { inflight: (self.inflight - 1) as nat, ..self },
            Event::Frame { frame, fits } => match frame {
                Frame::Checkpoint { value } => if self.react_to_frame(frame, fits) is Wait {
                    Watch { checkpoint: Some(value), ..self }
                } else {
                    self
                },
                Frame::Call { id, index, .. } => if self.request_error(id, fits) is Some {
                    self.refused(id)
                } else if self.position_free(index) {
                    Watch { indices: self.indices.insert(index), ..self.counted(id) }
                } else {
                    self.counted(id)
                },
                Frame::Fetch { id, .. } => if self.request_error(id, fits) is Some {
                    self.refused(id)
                } else {
                    self.counted(id)
                },
                _ => self,
            },
            _ => self,
        }
    }

    /// The run after a request that did not count. Its id is taken all the same, unless the
    /// call budget was used up.
    pub open spec fn refused(self, id: u64) -> Watch {
        if self.calls >= self.max_calls {
            self
        } else {
            Watch { ids: self.ids.insert(id), ..self }
        }
    }
}

/// Whether the action is the reaction to the event, and carries what the event brought.
pub open spec fn carries(action: Action, reaction: Reaction, event: Event) -> bool {
    match reaction {
        Reaction::Wait => action is Wait,
        Reaction::Send => event matches Event::HostReply(frame) && action == Action::Send(frame),
        Reaction::Dispatch => {
            &&& event matches Event::Frame { frame, .. }
            &&& action matches Action::Dispatch(request)
            &&& is_request(frame, request)
        },
        Reaction::Finish => {
            &&& event matches Event::Frame { frame, .. }
            &&& frame matches Frame::Outcome { outcome }
            &&& action == Action::Finish(outcome)
        },
        Reaction::Fail(text) => action matches Action::Fail(error) && error@ == text,
    }
}

/// Whether the request is what the frame asks for.
pub open spec fn is_request(frame: Frame, request: HostRequest) -> bool {
    match frame {
        Frame::Call { id, index, name, args } => request == (HostRequest::Call {
            id,
            index,
            name,
            args,
        }),
        Frame::Fetch { id, args } => request == (HostRequest::Fetch {
            id,
            args: FetchArgs {
                cursor: args.cursor,
                offset: args.offset,
                len: args.len,
                projection: args.projection,
            },
        }),
        _ => false,
    }
}

impl Supervisor {
    pub open spec fn wf(&self) -> bool {
        self@.wf()
    }

    pub fn new(limits: &Limits) -> (supervisor: Supervisor)
        ensures
            supervisor.wf(),
            supervisor@ == Watch::start(limits.max_calls as nat, limits.max_parallel as nat),
    {
        Supervisor {
            max_calls: limits.max_calls,
            max_parallel: if limits.max_parallel == 0 {
                1
            } else {
                limits.max_parallel
            },
            calls: 0,
            inflight: 0,
            seen_ids: HashSet::new(),
            seen_indices: HashSet::new(),
            checkpoint: None,
        }
    }

    /// Counts a request, or says why it is refused.
    fn count_request(&mut self, id: u64, fits: bool) -> (refusal: Option<String>)
        requires
            old(self).wf(),
        ensures
            final(self).wf(),
            match old(self)@.request_error(id, fits) {
                Some(error) => refusal is Some && refusal->0@ == error && final(self)@ == old(
                    self)@.refused(id),
                None => refusal is None && final(self)@ == old(self)@.counted(id),
            },
    {
        if self.calls >= self.max_calls || !self.seen_ids.insert(id) {
            proof {
                if self.calls < self.max_calls {
                    assert(old(self)@.ids.insert(id) =~= self@.ids);
                }
            }
            return Some(
                "code mode worker exceeded its call budget or reused a request id".to_owned(),
            );
        }
        if self.inflight >= self.max_parallel {
            return Some("code mode worker exceeded its host-call parallelism limit".to_owned());
        }
        if !fits {
            return Some("code mode host arguments exceed the value limit".to_owned());
        }
        self.calls = self.calls + 1;
        self.inflight = self.inflight + 1;
        None
    }

    fn receive(&mut self, frame: Frame, fits: bool) -> (action: Action)
        requires
            old(self).wf(),
        ensures
            final(self).wf(),
            final(self)@ == old(self)@.after(Event::Frame { frame, fits }),
            carries(
                action,
                old(self)@.react_to_frame(frame, fits),
                Event::Frame { frame, fits },
            ),
    {
        match frame {
            Frame::Outcome { outcome } => {
                if self.inflight != 0 {
                    return Action::Fail(
                        "code mode worker returned with host calls still pending".to_owned(),
                    );
                }
                Action::Finish(outcome)
            },
            Frame::Checkpoint { value } => {
                if json_size(&value, MAX_CHECKPOINT_BYTES).is_none() {
                    return Action::Fail("code mode checkpoint exceeded its byte limit".to_owned());
                }
                self.checkpoint = Some(value);
                Action::Wait
            },
            Frame::Call { id, index, name, args } => {
                match self.count_request(id, fits) {
                    Some(error) => return Action::Fail(error),
                    None => {},
                }
                if index >= self.max_calls || !self.seen_indices.insert(index) {
                    proof {
                        assert(self@.indices =~= old(self)@.indices);
                    }
                    return Action::Fail(
                        "code mode worker sent an invalid call position".to_owned(),
                    );
                }
                Action::Dispatch(HostRequest::Call { id, index, name, args })
            },
            Frame::Fetch { id, args } => {
                match self.count_request(id, fits) {
                    Some(error) => return Action::Fail(error),
                    None => {},
                }
                Action::Dispatch(
                    HostRequest::Fetch {
                        id,
                        args: FetchArgs {
                            cursor: args.cursor,
                            offset: args.offset,
                            len: args.len,
                            projection: args.projection,
                        },
                    },
                )
            },
            _ => Action::Fail("code mode worker sent an unexpected frame".to_owned()),
        }
    }

    /// What to do about an event.
    pub fn step(&mut self, event: Event) -> (action: Action)
        requires
            old(self).wf(),
            event is HostReply ==> old(self)@.inflight > 0,
        ensures
            final(self).wf(),
            final(self)@ == old(self)@.after(event),
            carries(action, old(self)@.react(event), event),
    {
        match event {
            Event::Cancelled => Action::Fail("code mode script was cancelled".to_owned()),
            Event::Deadline => {
                Action::Fail("code mode worker exceeded its wall-clock deadline".to_owned())
            },
            Event::Idle => Action::Wait,
            Event::Disconnected => Action::Fail("code mode worker IPC disconnected".to_owned()),
            Event::PipeClosed { exit, error } => {
                let mut text = exit;
                text.append(": ");
                text.append(error.as_str());
                Action::Fail(text)
            },
            Event::Failure(error) => Action::Fail(error),
            Event::HostReply(frame) => {
                self.inflight = self.inflight - 1;
                Action::Send(frame)
            },
            Event::ReplyRefused => Action::Fail(
                "code mode response pipe exceeded its queue limit or disconnected".to_owned(),
            ),
            Event::HostNotStarted(error) => Action::Fail(
                "code mode host worker could not start: ".to_owned().concat(error.as_str()),
            ),
            Event::Frame { frame, fits } => self.receive(frame, fits),
        }
    }
}

/// What became of a host call.
pub enum Answer {
    Given(Value),
    Panicked,
    /// There is no binding for it.
    Unavailable,
}

/// Whether the result is what the answer gives, where a panic is reported as `panicked`.
pub open spec fn is_result(answer: Answer, panicked: Seq<char>, result: Value) -> bool {
    match answer {
        Answer::Given(value) => result == value,
        Answer::Panicked => crate::json::json_view(result) == crate::json::error_json(panicked),
        Answer::Unavailable => crate::json::json_view(result) == crate::json::error_json(
            "toolport.fetchResult is unavailable in this context"@,
        ),
    }
}

fn answered(answer: Answer, panicked: &str) -> (result: Value)
    ensures
        is_result(answer, panicked@, result),
{
    match answer {
        Answer::Given(value) => value,
        Answer::Panicked => error_result(panicked),
        Answer::Unavailable => error_result("toolport.fetchResult is unavailable in this context"),
    }
}

/// A host call that is done.
pub struct Completion {
    /// Its record, where it was a tool call.
    pub record: Option<CallRecord>,
    /// Its reply to the worker.
    pub reply: Frame,
    /// Whether its result alone is within the frame limit.
    pub within: bool,
}

/// The size that a record gives for a result: one over the frame limit stands for all that are
/// over it.
pub open spec fn recorded_size(result: Value) -> nat {
    match crate::frame::size_within(result, MAX_FRAME_BYTES as nat) {
        Some(size) => size,
        None => (MAX_FRAME_BYTES + 1) as nat,
    }
}

/// A tool call is done. It is recorded whether or not its reply can be sent.
pub fn complete_call(id: u64, index: usize, name: String, answer: Answer) -> (completion:
    Completion)
    ensures
        completion.reply matches Frame::CallResult { id: to, result } && {
            &&& to == id
            &&& is_result(answer, "code mode host call panicked"@, result)
            &&& completion.within == (crate::frame::size_within(
                result,
                MAX_FRAME_BYTES as nat,
            ) is Some)
            &&& completion.record == Some(
                CallRecord {
                    index,
                    name,
                    ok: crate::json::is_ok_json(crate::json::json_view(result)),
                    result_bytes: recorded_size(result) as usize,
                },
            )
        },
{
    let result = answered(answer, "code mode host call panicked");
    let size = json_size(&result, MAX_FRAME_BYTES);
    let within = size.is_some();
    let result_bytes: usize = match size {
        Some(bytes) => bytes,
        None => MAX_FRAME_BYTES + 1,
    };
    let record = CallRecord { index, name, ok: result_ok(&result), result_bytes };
    Completion { record: Some(record), reply: Frame::CallResult { id, result }, within }
}

/// A fetch is done. It commits nothing downstream, so it is not recorded.
pub fn complete_fetch(id: u64, answer: Answer) -> (completion: Completion)
    ensures
        completion.record is None,
        completion.reply matches Frame::FetchResult { id: to, result } && {
            &&& to == id
            &&& is_result(answer, "code mode fetchResult panicked"@, result)
            &&& completion.within == (crate::frame::size_within(
                result,
                MAX_FRAME_BYTES as nat,
            ) is Some)
        },
{
    let result = answered(answer, "code mode fetchResult panicked");
    let within = json_size(&result, MAX_FRAME_BYTES).is_some();
    Completion { record: None, reply: Frame::FetchResult { id, result }, within }
}

/// The event of a host call that is done; `fits` says whether its reply is within the frame
/// limit.
pub fn host_event(reply: Frame, within: bool, fits: bool) -> (event: Event)
    ensures
        within && fits ==> event == Event::HostReply(reply),
        !(within && fits) ==> (event matches Event::Failure(error) && error@
            == "host result exceeded the code mode IPC frame limit"@),
{
    if within && fits {
        Event::HostReply(reply)
    } else {
        Event::Failure("host result exceeded the code mode IPC frame limit".to_owned())
    }
}

/// How the pipe to a worker failed.
pub enum PipeTrouble {
    /// It closed or broke, so the worker's end says more.
    Closed(String),
    /// It carried something that is no frame.
    Failure(String),
}

/// How a failed read or write of the pipe is reported.
pub fn pipe_error(error: &FrameError) -> (trouble: PipeTrouble)
    ensures
        error is Io ==> (trouble matches PipeTrouble::Closed(text) && text@ == error.text()),
        !(error is Io) ==> (trouble matches PipeTrouble::Failure(text) && text@ == error.text()),
{
    match error {
        FrameError::Io(_) => PipeTrouble::Closed(error.message()),
        _ => PipeTrouble::Failure(error.message()),
    }
}

/// How a pipe that ends between frames is reported.
pub fn pipe_ended() -> (trouble: PipeTrouble)
    ensures
        trouble matches PipeTrouble::Closed(text) && text@
            == "worker pipe closed without an outcome"@,
{
    PipeTrouble::Closed("worker pipe closed without an outcome".to_owned())
}

/// What is added to the error of a run that ends with host calls at work.
pub const STILL_IN_FLIGHT: &'static str =
    "; host calls may still be in flight, cancellation requested; do not automatically retry them";

/// The number of calls that a run reports: what the worker says, at least what the parent saw,
/// and at most the budget.
pub open spec fn reported_calls(watch: Watch, claimed: nat) -> nat {
    let seen = if claimed < watch.calls {
        watch.calls
    } else {
        claimed
    };
    if seen < watch.max_calls {
        seen
    } else {
        watch.max_calls
    }
}

impl Supervisor {
    /// How many host calls the worker made.
    pub fn calls(&self) -> (calls: usize)
        ensures
            calls == self@.calls,
    {
        self.calls
    }

    /// How many host calls are at work.
    pub fn inflight(&self) -> (count: usize)
        ensures
            count == self@.inflight,
    {
        self.inflight
    }

    /// Ends the run with a result. Its host calls are stopped: those at work are cancelled, and so
    /// is every one that begins later. The outcome comes of the ended run alone, so that no run
    /// reports before its host calls are stopped.
    pub fn end(self, result: Result<ScriptOutcome, String>, host_calls: &mut HostCalls) -> (ended:
        EndedRun)
        requires
            self.wf(),
            old(host_calls).wf(),
        ensures
            final(host_calls).wf(),
            final(host_calls)@ == old(host_calls)@.stop(),
            cancelled_for_good(final(host_calls)@),
            ended.wf(),
            ended.watch() == self@,
            ended.result() == result,
            ended.host_calls() == final(host_calls)@,
    {
        host_calls.stop();
        proof {
            lemma_cancelled_for_good(host_calls@);
        }
        EndedRun { supervisor: self, result, stopped: Ghost(host_calls@) }
    }
}

/// Whatever happens to the host calls from now on, each that is at work is cancelled.
pub open spec fn cancelled_for_good(calls: Calls) -> bool {
    forall|moves: Seq<Move>, id: u64| #[trigger]
        calls.after(moves).active.contains(id) ==> calls.after(moves).cancelled(id)
}

proof fn lemma_cancelled_for_good(calls: Calls)
    requires
        calls.stopped,
    ensures
        cancelled_for_good(calls),
{
    assert(calls.stop() =~= calls);
    assert forall|moves: Seq<Move>, id: u64| #[trigger]
        calls.after(moves).active.contains(id) implies calls.after(moves).cancelled(id) by {
        crate::host_calls::law_stop_is_final(calls, moves);
    }
}

/// A run that has ended, whose host calls are stopped.
pub struct EndedRun {
    pub(crate) supervisor: Supervisor,
    pub(crate) result: Result<ScriptOutcome, String>,
    pub(crate) stopped: Ghost<Calls>,
}

impl EndedRun {
    /// The supervision at the end of the run.
    pub open(crate) spec fn watch(&self) -> Watch {
        self.supervisor@
    }

    /// What the run ended with.
    pub open(crate) spec fn result(&self) -> Result<ScriptOutcome, String> {
        self.result
    }

    /// The host calls at the end of the run.
    pub open(crate) spec fn host_calls(&self) -> Calls {
        self.stopped@
    }

    pub open spec fn wf(&self) -> bool {
        self.watch().wf() && self.host_calls().stopped
    }

    /// The outcome of the run. The parent's own records and checkpoint stand in place of the
    /// worker's.
    pub fn conclude(self, records: Vec<CallRecord>) -> (outcome: ScriptOutcome)
        requires
            self.wf(),
        ensures
            crate::ledger::is_in_call_order(outcome.progress@, records@),
            outcome.checkpoint == self.watch().checkpoint,
            match self.result() {
                Ok(claimed) => {
                    &&& outcome.calls == reported_calls(self.watch(), claimed.calls as nat)
                    &&& outcome.value == claimed.value
                    &&& outcome.final_result_bytes == claimed.final_result_bytes
                    &&& outcome.error == claimed.error
                },
                Err(error) => {
                    &&& outcome.calls == self.watch().calls
                    &&& crate::json::json_view(outcome.value) == crate::json::Json::Null
                    &&& outcome.final_result_bytes == 0
                    &&& outcome.error matches Some(text)
                    &&& text@ == if self.watch().inflight != 0 {
                        error@ + STILL_IN_FLIGHT@
                    } else {
                        error@
                    }
                },
            },
    {
        let supervisor = self.supervisor;
        let progress = sort_by_index(records);
        match self.result {
            Ok(claimed) => {
                let seen: usize = if claimed.calls < supervisor.calls {
                    supervisor.calls
                } else {
                    claimed.calls
                };
                let calls: usize = if seen < supervisor.max_calls {
                    seen
                } else {
                    supervisor.max_calls
                };
                ScriptOutcome {
                    value: claimed.value,
                    calls,
                    progress,
                    final_result_bytes: claimed.final_result_bytes,
                    checkpoint: supervisor.checkpoint,
                    error: claimed.error,
                }
            },
            Err(error) => {
                let mut text = error;
                if supervisor.inflight != 0 {
                    text.append(STILL_IN_FLIGHT);
                }
                let mut outcome = terminated_outcome(supervisor.calls, progress, text);
                outcome.checkpoint = supervisor.checkpoint;
                outcome
            },
        }
    }
}

impl Watch {
    /// The run after the events.
    pub open spec fn after_all(self, events: Seq<Event>) -> Watch
        decreases events.len(),
    {
        if events.len() == 0 {
            self
        } else {
            self.after_all(events.drop_last()).after(events.last())
        }
    }

    /// A host call can come back only where one is at work.
    pub open spec fn possible(self, events: Seq<Event>) -> bool
        decreases events.len(),
    {
        events.len() > 0 ==> {
            &&& self.possible(events.drop_last())
            &&& events.last() is HostReply ==> self.after_all(events.drop_last()).inflight > 0
        }
    }
}

/// How many host calls the events bring back.
pub open spec fn replies(events: Seq<Event>) -> nat
    decreases events.len(),
{
    if events.len() == 0 {
        0
    } else {
        replies(events.drop_last()) + if events.last() is HostReply {
            1nat
        } else {
            0
        }
    }
}

/// Whatever a worker sends, its run stays within its limits: no more calls than its budget, no
/// more at work at once than it may have, and every call at work or come back was counted.
pub proof fn law_worker_stays_in_bounds(watch: Watch, events: Seq<Event>)
    requires
        watch.wf(),
        watch.possible(events),
    ensures
        watch.after_all(events).wf(),
        watch.after_all(events).max_calls == watch.max_calls,
        watch.after_all(events).max_parallel == watch.max_parallel,
        watch.after_all(events).calls <= watch.max_calls,
        watch.after_all(events).inflight <= watch.max_parallel,
        watch.after_all(events).inflight + replies(events) + watch.calls == watch.inflight
            + watch.after_all(events).calls,
        watch.ids.subset_of(watch.after_all(events).ids),
        watch.indices.subset_of(watch.after_all(events).indices),
    decreases events.len(),
{
    if events.len() > 0 {
        law_worker_stays_in_bounds(watch, events.drop_last());
    }
}

/// No request is carried out twice: two frames that are passed to the host have different ids,
/// and two calls have different positions.
pub proof fn law_no_request_runs_twice(
    watch: Watch,
    first: Frame,
    fits: bool,
    between: Seq<Event>,
    second: Frame,
    fits_too: bool,
)
    requires
        watch.wf(),
        watch.react_to_frame(first, fits) is Dispatch,
        watch.after(Event::Frame { frame: first, fits }).possible(between),
        watch.after(Event::Frame { frame: first, fits }).after_all(between).react_to_frame(
            second,
            fits_too,
        ) is Dispatch,
    ensures
        request_id(first) is Some && request_id(second) is Some,
        request_id(first) != request_id(second),
        first matches Frame::Call { index: i, .. } ==> (second matches Frame::Call {
            index: j,
            ..
        } ==> i != j),
{
    let begun = watch.after(Event::Frame { frame: first, fits });
    assert(begun.wf());
    law_worker_stays_in_bounds(begun, between);
}

/// A run reports every call that its parent saw, and never more than its budget, whatever the
/// worker claims.
pub proof fn law_report_is_within_the_budget(watch: Watch, claimed: nat)
    requires
        watch.wf(),
    ensures
        watch.calls <= reported_calls(watch, claimed) <= watch.max_calls,
        watch.calls <= claimed <= watch.max_calls ==> reported_calls(watch, claimed) == claimed,
{
}

/// The positions of records are among those that the run took, each once.
pub open spec fn at_taken_positions(records: Seq<CallRecord>, watch: Watch) -> bool {
    &&& forall|i: int|
        0 <= i < records.len() ==> watch.indices.contains((#[trigger] records[i]).index)
    &&& forall|i: int, j: int|
        0 <= i < j < records.len() ==> (#[trigger] records[i]).index != (
        #[trigger] records[j]).index
}

proof fn lemma_positions_fit(records: Seq<CallRecord>, watch: Watch)
    requires
        watch.wf(),
        at_taken_positions(records, watch),
    ensures
        records.len() <= watch.calls,
{
    let places = records.map_values(|record: CallRecord| record.index);
    assert(places.no_duplicates()) by {
        assert forall|i: int, j: int|
            0 <= i < places.len() && 0 <= j < places.len() && i != j implies places[i]
            != places[j] by {
            if i < j {
                assert(records[i].index != records[j].index);
            } else {
                assert(records[j].index != records[i].index);
            }
        }
    }
    places.unique_seq_to_set();
    assert(places.to_set().subset_of(watch.indices)) by {
        assert forall|index: usize| places.to_set().contains(index) implies watch.indices.contains(
            index,
        ) by {
            let i = choose|i: int| 0 <= i < places.len() && places[i] == index;
            assert(watch.indices.contains(records[i].index));
        }
    }
    vstd::set_lib::lemma_len_subset(places.to_set(), watch.indices);
}

proof fn lemma_one_of_index(records: Seq<CallRecord>, index: usize)
    requires
        forall|i: int, j: int|
            0 <= i < j < records.len() ==> (#[trigger] records[i]).index != (
            #[trigger] records[j]).index,
    ensures
        crate::ledger::of_index(records, index).len() <= 1,
        crate::ledger::of_index(records, index).len() == 1 ==> exists|i: int|
            0 <= i < records.len() && (#[trigger] records[i]).index == index,
    decreases records.len(),
{
    reveal(Seq::filter);
    if records.len() > 0 {
        let front = records.drop_last();
        assert(forall|i: int| 0 <= i < front.len() ==> #[trigger] front[i] == records[i]);
        lemma_one_of_index(front, index);
        let last = records[records.len() - 1];
        if last.index == index {
            if crate::ledger::of_index(front, index).len() == 1 {
                let i = choose|i: int| 0 <= i < front.len() && (#[trigger] front[i]).index == index;
                assert(records[i].index != last.index);
            }
        } else if crate::ledger::of_index(front, index).len() == 1 {
            let i = choose|i: int| 0 <= i < front.len() && (#[trigger] front[i]).index == index;
            assert(records[i].index == index);
        }
    }
}

/// The ledger of a whole run: where the records are of calls that the worker made, each recorded
/// once, they are listed strictly upwards by position, every position is within the budget, and
/// there are no more of them than calls.
pub proof fn law_ledger_of_a_run(
    watch: Watch,
    events: Seq<Event>,
    records: Seq<CallRecord>,
    progress: Seq<CallRecord>,
)
    requires
        watch.wf(),
        watch.possible(events),
        at_taken_positions(records, watch.after_all(events)),
        crate::ledger::is_in_call_order(progress, records),
    ensures
        forall|i: int, j: int|
            0 <= i < j < progress.len() ==> (#[trigger] progress[i]).index < (
            #[trigger] progress[j]).index,
        forall|i: int|
            0 <= i < progress.len() ==> (#[trigger] progress[i]).index < watch.max_calls,
        progress.len() <= watch.after_all(events).calls <= watch.max_calls,
{
    law_worker_stays_in_bounds(watch, events);
    let last = watch.after_all(events);
    lemma_positions_fit(records, last);
    assert forall|index: usize| (#[trigger] crate::ledger::of_index(records, index)).len() <= 1 by {
        lemma_one_of_index(records, index);
    }
    crate::ledger::law_distinct_positions_ascend(progress, records);
    assert forall|i: int| 0 <= i < progress.len() implies (#[trigger] progress[i]).index
        < watch.max_calls by {
        let index = progress[i].index;
        let here = |record: CallRecord| record.index == index;
        progress.lemma_filter_contains(here, i);
        assert(crate::ledger::of_index(progress, index).len() >= 1);
        assert(crate::ledger::of_index(progress, index) == crate::ledger::of_index(
            records,
            index,
        ));
        lemma_one_of_index(records, index);
        let k = choose|k: int| 0 <= k < records.len() && (#[trigger] records[k]).index == index;
        assert(last.indices.contains(records[k].index));
    }
}

/// What the parent does before it looks for a message.
#[derive(Debug, Clone, Copy, PartialEq, Eq, Structural)]
pub enum Watchfulness {
    Cancelled,
    Deadline,
    /// Wait for a message, this many nanoseconds at most.
    Wait(u64),
}

/// The longest wait for a message, in nanoseconds, so that a cancelled run is noticed soon.
pub const LONGEST_WAIT_NANOS: u64 = 25_000_000;

/// What comes before the next message: a cancelled run is noticed first, then the deadline. The
/// wait ends at the deadline at the latest.
pub fn before_message(cancelled: bool, remaining_nanos: u128) -> (next: Watchfulness)
    ensures
        next == (if cancelled {
            Watchfulness::Cancelled
        } else if remaining_nanos == 0 {
            Watchfulness::Deadline
        } else if remaining_nanos < LONGEST_WAIT_NANOS {
            Watchfulness::Wait(remaining_nanos as u64)
        } else {
            Watchfulness::Wait(LONGEST_WAIT_NANOS)
        }),
{
    if cancelled {
        Watchfulness::Cancelled
    } else if remaining_nanos == 0 {
        Watchfulness::Deadline
    } else if remaining_nanos < LONGEST_WAIT_NANOS as u128 {
        Watchfulness::Wait(remaining_nanos as u64)
    } else {
        Watchfulness::Wait(LONGEST_WAIT_NANOS)
    }
}

/// A run that has ended leaves no host call running unnoticed: each that was at work is cancelled,
/// and each that begins later is cancelled from the start, whatever else happens to them.
pub proof fn law_ended_run_stops_its_host_calls(ended: EndedRun, moves: Seq<Move>, id: u64)
    requires
        ended.wf(),
    ensures
        ended.host_calls().after(moves).stopped,
        ended.host_calls().after(moves).active.contains(id) ==> ended.host_calls().after(
            moves,
        ).cancelled(id),
{
    let calls = ended.host_calls();
    assert(calls.stop() =~= calls);
    crate::host_calls::law_stop_is_final(calls, moves);
}

/// A frame asks for one thing only: the host carries out what the worker asked for.
pub proof fn law_request_crosses_the_pipe(frame: Frame, sent: HostRequest, carried: HostRequest)
    requires
        is_request(frame, sent),
        is_request(frame, carried),
    ensures
        carried == sent,
{
}

/// A worker's outcome is taken only while no host call is at work.
pub proof fn law_outcome_waits_for_the_host(watch: Watch, event: Event)
    requires
        watch.react(event) is Finish,
    ensures
        watch.inflight == 0,
        watch.after(event) == watch,
{
}

/// What an event marks: the value of a checkpoint frame whose encoding is within 4096 bytes.
pub open spec fn marked_by(event: Event) -> Option<Value> {
    match event {
        Event::Frame { frame: Frame::Checkpoint { value }, .. } => match crate::json::json_text(
            value,
        ) {
            Some(text) => if vstd::utf8::encode_utf8(text).len() <= 4096 {
                Some(value)
            } else {
                None
            },
            None => None,
        },
        _ => None,
    }
}

/// The last mark stands: after any events, the checkpoint is the value of the last checkpoint
/// frame within the byte limit, whatever was marked before it and whatever else comes.
pub proof fn law_last_mark_stands(watch: Watch, events: Seq<Event>, last: int)
    requires
        0 <= last < events.len(),
        marked_by(events[last]) is Some,
        forall|i: int| last < i < events.len() ==> marked_by(#[trigger] events[i]) is None,
    ensures
        watch.after_all(events).checkpoint == marked_by(events[last]),
    decreases events.len(),
{
    let front = events.drop_last();
    if last < front.len() {
        assert(forall|i: int| 0 <= i < front.len() ==> #[trigger] front[i] == events[i]);
        law_last_mark_stands(watch, front, last);
        assert(marked_by(events.last()) is None);
    }
}

/// Where no event marks anything, the checkpoint stays what it was.
pub proof fn law_checkpoint_stays_without_a_mark(watch: Watch, events: Seq<Event>)
    requires
        forall|i: int| 0 <= i < events.len() ==> marked_by(#[trigger] events[i]) is None,
    ensures
        watch.after_all(events).checkpoint == watch.checkpoint,
    decreases events.len(),
{
    if events.len() > 0 {
        let front = events.drop_last();
        assert(forall|i: int| 0 <= i < front.len() ==> #[trigger] front[i] == events[i]);
        law_checkpoint_stays_without_a_mark(watch, front);
        assert(marked_by(events.last()) is None);
    }
}

/// A run begins with nothing asked for and nothing marked; without parallelism it still has one
/// call at work.
pub proof fn law_supervision_begins_empty(max_calls: nat, max_parallel: nat)
    ensures
        ({
            let watch = Watch::start(max_calls, max_parallel);
            &&& watch.max_calls == max_calls
            &&& max_parallel > 0 ==> watch.max_parallel == max_parallel
            &&& max_parallel == 0 ==> watch.max_parallel == 1
            &&& watch.calls == 0 && watch.inflight == 0
            &&& forall|id: u64| !#[trigger] watch.ids.contains(id)
            &&& forall|index: usize| !#[trigger] watch.indices.contains(index)
            &&& watch.checkpoint is None
        }),
{
}

/// A request for a new id counts and is at work, while the budget has a call left, one more may
/// be at work and its arguments fit. A fetch is passed to the host; a call is where its position
/// is within the budget and new, and then takes it.
pub proof fn law_requests_within_the_limits_are_passed_on(watch: Watch, frame: Frame)
    requires
        request_id(frame) is Some,
        watch.calls < watch.max_calls,
        watch.inflight < watch.max_parallel,
        !watch.ids.contains(request_id(frame)->0),
    ensures
        ({
            let after = watch.after(Event::Frame { frame, fits: true });
            let reaction = watch.react(Event::Frame { frame, fits: true });
            &&& after.calls == watch.calls + 1
            &&& after.inflight == watch.inflight + 1
            &&& after.ids == watch.ids.insert(request_id(frame)->0)
            &&& after.max_calls == watch.max_calls && after.max_parallel == watch.max_parallel
            &&& after.checkpoint == watch.checkpoint
            &&& match frame {
                Frame::Fetch { .. } => reaction is Dispatch && after.indices == watch.indices,
                Frame::Call { index, .. } => if index < watch.max_calls
                    && !watch.indices.contains(index) {
                    reaction is Dispatch && after.indices == watch.indices.insert(index)
                } else {
                    reaction == Reaction::Fail("code mode worker sent an invalid call position"@)
                        && after.indices == watch.indices
                },
                _ => false,
            }
        }),
{
}

/// A request past a limit is refused, for the first of these that holds: the budget is used up
/// or its id was taken; as many as may be are at work; or its arguments do not fit. It does not
/// count and takes no position. Its id is taken all the same, unless the budget was used up.
pub proof fn law_requests_past_a_limit_are_refused(watch: Watch, frame: Frame, fits: bool)
    requires
        request_id(frame) is Some,
    ensures
        ({
            let id = request_id(frame)->0;
            let after = watch.after(Event::Frame { frame, fits });
            let reaction = watch.react(Event::Frame { frame, fits });
            let spent = watch.calls >= watch.max_calls;
            let taken = watch.ids.contains(id);
            let busy = watch.inflight >= watch.max_parallel;
            &&& spent || taken ==> reaction == Reaction::Fail(
                "code mode worker exceeded its call budget or reused a request id"@,
            )
            &&& !spent && !taken && busy ==> reaction == Reaction::Fail(
                "code mode worker exceeded its host-call parallelism limit"@,
            )
            &&& !spent && !taken && !busy && !fits ==> reaction == Reaction::Fail(
                "code mode host arguments exceed the value limit"@,
            )
            &&& spent || taken || busy || !fits ==> {
                &&& after.calls == watch.calls
                &&& after.inflight == watch.inflight
                &&& after.indices == watch.indices
                &&& after.checkpoint == watch.checkpoint
                &&& after.max_calls == watch.max_calls
                &&& after.max_parallel == watch.max_parallel
                &&& spent ==> after.ids == watch.ids
                &&& !spent ==> after.ids == watch.ids.insert(id)
            }
        }),
{
}

/// Only calls and fetches are requests, each under its own id.
pub proof fn law_requests_carry_their_id(frame: Frame)
    ensures
        frame matches Frame::Call { id, .. } ==> request_id(frame) == Some(id),
        frame matches Frame::Fetch { id, .. } ==> request_id(frame) == Some(id),
        !(frame is Call) && !(frame is Fetch) ==> request_id(frame) is None,
{
}

/// What is done carries what happened: a reply is sent as it is, a request passed to the host is
/// the one that the frame asks for, an outcome is finished with as it is while no host call is at
/// work, and each failure says what failed.
pub proof fn law_each_event_has_its_action(watch: Watch, event: Event, action: Action)
    requires
        carries(action, watch.react(event), event),
    ensures
        match event {
            Event::Cancelled => fails_with(action, "code mode script was cancelled"@),
            Event::Deadline => fails_with(
                action,
                "code mode worker exceeded its wall-clock deadline"@,
            ),
            Event::Idle => action is Wait,
            Event::Disconnected => fails_with(action, "code mode worker IPC disconnected"@),
            Event::PipeClosed { exit, error } => fails_with(action, exit@ + ": "@ + error@),
            Event::Failure(error) => fails_with(action, error@),
            Event::HostReply(frame) => action == Action::Send(frame),
            Event::ReplyRefused => fails_with(
                action,
                "code mode response pipe exceeded its queue limit or disconnected"@,
            ),
            Event::HostNotStarted(error) => fails_with(
                action,
                "code mode host worker could not start: "@ + error@,
            ),
            Event::Frame { frame, .. } => match frame {
                Frame::Outcome { outcome } => if watch.inflight == 0 {
                    action == Action::Finish(outcome)
                } else {
                    fails_with(action, "code mode worker returned with host calls still pending"@)
                },
                Frame::Checkpoint { .. } => if marked_by(event) is Some {
                    action is Wait
                } else {
                    fails_with(action, "code mode checkpoint exceeded its byte limit"@)
                },
                Frame::Call { id, index, name, args } => watch.react(event) is Dispatch
                    ==> action == Action::Dispatch(HostRequest::Call { id, index, name, args }),
                Frame::Fetch { id, args } => watch.react(event) is Dispatch ==> {
                    &&& action matches Action::Dispatch(request)
                    &&& request matches HostRequest::Fetch { id: to, args: passed }
                    &&& to == id
                    &&& passed.cursor == args.cursor
                    &&& passed.offset == args.offset
                    &&& passed.len == args.len
                    &&& passed.projection == args.projection
                },
                _ => fails_with(action, "code mode worker sent an unexpected frame"@),
            },
        },
        watch.react(event) matches Reaction::Fail(text) ==> fails_with(action, text),
{
}

/// Whether the action fails the run with this text.
pub open spec fn fails_with(action: Action, text: Seq<char>) -> bool {
    action matches Action::Fail(error) && error@ == text
}

/// A reply takes one call off those at work, a mark changes the checkpoint alone, and any other
/// event than a request changes nothing.
pub proof fn law_only_requests_and_replies_are_counted(watch: Watch, event: Event)
    requires
        event matches Event::Frame { frame, .. } ==> request_id(frame) is None,
        event is HostReply ==> watch.inflight > 0,
    ensures
        watch.after(event).calls == watch.calls,
        watch.after(event).ids == watch.ids,
        watch.after(event).indices == watch.indices,
        watch.after(event).max_calls == watch.max_calls,
        watch.after(event).max_parallel == watch.max_parallel,
        event is HostReply ==> watch.after(event).inflight + 1 == watch.inflight,
        !(event is HostReply) ==> watch.after(event).inflight == watch.inflight,
        marked_by(event) is None ==> watch.after(event).checkpoint == watch.checkpoint,
        marked_by(event) is Some ==> watch.after(event).checkpoint == marked_by(event),
{
}

/// A run reports what the worker claims where that is possible, and else the nearest number that
/// is: the calls that the parent saw, or the budget.
pub proof fn law_report_is_the_nearest_possible(watch: Watch, claimed: nat)
    requires
        watch.wf(),
    ensures
        claimed <= watch.calls ==> reported_calls(watch, claimed) == watch.calls,
        watch.calls <= claimed <= watch.max_calls ==> reported_calls(watch, claimed) == claimed,
        claimed >= watch.max_calls ==> reported_calls(watch, claimed) == watch.max_calls,
{
}

/// A record gives the size of its result's encoding, and one byte over the frame limit for every
/// result over it.
pub proof fn law_recorded_size_is_exact_up_to_the_limit(result: Value)
    ensures
        match crate::json::json_text(result) {
            Some(text) => if vstd::utf8::encode_utf8(text).len() <= 16_777_216 {
                recorded_size(result) == vstd::utf8::encode_utf8(text).len()
            } else {
                recorded_size(result) == 16_777_217
            },
            None => recorded_size(result) == 16_777_217,
        },
{
}

/// A host's answer is given on as it is, whatever it holds; only where there is none is the
/// result made up, as a failed one that says why.
pub proof fn law_answers_are_given_on(answer: Answer, panicked: Seq<char>, result: Value)
    requires
        is_result(answer, panicked, result),
    ensures
        answer matches Answer::Given(value) ==> result == value,
        !(answer is Given) ==> {
            &&& crate::json::json_view(result) matches crate::json::Json::Object(members)
            &&& members["isError"@] == crate::json::Json::Bool(true)
            &&& members["content"@] matches crate::json::Json::Array(blocks)
            &&& blocks.len() == 1
            &&& blocks[0] matches crate::json::Json::Object(block)
            &&& answer is Panicked ==> block["text"@] == crate::json::Json::Text(panicked)
            &&& answer is Unavailable ==> block["text"@] == crate::json::Json::Text(
                "toolport.fetchResult is unavailable in this context"@,
            )
        },
{
    crate::json::law_error_result_holds_its_text(panicked);
    crate::json::law_error_result_holds_its_text(
        "toolport.fetchResult is unavailable in this context"@,
    );
}

} // verus!
