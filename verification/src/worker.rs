//! Starting a worker, and the worker's own part in a run.

use vstd::prelude::*;
use vstd::string::*;

use crate::frame::FrameError;
use crate::model::{terminated_outcome, Frame, Limits, ScriptInput, ScriptOutcome};

verus! {

/// The argument that makes the executable a worker.
pub const WORKER_ARG: &'static str = "--code-mode-worker";

/// Why a run did not start.
#[derive(Debug)]
pub enum StartError {
    /// The script or its input is over its size limit.
    Input(String),
    /// All permits are out.
    NoPermit,
    StartTooLarge,
    NoExecutable(String),
    LimitSetup(String),
    NotSpawned(String),
    LimitNotAttached(String),
    NoReader(String),
    NoWriter(String),
}

impl StartError {
    pub open spec fn text(self) -> Seq<char> {
        match self {
            StartError::Input(error) => error@,
            StartError::NoPermit => {
                "code mode concurrent worker limit reached (4); retry after a running script finishes"@
            },
            StartError::StartTooLarge => {
                "code mode start payload exceeds the IPC frame limit"@
            },
            StartError::NoExecutable(error) => {
                "code mode worker executable unavailable: "@ + error@
            },
            StartError::LimitSetup(error) => "code mode memory limit setup failed: "@ + error@,
            StartError::NotSpawned(error) => {
                "code mode worker could not start with its memory budget: "@ + error@
            },
            StartError::LimitNotAttached(error) => {
                "code mode worker memory limit setup failed: "@ + error@
            },
            StartError::NoReader(error) => "code mode reader could not start: "@ + error@,
            StartError::NoWriter(error) => "code mode writer could not start: "@ + error@,
        }
    }

    /// The error in words.
    pub fn message(&self) -> (message: String)
        ensures
            message@ == self.text(),
    {
        match self {
            StartError::Input(error) => error.clone(),
            StartError::NoPermit => {
                "code mode concurrent worker limit reached (4); retry after a running script finishes".to_owned()
            },
            StartError::StartTooLarge => {
                "code mode start payload exceeds the IPC frame limit".to_owned()
            },
            StartError::NoExecutable(error) => {
                "code mode worker executable unavailable: ".to_owned().concat(error.as_str())
            },
            StartError::LimitSetup(error) => {
                "code mode memory limit setup failed: ".to_owned().concat(error.as_str())
            },
            StartError::NotSpawned(error) => {
                "code mode worker could not start with its memory budget: ".to_owned().concat(
                    error.as_str(),
                )
            },
            StartError::LimitNotAttached(error) => {
                "code mode worker memory limit setup failed: ".to_owned().concat(error.as_str())
            },
            StartError::NoReader(error) => {
                "code mode reader could not start: ".to_owned().concat(error.as_str())
            },
            StartError::NoWriter(error) => {
                "code mode writer could not start: ".to_owned().concat(error.as_str())
            },
        }
    }

    /// The outcome of a run that did not start: it made no call.
    pub fn outcome(&self) -> (outcome: ScriptOutcome)
        ensures
            crate::json::json_view(outcome.value) == crate::json::Json::Null,
            outcome.calls == 0,
            outcome.progress@.len() == 0,
            outcome.final_result_bytes == 0,
            outcome.checkpoint is None,
            outcome.error matches Some(error) && error@ == self.text(),
    {
        terminated_outcome(0, Vec::new(), self.message())
    }
}

/// Whether a run may start: its script and input are looked at before a permit is taken.
/// Otherwise says why not. Gives the count of permits that are then out.
pub fn check_start(script: &str, input: &ScriptInput, permits_out: usize) -> (started: Result<
    usize,
    StartError,
>)
    ensures
        match crate::script::input_error(script@, *input) {
            Some(error) => started matches Err(StartError::Input(text)) && text@ == error,
            None => match crate::permits::RunPermit::taken(permits_out as nat) {
                Some(count) => started matches Ok(out) && out == count,
                None => started matches Err(StartError::NoPermit),
            },
        },
{
    match crate::script::check_input(script, input) {
        Ok(()) => {},
        Err(error) => return Err(StartError::Input(error)),
    }
    match crate::permits::RunPermit::acquire(permits_out) {
        Some(count) => Ok(count),
        None => Err(StartError::NoPermit),
    }
}

/// Whether the frame starts a run with these.
pub open spec fn starts(
    frame: Frame,
    source: Seq<char>,
    payload: ScriptInput,
    bounds: Limits,
    names: Vec<String>,
) -> bool {
    &&& frame matches Frame::Start { script, input, immutable_input, limits, catalog }
    &&& script@ == source
    &&& input == payload.payload()
    &&& immutable_input == payload.immutable()
    &&& limits == bounds
    &&& catalog == names
}

/// The frame that starts a run.
pub fn start_frame(script: &str, input: ScriptInput, limits: Limits, catalog: Vec<String>) -> (frame:
    Frame)
    ensures
        starts(frame, script@, input, limits, catalog),
{
    let (value, immutable_input) = input.into_parts();
    Frame::Start { script: script.to_owned(), input: value, immutable_input, limits, catalog }
}

/// What a worker is started with.
pub struct StartRequest {
    pub script: String,
    pub input: ScriptInput,
    pub limits: Limits,
    pub catalog: Vec<String>,
}

/// What the first frame of a worker starts. A worker whose first frame is not a start, or that
/// has none, leaves.
pub fn start_request(first: Option<Frame>) -> (request: Option<StartRequest>)
    ensures
        request is Some <==> (first matches Some(frame) && frame is Start),
        request matches Some(start) ==> starts(
            first->0,
            start.script@,
            start.input,
            start.limits,
            start.catalog,
        ),
{
    match first {
        Some(frame) => match frame {
            Frame::Start { script, input, immutable_input, limits, catalog } => Some(
                StartRequest {
                    script,
                    input: ScriptInput::from_parts(input, immutable_input),
                    limits,
                    catalog,
                },
            ),
            _ => None,
        },
        None => None,
    }
}

/// The outcome of a script for which no engine context could be made.
pub fn no_context(error: &str) -> (outcome: ScriptOutcome)
    ensures
        crate::json::json_view(outcome.value) == crate::json::Json::Null,
        outcome.calls == 0,
        outcome.progress@.len() == 0,
        outcome.final_result_bytes == 0,
        outcome.checkpoint is None,
        outcome.error matches Some(text) && text@
            == "toolport code mode: failed to create JS context: "@ + error@,
{
    terminated_outcome(
        0,
        Vec::new(),
        "toolport code mode: failed to create JS context: ".to_owned().concat(error),
    )
}

/// The outcome that a worker sends: an error of its pipe stands in place of the script's own.
pub fn final_outcome(outcome: ScriptOutcome, pipe_error: Option<String>) -> (sent: ScriptOutcome)
    ensures
        sent == (match pipe_error {
            Some(error) => ScriptOutcome { error: Some(error), ..outcome },
            None => outcome,
        }),
{
    match pipe_error {
        Some(error) => {
            let mut sent = outcome;
            sent.error = Some(error);
            sent
        },
        None => outcome,
    }
}

/// The outcome that a worker sends where its own could not be sent.
pub fn undeliverable(error: &FrameError) -> (outcome: ScriptOutcome)
    ensures
        crate::json::json_view(outcome.value) == crate::json::Json::Null,
        outcome.calls == 0,
        outcome.progress@.len() == 0,
        outcome.final_result_bytes == 0,
        outcome.checkpoint is None,
        outcome.error matches Some(text) && text@
            == "code mode final result exceeded the IPC limit or could not be sent: "@
            + error.text(),
{
    terminated_outcome(
        0,
        Vec::new(),
        "code mode final result exceeded the IPC limit or could not be sent: ".to_owned().concat(
            error.message().as_str(),
        ),
    )
}

/// A worker starts with what its parent sent: a start frame determines the script, the input and
/// whether it is immutable, the limits and the catalog.
pub proof fn law_start_crosses_the_pipe(
    frame: Frame,
    sent_script: Seq<char>,
    sent_input: ScriptInput,
    sent_limits: Limits,
    sent_catalog: Vec<String>,
    script: Seq<char>,
    input: ScriptInput,
    limits: Limits,
    catalog: Vec<String>,
)
    requires
        starts(frame, sent_script, sent_input, sent_limits, sent_catalog),
        starts(frame, script, input, limits, catalog),
    ensures
        script == sent_script,
        input == sent_input,
        limits == sent_limits,
        catalog == sent_catalog,
{
}

/// A start frame holds what the run starts with: the script and the payload whole, whether the
/// input is immutable, the limits and the catalog; and any frame that holds those starts it.
pub proof fn law_start_frame_holds_the_run(
    frame: Frame,
    source: Seq<char>,
    payload: ScriptInput,
    bounds: Limits,
    names: Vec<String>,
)
    ensures
        starts(frame, source, payload, bounds, names) <==> {
            &&& frame matches Frame::Start { script, input, immutable_input, limits, catalog }
            &&& script@ == source
            &&& (payload == ScriptInput::Data(input) && !immutable_input) || (payload
                == ScriptInput::ImmutableInput(input) && immutable_input)
            &&& limits == bounds
            &&& catalog == names
        },
{
}

/// What a run that did not start is told ends in what went wrong, whole, after what was tried.
pub proof fn law_start_errors_keep_their_detail(error: String)
    ensures
        StartError::Input(error).text() == error@,
        StartError::NoExecutable(error).text() == "code mode worker executable unavailable: "@
            + error@,
        StartError::LimitSetup(error).text() == "code mode memory limit setup failed: "@ + error@,
        StartError::NotSpawned(error).text()
            == "code mode worker could not start with its memory budget: "@ + error@,
        StartError::LimitNotAttached(error).text()
            == "code mode worker memory limit setup failed: "@ + error@,
        StartError::NoReader(error).text() == "code mode reader could not start: "@ + error@,
        StartError::NoWriter(error).text() == "code mode writer could not start: "@ + error@,
{
}

} // verus!
