//! The data that a script run takes and gives.

use core::time::Duration;
use serde_json::Value;
use vstd::prelude::*;

verus! {

/// Largest script source, in bytes.
pub const MAX_SCRIPT_BYTES: usize = 262144;

/// Largest encoded `data`, `input` or host arguments, in bytes.
pub const MAX_VALUE_BYTES: usize = 4194304;

/// Largest encoded input schema, in bytes.
pub const MAX_SCHEMA_BYTES: usize = 65536;

/// The length of a span of time in nanoseconds.
pub uninterp spec fn duration_nanos(span: Duration) -> nat;

/// `Duration::from_secs`: a span of that many whole seconds.
pub assume_specification[ Duration::from_secs ](secs: u64) -> (span: Duration)
    ensures
        duration_nanos(span) == secs * 1_000_000_000,
;

/// Arguments of `toolport.fetchResult`.
#[derive(Debug, Clone)]
pub struct FetchArgs {
    pub cursor: String,
    pub offset: usize,
    pub len: usize,
    pub projection: Option<String>,
}

/// Arguments of `toolport.fetchResult` as they cross the worker pipe.
#[derive(Debug, Clone)]
pub struct FetchFrameArgs {
    pub cursor: String,
    pub offset: usize,
    pub len: usize,
    pub projection: Option<String>,
}

/// The JSON payload exposed to a script. Ordinary Code Mode has a mutable `data` global.
/// Persisted routines get a distinct, deeply frozen `input` global.
#[derive(Debug, Clone)]
pub enum ScriptInput {
    Data(Value),
    ImmutableInput(Value),
}

/// Resource limits for one script run. All are fail-closed: exceeding any of them aborts the
/// script with an error result.
#[derive(Debug, Clone, Copy)]
pub struct Limits {
    /// Most `toolport.call`, `callAsync` and `fetchResult` invocations.
    pub max_calls: usize,
    /// Wall-clock budget for the whole run.
    pub wall_clock: Duration,
    /// Most host calls at work at once.
    pub max_parallel: usize,
    /// Most promise jobs drained during one script.
    pub max_promise_jobs: usize,
    /// Most loop iterations across the script.
    pub loop_iteration_limit: u64,
    /// Greatest recursion depth.
    pub recursion_limit: usize,
}

impl Default for Limits {
    fn default() -> (limits: Limits)
        ensures
            limits.max_calls == 64,
            duration_nanos(limits.wall_clock) == 60 * 1_000_000_000,
            limits.max_parallel == 8,
            limits.max_promise_jobs == 100_000,
            limits.loop_iteration_limit == 10_000_000,
            limits.recursion_limit == 400,
    {
        Limits {
            max_calls: 64,
            wall_clock: Duration::from_secs(60),
            max_parallel: 8,
            max_promise_jobs: 100_000,
            loop_iteration_limit: 10_000_000,
            recursion_limit: 400,
        }
    }
}

/// One downstream tool call that reached the host. It carries no arguments: those routinely hold
/// credentials and personal data.
#[derive(Debug, Clone, PartialEq)]
pub struct CallRecord {
    /// Position in the call sequence, from zero.
    pub index: usize,
    /// Exposed tool name as the script asked for it.
    pub name: String,
    /// False when the downstream result carried `isError: true`.
    pub ok: bool,
    /// Encoded size of the result.
    pub result_bytes: usize,
}

/// What a [`CallRecord`] holds.
pub struct Record {
    pub index: nat,
    pub name: Seq<char>,
    pub ok: bool,
    pub result_bytes: nat,
}

impl View for CallRecord {
    type V = Record;

    open spec fn view(&self) -> Record {
        Record {
            index: self.index as nat,
            name: self.name@,
            ok: self.ok,
            result_bytes: self.result_bytes as nat,
        }
    }
}

/// What a list of records holds.
pub open spec fn records(list: Seq<CallRecord>) -> Seq<Record> {
    list.map_values(|record: CallRecord| record@)
}

/// The record of a call that gave `result`.
pub open spec fn record_of(index: nat, name: Seq<char>, result: Value) -> Record {
    Record {
        index,
        name,
        ok: crate::json::is_ok_json(crate::json::json_view(result)),
        result_bytes: crate::json::encoded_len(result),
    }
}

/// The outcome of running a script.
#[derive(Debug, Clone)]
pub struct ScriptOutcome {
    /// The script's return value. Meaningful only when `error` is `None`.
    pub value: Value,
    /// How many host invocations the script made.
    pub calls: usize,
    /// Every downstream call that reached the host, in order.
    pub progress: Vec<CallRecord>,
    /// Encoded size of the final aggregate.
    pub final_result_bytes: usize,
    /// Last value that the script passed to `toolport.checkpoint()`.
    pub checkpoint: Option<Value>,
    /// Why the script failed, if it did.
    pub error: Option<String>,
}

/// A message on the worker pipe.
#[derive(Debug)]
pub enum Frame {
    Start {
        script: String,
        input: Value,
        immutable_input: bool,
        limits: Limits,
        catalog: Vec<String>,
    },
    Call { id: u64, index: usize, name: String, args: Value },
    CallResult { id: u64, result: Value },
    Fetch { id: u64, args: FetchFrameArgs },
    FetchResult { id: u64, result: Value },
    Checkpoint { value: Value },
    Outcome { outcome: ScriptOutcome },
}

/// The outcome of a run that ended before the script could give a result.
pub fn terminated_outcome(calls: usize, progress: Vec<CallRecord>, reason: String) -> (outcome:
    ScriptOutcome)
    ensures
        crate::json::json_view(outcome.value) == crate::json::Json::Null,
        outcome.calls == calls,
        outcome.progress == progress,
        outcome.final_result_bytes == 0,
        outcome.checkpoint is None,
        outcome.error == Some(reason),
{
    ScriptOutcome {
        value: crate::json::null(),
        calls,
        progress,
        final_result_bytes: 0,
        checkpoint: None,
        error: Some(reason),
    }
}

/// A record holds what its fields say, and a list of records holds each of its records.
pub proof fn law_records_hold_their_fields(list: Seq<CallRecord>, i: int)
    requires
        0 <= i < list.len(),
    ensures
        records(list).len() == list.len(),
        records(list)[i].index == list[i].index,
        records(list)[i].name == list[i].name@,
        records(list)[i].ok == list[i].ok,
        records(list)[i].result_bytes == list[i].result_bytes,
{
}

/// The record of a call says which call it was, whether its result carried `isError: true`, and
/// how large the result's encoding is.
pub proof fn law_record_tells_how_the_call_ended(index: nat, name: Seq<char>, result: Value)
    ensures
        record_of(index, name, result).index == index,
        record_of(index, name, result).name == name,
        !record_of(index, name, result).ok <==> (crate::json::json_view(
            result,
        ) matches crate::json::Json::Object(members) && members.dom().contains("isError"@)
            && members["isError"@] == crate::json::Json::Bool(true)),
        crate::json::json_text(result) matches Some(text) ==> record_of(
            index,
            name,
            result,
        ).result_bytes == vstd::utf8::encode_utf8(text).len(),
{
}

} // verus!
