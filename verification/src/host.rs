//! The host's side of a script: what the script may still ask for, what it has been given, and
//! what the run reports at its end.
//!
//! [`HostState`] holds the run. The functions that a script reaches (`toolport.call`,
//! `callAsync`, `checkpoint` and `fetchResult`) each are one or two of its methods; the caller
//! runs the host call between them. `R` is what settles the promise of a deferred call.

use serde_json::Value;
use std::collections::VecDeque;
use vstd::prelude::*;
use vstd::string::*;

use crate::errors::ScriptError;
use crate::json::{encoding, member, null, parse, result_ok, serialized_len};
use crate::model::{CallRecord, FetchArgs, Limits, Record, ScriptOutcome};
use crate::text::byte_len;

verus! {

/// A checkpoint is a resume marker, not a payload: its largest encoded size in bytes.
pub const MAX_CHECKPOINT_BYTES: usize = 4096;

/// Space kept in the result budget for what surrounds a checkpoint in a failure response.
pub const CHECKPOINT_RESPONSE_RESERVE_BYTES: usize = 1024;

/// Most rounds of host work and promise jobs that one script takes.
pub const MAX_DRIVE_ITERS: usize = 1_000_000;

/// One deferred `callAsync` that waits for the host.
pub struct PendingCall<R> {
    pub name: String,
    pub args: Value,
    pub resolvers: R,
}

/// What a deferred call asks for.
pub struct Asked {
    pub name: Seq<char>,
    pub args: crate::json::Json,
}

/// What a list of deferred calls asks for.
pub open spec fn asked<R>(calls: Seq<PendingCall<R>>) -> Seq<Asked> {
    calls.map_values(
        |call: PendingCall<R>|
            Asked { name: call.name@, args: crate::json::json_view(call.args) },
    )
}

/// The state of one run.
pub struct HostState<R> {
    /// Host invocations that the script has issued.
    pub(crate) calls_made: usize,
    /// Issued calls that neither wait in `pending` nor are recorded yet.
    pub(crate) running: usize,
    /// Issued calls that paged a cached result.
    pub(crate) fetched: usize,
    /// Calls that reached the host and came back, in order.
    pub(crate) executed: Vec<CallRecord>,
    /// The last value that the script recorded; a later one replaces it.
    pub(crate) checkpoint: Option<Value>,
    pub(crate) max_checkpoint_bytes: usize,
    pub(crate) max_calls: usize,
    pub(crate) max_parallel: usize,
    /// Deferred calls that the host has not taken up.
    pub(crate) pending: VecDeque<PendingCall<R>>,
}

/// What a [`HostState`] holds.
#[verifier::ext_equal]
pub struct Host {
    pub calls: nat,
    pub running: nat,
    pub fetched: nat,
    pub executed: Seq<Record>,
    pub checkpoint: Option<crate::json::Json>,
    pub queued: Seq<Asked>,
    pub max_checkpoint_bytes: nat,
    pub max_calls: nat,
    pub max_parallel: nat,
}

/// What a checkpoint holds.
pub open spec fn held(checkpoint: Option<Value>) -> Option<crate::json::Json> {
    match checkpoint {
        Some(value) => Some(crate::json::json_view(value)),
        None => None,
    }
}

impl<R> View for HostState<R> {
    type V = Host;

    open(crate) spec fn view(&self) -> Host {
        Host {
            calls: self.calls_made as nat,
            running: self.running as nat,
            fetched: self.fetched as nat,
            executed: crate::model::records(self.executed@),
            checkpoint: held(self.checkpoint),
            queued: asked(self.pending@),
            max_checkpoint_bytes: self.max_checkpoint_bytes as nat,
            max_calls: self.max_calls as nat,
            max_parallel: self.max_parallel as nat,
        }
    }
}

/// The recorded positions run from zero without a gap.
pub open spec fn positions(executed: Seq<Record>) -> bool {
    forall|i: int| 0 <= i < executed.len() ==> (#[trigger] executed[i]).index == i
}

impl Host {
    /// Every issued call is recorded, queued, running or a fetch, and no more are issued than
    /// the budget allows.
    pub open spec fn wf(self) -> bool {
        &&& self.calls == self.executed.len() + self.queued.len() + self.running + self.fetched
        &&& self.calls <= self.max_calls
        &&& self.max_parallel >= 1
        &&& positions(self.executed)
    }

    /// A run that has issued nothing.
    pub open spec fn start(max_calls: nat, max_parallel: nat, max_checkpoint_bytes: nat) -> Host {
        Host {
            calls: 0,
            running: 0,
            fetched: 0,
            executed: Seq::empty(),
            checkpoint: None,
            queued: Seq::empty(),
            max_checkpoint_bytes,
            max_calls,
            max_parallel: if max_parallel == 0 { 1 } else { max_parallel },
        }
    }

    /// One call is issued and runs.
    pub open spec fn issue(self) -> Host {
        Host { calls: self.calls + 1, running: self.running + 1, ..self }
    }

    /// One running call is set aside until the host takes it up.
    pub open spec fn queue(self, call: Asked) -> Host {
        Host { running: (self.running - 1) as nat, queued: self.queued.push(call), ..self }
    }

    /// How many queued calls the host takes up at once.
    pub open spec fn batch_len(self) -> nat {
        if self.queued.len() < self.max_parallel {
            self.queued.len()
        } else {
            self.max_parallel
        }
    }

    /// The host takes up the calls that were queued first.
    pub open spec fn take_up(self) -> Host {
        Host {
            running: self.running + self.batch_len(),
            queued: self.queued.skip(self.batch_len() as int),
            ..self
        }
    }

    /// One running call comes back.
    pub open spec fn record(self, name: Seq<char>, result: Value) -> Host {
        Host {
            running: (self.running - 1) as nat,
            executed: self.executed.push(
                crate::model::record_of(self.executed.len(), name, result),
            ),
            ..self
        }
    }

    /// Running calls come back, in order.
    pub open spec fn record_all(self, names: Seq<Seq<char>>, results: Seq<Value>) -> Host
        decreases names.len(),
    {
        if names.len() == 0 {
            self
        } else {
            self.record_all(names.drop_last(), results.drop_last()).record(
                names.last(),
                results.last(),
            )
        }
    }

    /// The script records a checkpoint.
    pub open spec fn mark(self, value: crate::json::Json) -> Host {
        Host { checkpoint: Some(value), ..self }
    }

    /// One call is issued to page a cached result.
    pub open spec fn fetch(self) -> Host {
        Host { calls: self.calls + 1, fetched: self.fetched + 1, ..self }
    }
}

/// One thing that happens to a run.
pub enum Step {
    Issue,
    Queue(Asked),
    TakeUp,
    Record(Seq<char>, Value),
    Mark(crate::json::Json),
    Fetch,
}

impl Host {
    /// Whether the step can happen now.
    pub open spec fn allows(self, step: Step) -> bool {
        match step {
            Step::Issue => self.calls < self.max_calls,
            Step::Queue(_) => self.running > 0,
            Step::TakeUp => true,
            Step::Record(_, _) => self.running > 0,
            Step::Mark(_) => true,
            Step::Fetch => self.calls < self.max_calls,
        }
    }

    /// The run after the step.
    pub open spec fn step(self, step: Step) -> Host {
        match step {
            Step::Issue => self.issue(),
            Step::Queue(call) => self.queue(call),
            Step::TakeUp => self.take_up(),
            Step::Record(name, result) => self.record(name, result),
            Step::Mark(value) => self.mark(value),
            Step::Fetch => self.fetch(),
        }
    }

    /// The run after the steps.
    pub open spec fn after(self, steps: Seq<Step>) -> Host
        decreases steps.len(),
    {
        if steps.len() == 0 {
            self
        } else {
            self.after(steps.drop_last()).step(steps.last())
        }
    }

    /// Whether each step can happen when its turn comes.
    pub open spec fn allows_all(self, steps: Seq<Step>) -> bool
        decreases steps.len(),
    {
        steps.len() > 0 ==> {
            &&& self.allows_all(steps.drop_last())
            &&& self.after(steps.drop_last()).allows(steps.last())
        }
    }
}

/// The checkpoint that the steps leave behind: the last one recorded, or the one before them.
pub open spec fn last_mark(before: Option<crate::json::Json>, steps: Seq<Step>) -> Option<
    crate::json::Json,
>
    decreases steps.len(),
{
    if steps.len() == 0 {
        before
    } else {
        match steps.last() {
            Step::Mark(value) => Some(value),
            _ => last_mark(before, steps.drop_last()),
        }
    }
}

/// The calls that the steps queue, in order.
pub open spec fn queued_by(steps: Seq<Step>) -> Seq<Asked>
    decreases steps.len(),
{
    if steps.len() == 0 {
        Seq::empty()
    } else {
        match steps.last() {
            Step::Queue(call) => queued_by(steps.drop_last()).push(call),
            _ => queued_by(steps.drop_last()),
        }
    }
}

/// The calls that the steps take up, in order.
pub open spec fn taken_by(host: Host, steps: Seq<Step>) -> Seq<Asked>
    decreases steps.len(),
{
    if steps.len() == 0 {
        Seq::empty()
    } else {
        let before = host.after(steps.drop_last());
        match steps.last() {
            Step::TakeUp => taken_by(host, steps.drop_last()) + before.queued.take(
                before.batch_len() as int,
            ),
            _ => taken_by(host, steps.drop_last()),
        }
    }
}

/// Whatever a script does, its run keeps its invariant and its limits, never issues more calls
/// than its budget, and only ever adds to its ledger.
pub proof fn law_run_stays_in_bounds(host: Host, steps: Seq<Step>)
    requires
        host.wf(),
        host.allows_all(steps),
    ensures
        host.after(steps).wf(),
        host.after(steps).calls <= host.max_calls,
        host.after(steps).max_calls == host.max_calls,
        host.after(steps).max_parallel == host.max_parallel,
        host.after(steps).max_checkpoint_bytes == host.max_checkpoint_bytes,
        host.executed.is_prefix_of(host.after(steps).executed),
    decreases steps.len(),
{
    if steps.len() > 0 {
        law_run_stays_in_bounds(host, steps.drop_last());
    }
}

/// The last checkpoint wins, and nothing but a checkpoint changes it.
pub proof fn law_last_checkpoint_wins(host: Host, steps: Seq<Step>)
    ensures
        host.after(steps).checkpoint == last_mark(host.checkpoint, steps),
    decreases steps.len(),
{
    if steps.len() > 0 {
        law_last_checkpoint_wins(host, steps.drop_last());
    }
}

/// Deferred calls are taken up in the order in which they were queued, each once: what was
/// taken up and what still waits together are what was queued.
pub proof fn law_queue_keeps_order(host: Host, steps: Seq<Step>)
    ensures
        taken_by(host, steps) + host.after(steps).queued == host.queued + queued_by(steps),
    decreases steps.len(),
{
    if steps.len() > 0 {
        let before = host.after(steps.drop_last());
        let taken = taken_by(host, steps.drop_last());
        law_queue_keeps_order(host, steps.drop_last());
        match steps.last() {
            Step::Queue(call) => {
                assert(taken + before.queued.push(call) =~= (taken + before.queued).push(call));
                assert((host.queued + queued_by(steps.drop_last())).push(call) =~= host.queued
                    + queued_by(steps.drop_last()).push(call));
            },
            Step::TakeUp => {
                let count = before.batch_len() as int;
                assert(taken + before.queued.take(count) + before.queued.skip(count) =~= taken
                    + before.queued);
            },
            _ => {},
        }
    }
}

/// A checkpoint costs nothing: no call is counted, and none is recorded. A page of a cached
/// result counts as a call, and is not recorded either.
pub proof fn law_what_costs_a_call(host: Host, value: crate::json::Json)
    ensures
        host.mark(value).calls == host.calls,
        host.mark(value).executed == host.executed,
        host.fetch().calls == host.calls + 1,
        host.fetch().executed == host.executed,
{
}

/// Recording a batch adds one record for each of its calls, in batch order and at the next
/// positions.
pub proof fn law_batch_is_recorded_in_order(
    host: Host,
    names: Seq<Seq<char>>,
    results: Seq<Value>,
)
    requires
        host.running >= names.len(),
        results.len() == names.len(),
    ensures
        host.record_all(names, results).executed == host.executed + Seq::new(
            names.len(),
            |i: int| crate::model::record_of((host.executed.len() + i) as nat, names[i], results[i]),
        ),
        host.record_all(names, results).running == host.running - names.len(),
    decreases names.len(),
{
    if names.len() > 0 {
        law_batch_is_recorded_in_order(host, names.drop_last(), results.drop_last());
        assert(host.record_all(names, results).executed =~= host.executed + Seq::new(
            names.len(),
            |i: int| crate::model::record_of((host.executed.len() + i) as nat, names[i], results[i]),
        ));
    } else {
        assert(host.executed =~= host.executed + Seq::new(
            names.len(),
            |i: int| crate::model::record_of((host.executed.len() + i) as nat, names[i], results[i]),
        ));
    }
}

/// Why a call may not be issued now, if it may not. The budget is looked at before the clock.
pub open spec fn budget_error(calls_made: nat, max_calls: usize, deadline_passed: bool) -> Option<
    ScriptError,
> {
    if calls_made >= max_calls {
        Some(ScriptError::CallBudget { max_calls })
    } else if deadline_passed {
        Some(ScriptError::Deadline)
    } else {
        None
    }
}

/// Budget check shared by `toolport.call`, `callAsync` and `fetchResult`.
pub fn reserve_budget(calls_made: usize, max_calls: usize, deadline_passed: bool) -> (reserved:
    Result<(), ScriptError>)
    ensures
        reserved == (match budget_error(calls_made as nat, max_calls, deadline_passed) {
            Some(error) => Err::<(), ScriptError>(error),
            None => Ok(()),
        }),
{
    if calls_made >= max_calls {
        return Err(ScriptError::CallBudget { max_calls });
    }
    if deadline_passed {
        return Err(ScriptError::Deadline);
    }
    Ok(())
}

/// What a JSON text holds, taken as `null` where it is not JSON.
pub open spec fn lenient(text: Seq<char>) -> crate::json::Json {
    match crate::json::json_parse(text) {
        Ok(value) => value,
        Err(_) => crate::json::Json::Null,
    }
}

/// The text, or another where there is none.
pub open spec fn text_or(text: Option<&str>, other: Seq<char>) -> Seq<char> {
    match text {
        Some(inner) => inner@,
        None => other,
    }
}

/// The parsed value, or `null` where the text was not JSON.
pub fn parsed_or_null(parsed: Result<Value, String>) -> (value: Value)
    ensures
        match parsed {
            Ok(inner) => value == inner,
            Err(_) => crate::json::json_view(value) == crate::json::Json::Null,
        },
{
    match parsed {
        Ok(value) => value,
        Err(_) => null(),
    }
}

fn parse_lenient(text: &str) -> (value: Value)
    ensures
        crate::json::json_view(value) == lenient(text@),
{
    parsed_or_null(parse(text))
}

/// The tool name and arguments that a script passes to a call. What is no string counts as
/// absent; arguments that are not JSON become `null`.
pub fn parse_call_args(name: Option<&str>, args_json: Option<&str>) -> (parsed: (String, Value))
    ensures
        parsed.0@ == text_or(name, Seq::empty()),
        crate::json::json_view(parsed.1) == lenient(text_or(args_json, "{}"@)),
{
    let name = match name {
        Some(text) => text.to_owned(),
        None => String::new(),
    };
    let args = match args_json {
        Some(text) => parse_lenient(text),
        None => parse_lenient("{}"),
    };
    (name, args)
}

/// What a script gets as the text of a host result: its encoding, or `null`.
pub open spec fn result_json(result: Value) -> Seq<char> {
    match crate::json::json_text(result) {
        Some(text) => text,
        None => "null"@,
    }
}

/// The encoding, or `null` where there is none.
pub fn encoding_or_null(encoded: Option<String>) -> (text: String)
    ensures
        match encoded {
            Some(inner) => text == inner,
            None => text@ == "null"@,
        },
{
    match encoded {
        Some(text) => text,
        None => "null".to_owned(),
    }
}

/// The text of a host result, as the script parses it.
pub fn result_text(result: &Value) -> (text: String)
    ensures
        text@ == result_json(*result),
{
    encoding_or_null(encoding(result))
}

/// The largest checkpoint that a result budget leaves room for; zero stands for no budget.
pub open spec fn checkpoint_limit(result_budget: nat) -> nat {
    if result_budget == 0 {
        MAX_CHECKPOINT_BYTES as nat
    } else if result_budget >= MAX_CHECKPOINT_BYTES + CHECKPOINT_RESPONSE_RESERVE_BYTES {
        MAX_CHECKPOINT_BYTES as nat
    } else if result_budget >= CHECKPOINT_RESPONSE_RESERVE_BYTES {
        (result_budget - CHECKPOINT_RESPONSE_RESERVE_BYTES) as nat
    } else {
        0
    }
}

/// The largest checkpoint, in bytes, that a result budget leaves room for.
pub fn checkpoint_limit_for_result_budget(result_budget: usize) -> (limit: usize)
    ensures
        limit == checkpoint_limit(result_budget as nat),
{
    if result_budget == 0 {
        return MAX_CHECKPOINT_BYTES;
    }
    let room: usize = result_budget.saturating_sub(CHECKPOINT_RESPONSE_RESERVE_BYTES);
    if room < MAX_CHECKPOINT_BYTES {
        room
    } else {
        MAX_CHECKPOINT_BYTES
    }
}

/// An accepted checkpoint is bounded, and always fits in the active result budget together with
/// the space kept for the response around it, as long as the budget has that space.
pub proof fn law_checkpoint_fits_the_budget(result_budget: nat)
    ensures
        checkpoint_limit(result_budget) <= MAX_CHECKPOINT_BYTES,
        result_budget >= CHECKPOINT_RESPONSE_RESERVE_BYTES ==> checkpoint_limit(result_budget)
            + CHECKPOINT_RESPONSE_RESERVE_BYTES <= result_budget,
{
}

/// Whether a checkpoint text is taken: it is within the limit, and JSON.
pub open spec fn checkpoint_accepted(raw: Seq<char>, max_bytes: nat) -> bool {
    crate::text::utf8_len(raw) <= max_bytes && crate::json::json_parse(raw) is Ok
}

/// Replaces the checkpoint by a value that was parsed, or says why there is none.
pub fn take_checkpoint(checkpoint: &mut Option<Value>, parsed: Result<Value, String>) -> (taken:
    Result<(), ScriptError>)
    ensures
        match parsed {
            Ok(value) => taken is Ok && *final(checkpoint) == Some(value),
            Err(detail) => taken == Err::<(), ScriptError>(
                ScriptError::CheckpointInvalid { detail },
            ) && *final(checkpoint) == *old(checkpoint),
        },
{
    match parsed {
        Ok(value) => {
            *checkpoint = Some(value);
            Ok(())
        },
        Err(detail) => Err(ScriptError::CheckpointInvalid { detail }),
    }
}

/// Replaces the checkpoint by the value of the JSON text `raw`, or says why not.
pub fn store_checkpoint(checkpoint: &mut Option<Value>, raw: &str, max_bytes: usize) -> (stored:
    Result<(), ScriptError>)
    ensures
        stored is Ok <==> checkpoint_accepted(raw@, max_bytes as nat),
        stored is Ok ==> *final(checkpoint) is Some && crate::json::json_parse(raw@) == Ok::<
            crate::json::Json,
            Seq<char>,
        >(crate::json::json_view(final(checkpoint)->0)),
        stored is Err ==> *final(checkpoint) == *old(checkpoint),
        crate::text::utf8_len(raw@) > max_bytes ==> stored == Err::<(), ScriptError>(
            ScriptError::CheckpointTooLarge { max_bytes },
        ),
        crate::text::utf8_len(raw@) <= max_bytes && stored is Err ==> (stored matches Err(
            ScriptError::CheckpointInvalid { detail },
        ) && crate::json::json_parse(raw@) == Err::<crate::json::Json, Seq<char>>(detail@)),
{
    if byte_len(raw) > max_bytes {
        return Err(ScriptError::CheckpointTooLarge { max_bytes });
    }
    take_checkpoint(checkpoint, parse(raw))
}

/// What a `fetchResult` request says.
pub struct Paging {
    pub cursor: Seq<char>,
    pub offset: u64,
    pub len: u64,
    pub projection: Option<Seq<char>>,
}

/// Reads a `fetchResult` request: absent or mistyped members take their defaults.
pub open spec fn paging(request: crate::json::Json) -> Paging {
    Paging {
        cursor: match request.member("cursor"@) {
            Some(cursor) => match cursor.as_text() {
                Some(text) => text,
                None => Seq::empty(),
            },
            None => Seq::empty(),
        },
        offset: number_or_zero(request.member("offset"@)),
        len: number_or_zero(request.member("len"@)),
        projection: match request.member("projection"@) {
            Some(projection) => projection.as_text(),
            None => None,
        },
    }
}

pub open spec fn number_or_zero(value: Option<crate::json::Json>) -> u64 {
    match value {
        Some(inner) => match inner.as_unsigned() {
            Some(n) => n,
            None => 0,
        },
        None => 0,
    }
}

fn text_member(value: &Value, key: &str) -> (text: Option<String>)
    ensures
        (match text {
            Some(inner) => Some(inner@),
            None => None,
        }) == (match crate::json::json_view(*value).member(key@) {
            Some(inner) => inner.as_text(),
            None => None,
        }),
{
    match member(value, key) {
        Some(inner) => match inner.as_str() {
            Some(text) => Some(text.to_owned()),
            None => None,
        },
        None => None,
    }
}

fn number_member(value: &Value, key: &str) -> (n: u64)
    ensures
        n == number_or_zero(crate::json::json_view(*value).member(key@)),
{
    match member(value, key) {
        Some(inner) => match inner.as_u64() {
            Some(n) => n,
            None => 0,
        },
        None => 0,
    }
}

/// Whether the arguments are those that the request says.
pub open spec fn is_paging(args: FetchArgs, paging: Paging) -> bool {
    &&& args.cursor@ == paging.cursor
    &&& args.offset == paging.offset as usize
    &&& args.len == paging.len as usize
    &&& (match args.projection {
        Some(text) => Some(text@),
        None => None,
    }) == paging.projection
}

/// What a `fetchResult` request asks for, or nothing where its cursor is missing or empty.
pub fn fetch_args(request: &Value) -> (args: Option<FetchArgs>)
    ensures
        args is Some <==> paging(crate::json::json_view(*request)).cursor.len() > 0,
        args is Some ==> is_paging(args->0, paging(crate::json::json_view(*request))),
{
    let cursor = match text_member(request, "cursor") {
        Some(text) => text,
        None => String::new(),
    };
    if cursor.as_str().unicode_len() == 0 {
        return None;
    }
    Some(
        FetchArgs {
            cursor,
            offset: number_member(request, "offset") as usize,
            len: number_member(request, "len") as usize,
            projection: text_member(request, "projection"),
        },
    )
}

/// Reads a `fetchResult` request, or nothing where its cursor is missing or empty.
pub fn parse_fetch_args(raw: Option<&str>) -> (args: Option<FetchArgs>)
    ensures
        args is Some <==> paging(lenient(text_or(raw, "{}"@))).cursor.len() > 0,
        args is Some ==> is_paging(args->0, paging(lenient(text_or(raw, "{}"@)))),
{
    let request = match raw {
        Some(text) => parse_lenient(text),
        None => parse_lenient("{}"),
    };
    fetch_args(&request)
}

impl<R> HostState<R> {
    /// The run's invariant.
    pub open spec fn wf(&self) -> bool {
        self@.wf()
    }

    /// The deferred calls that wait, with what settles them.
    pub open(crate) spec fn waiting(&self) -> Seq<PendingCall<R>> {
        self.pending@
    }

    /// The last checkpoint itself.
    pub open(crate) spec fn saved(&self) -> Option<Value> {
        self.checkpoint
    }

    /// A run under `limits`, whose result the caller shapes to `result_budget` bytes.
    pub fn new(limits: &Limits, result_budget: usize) -> (state: Self)
        ensures
            state.wf(),
            state@ == Host::start(
                limits.max_calls as nat,
                limits.max_parallel as nat,
                checkpoint_limit(result_budget as nat),
            ),
    {
        let max_parallel: usize = if limits.max_parallel == 0 {
            1
        } else {
            limits.max_parallel
        };
        HostState {
            calls_made: 0,
            running: 0,
            fetched: 0,
            executed: Vec::new(),
            checkpoint: None,
            max_checkpoint_bytes: checkpoint_limit_for_result_budget(result_budget),
            max_calls: limits.max_calls,
            max_parallel,
            pending: VecDeque::new(),
        }
    }

    /// Whether another call may be issued now.
    pub fn reserve_call_slot(&self, deadline_passed: bool) -> (reserved: Result<(), ScriptError>)
        ensures
            reserved == (match budget_error(
                self@.calls,
                self@.max_calls as usize,
                deadline_passed,
            ) {
                Some(error) => Err::<(), ScriptError>(error),
                None => Ok(()),
            }),
    {
        reserve_budget(self.calls_made, self.max_calls, deadline_passed)
    }

    /// Issues a call: `toolport.call` and `callAsync` begin here. The call then runs, until it
    /// is queued or recorded.
    pub fn issue_call(
        &mut self,
        name: Option<&str>,
        args_json: Option<&str>,
        deadline_passed: bool,
    ) -> (issued: Result<(String, Value), ScriptError>)
        requires
            old(self).wf(),
        ensures
            final(self).wf(),
            match issued {
                Ok((tool, args)) => {
                    &&& budget_error(
                        old(self)@.calls,
                        old(self)@.max_calls as usize,
                        deadline_passed,
                    ) is None
                    &&& tool@ == text_or(name, Seq::empty())
                    &&& crate::json::json_view(args) == lenient(text_or(args_json, "{}"@))
                    &&& final(self)@ == old(self)@.issue()
                    &&& final(self).waiting() == old(self).waiting()
                    &&& final(self).saved() == old(self).saved()
                },
                Err(error) => {
                    &&& budget_error(
                        old(self)@.calls,
                        old(self)@.max_calls as usize,
                        deadline_passed,
                    ) == Some(error)
                    &&& *final(self) == *old(self)
                },
            },
    {
        match self.reserve_call_slot(deadline_passed) {
            Ok(()) => {},
            Err(error) => return Err(error),
        }
        let parsed = parse_call_args(name, args_json);
        self.calls_made = self.calls_made + 1;
        self.running = self.running + 1;
        Ok(parsed)
    }

    /// The position that the next recorded call takes.
    pub fn next_index(&self) -> (index: usize)
        ensures
            index == self@.executed.len(),
    {
        self.executed.len()
    }

    fn push_record(&mut self, name: String, result: &Value)
        requires
            old(self).wf(),
            old(self)@.running > 0,
        ensures
            final(self).wf(),
            final(self)@ == old(self)@.record(name@, *result),
            final(self).waiting() == old(self).waiting(),
            final(self).saved() == old(self).saved(),
    {
        let record = CallRecord {
            index: self.executed.len(),
            name,
            ok: result_ok(result),
            result_bytes: serialized_len(result),
        };
        let ghost before = self.executed@;
        self.executed.push(record);
        self.running = self.running - 1;
        proof {
            assert(crate::model::records(before.push(record)) =~= crate::model::records(
                before,
            ).push(record@));
        }
    }

    /// A running `toolport.call` came back with `result`. It is recorded only now, so that the
    /// ledger holds what has happened rather than what was meant to.
    pub fn finish_call(&mut self, name: String, result: &Value) -> (text: String)
        requires
            old(self).wf(),
            old(self)@.running > 0,
        ensures
            final(self).wf(),
            final(self)@ == old(self)@.record(name@, *result),
            final(self).waiting() == old(self).waiting(),
            final(self).saved() == old(self).saved(),
            text@ == result_json(*result),
    {
        self.push_record(name, result);
        result_text(result)
    }

    /// Sets a running call aside: `callAsync` ends here.
    pub fn queue_call(&mut self, name: String, args: Value, resolvers: R)
        requires
            old(self).wf(),
            old(self)@.running > 0,
        ensures
            final(self).wf(),
            final(self)@ == old(self)@.queue(
                (Asked { name: name@, args: crate::json::json_view(args) }),
            ),
            final(self).waiting() == old(self).waiting().push(
                (PendingCall { name, args, resolvers }),
            ),
            final(self).saved() == old(self).saved(),
    {
        let call = PendingCall { name, args, resolvers };
        let ghost before = self.pending@;
        self.pending.push_back(call);
        self.running = self.running - 1;
        proof {
            let last = Asked { name: name@, args: crate::json::json_view(args) };
            assert(asked(before.push(call)) =~= asked(before).push(last));
        }
    }

    /// Takes up the calls that were queued first, at most `max_parallel` of them. An empty
    /// batch means that nothing waits.
    pub fn take_batch(&mut self, deadline_passed: bool) -> (taken: Result<
        Vec<PendingCall<R>>,
        ScriptError,
    >)
        requires
            old(self).wf(),
        ensures
            final(self).wf(),
            match taken {
                Ok(batch) => {
                    &&& !deadline_passed
                    &&& batch@ == old(self).waiting().take(old(self)@.batch_len() as int)
                    &&& final(self).waiting() == old(self).waiting().skip(
                        old(self)@.batch_len() as int,
                    )
                    &&& final(self)@ == old(self)@.take_up()
                    &&& final(self).saved() == old(self).saved()
                },
                Err(error) => {
                    &&& deadline_passed
                    &&& error == ScriptError::Deadline
                    &&& *final(self) == *old(self)
                },
            },
    {
        if deadline_passed {
            return Err(ScriptError::Deadline);
        }
        let count: usize = if self.pending.len() < self.max_parallel {
            self.pending.len()
        } else {
            self.max_parallel
        };
        let ghost all = self.pending@;
        let mut batch: Vec<PendingCall<R>> = Vec::new();
        while batch.len() < count
            invariant
                count <= all.len(),
                batch@.len() <= count,
                batch@ == all.take(batch@.len() as int),
                self.pending@ == all.skip(batch@.len() as int),
                self.calls_made == old(self).calls_made,
                self.running == old(self).running,
                self.fetched == old(self).fetched,
                self.executed == old(self).executed,
                self.checkpoint == old(self).checkpoint,
                self.max_checkpoint_bytes == old(self).max_checkpoint_bytes,
                self.max_calls == old(self).max_calls,
                self.max_parallel == old(self).max_parallel,
            decreases count - batch.len(),
        {
            match self.pending.pop_front() {
                Some(call) => {
                    batch.push(call);
                },
                None => {},
            }
        }
        self.running = self.running + count;
        proof {
            assert(asked(all).skip(count as int) =~= asked(all.skip(count as int)));
        }
        Ok(batch)
    }

    /// Records the calls of a batch with their results, before any of their promises settles,
    /// and gives the text that each promise settles with.
    pub fn record_batch(&mut self, batch: &Vec<PendingCall<R>>, results: &Vec<Value>) -> (texts:
        Vec<String>)
        requires
            old(self).wf(),
            old(self)@.running >= batch@.len(),
            results@.len() == batch@.len(),
        ensures
            final(self).wf(),
            final(self)@ == old(self)@.record_all(names_of(batch@), results@),
            final(self).waiting() == old(self).waiting(),
            final(self).saved() == old(self).saved(),
            texts@.len() == results@.len(),
            forall|i: int|
                0 <= i < results@.len() ==> (#[trigger] texts@[i])@ == result_json(results@[i]),
    {
        let mut texts: Vec<String> = Vec::new();
        let mut at: usize = 0;
        while at < batch.len()
            invariant
                at <= batch@.len(),
                results@.len() == batch@.len(),
                self.wf(),
                self.running + at >= batch@.len(),
                self@ == old(self)@.record_all(names_of(batch@).take(at as int), results@.take(at as int)),
                self.waiting() == old(self).waiting(),
                self.saved() == old(self).saved(),
                texts@.len() == at,
                forall|i: int|
                    0 <= i < at ==> (#[trigger] texts@[i])@ == result_json(results@[i]),
            decreases batch.len() - at,
        {
            self.push_record(batch[at].name.clone(), &results[at]);
            texts.push(result_text(&results[at]));
            proof {
                let names = names_of(batch@);
                assert(names.take(at + 1).drop_last() =~= names.take(at as int));
                assert(results@.take(at + 1).drop_last() =~= results@.take(at as int));
            }
            at = at + 1;
        }
        proof {
            assert(names_of(batch@).take(at as int) =~= names_of(batch@));
            assert(results@.take(at as int) =~= results@);
        }
        texts
    }

    /// Whether deferred calls wait.
    pub fn has_pending(&self) -> (waiting: bool)
        ensures
            waiting == (self@.queued.len() > 0),
    {
        self.pending.len() > 0
    }

    /// How many host invocations the script has issued.
    pub fn calls_made(&self) -> (calls: usize)
        ensures
            calls == self@.calls,
    {
        self.calls_made
    }

    /// The calls that came back, in order.
    pub fn executed(&self) -> (list: &Vec<CallRecord>)
        ensures
            crate::model::records(list@) == self@.executed,
    {
        &self.executed
    }

    /// The last checkpoint.
    pub fn checkpoint(&self) -> (checkpoint: &Option<Value>)
        ensures
            *checkpoint == self.saved(),
            held(*checkpoint) == self@.checkpoint,
    {
        &self.checkpoint
    }

    /// The deferred calls that wait.
    pub fn deferred(&self) -> (calls: &VecDeque<PendingCall<R>>)
        ensures
            calls@ == self.waiting(),
    {
        &self.pending
    }

    /// `toolport.checkpoint`: costs nothing against the call budget or the clock. A refused
    /// value leaves the last one in place.
    pub fn record_checkpoint(&mut self, raw: Option<&str>) -> (recorded: Result<(), ScriptError>)
        requires
            old(self).wf(),
        ensures
            final(self).wf(),
            recorded is Ok <==> checkpoint_accepted(
                text_or(raw, "null"@),
                old(self)@.max_checkpoint_bytes,
            ),
            match recorded {
                Ok(_) => {
                    &&& crate::json::json_parse(text_or(raw, "null"@)) matches Ok(value)
                    &&& final(self)@ == old(self)@.mark(value)
                    &&& final(self).waiting() == old(self).waiting()
                },
                Err(error) => {
                    &&& *final(self) == *old(self)
                    &&& if crate::text::utf8_len(text_or(raw, "null"@)) > old(self)@.max_checkpoint_bytes {
                        error == (ScriptError::CheckpointTooLarge {
                            max_bytes: old(self)@.max_checkpoint_bytes as usize,
                        })
                    } else {
                        error matches ScriptError::CheckpointInvalid { detail }
                            && crate::json::json_parse(text_or(raw, "null"@)) == Err::<
                            crate::json::Json,
                            Seq<char>,
                        >(detail@)
                    }
                },
            },
    {
        let max_bytes: usize = self.max_checkpoint_bytes;
        match raw {
            Some(text) => store_checkpoint(&mut self.checkpoint, text, max_bytes),
            None => store_checkpoint(&mut self.checkpoint, "null", max_bytes),
        }
    }

    /// `toolport.fetchResult`: whether results can be paged here is looked at first, so that
    /// an exhausted budget does not hide the reason; then the budget and the clock; then the
    /// request. Only a request that is passed on counts as a call.
    pub fn issue_fetch(
        &mut self,
        available: bool,
        raw: Option<&str>,
        deadline_passed: bool,
    ) -> (issued: Result<FetchArgs, ScriptError>)
        requires
            old(self).wf(),
        ensures
            final(self).wf(),
            match issued {
                Ok(args) => {
                    &&& available
                    &&& budget_error(
                        old(self)@.calls,
                        old(self)@.max_calls as usize,
                        deadline_passed,
                    ) is None
                    &&& args.cursor@.len() > 0
                    &&& is_paging(args, paging(lenient(text_or(raw, "{}"@))))
                    &&& final(self)@ == old(self)@.fetch()
                    &&& final(self).waiting() == old(self).waiting()
                    &&& final(self).saved() == old(self).saved()
                },
                Err(error) => {
                    &&& *final(self) == *old(self)
                    &&& if !available {
                        error == ScriptError::FetchUnavailable
                    } else {
                        match budget_error(
                            old(self)@.calls,
                            old(self)@.max_calls as usize,
                            deadline_passed,
                        ) {
                            Some(refusal) => error == refusal,
                            None => {
                                &&& error == ScriptError::FetchWithoutCursor
                                &&& paging(lenient(text_or(raw, "{}"@))).cursor.len() == 0
                            },
                        }
                    }
                },
            },
    {
        if !available {
            return Err(ScriptError::FetchUnavailable);
        }
        match self.reserve_call_slot(deadline_passed) {
            Ok(()) => {},
            Err(error) => return Err(error),
        }
        match parse_fetch_args(raw) {
            Some(args) => {
                self.calls_made = self.calls_made + 1;
                self.fetched = self.fetched + 1;
                Ok(args)
            },
            None => Err(ScriptError::FetchWithoutCursor),
        }
    }

    /// The run ended with `value`.
    pub fn finish(self, value: Value) -> (outcome: ScriptOutcome)
        ensures
            outcome.value == value,
            outcome.calls == self@.calls,
            crate::model::records(outcome.progress@) == self@.executed,
            outcome.final_result_bytes == crate::json::encoded_len(value),
            outcome.checkpoint == self.saved(),
            held(outcome.checkpoint) == self@.checkpoint,
            outcome.error is None,
    {
        ScriptOutcome {
            final_result_bytes: serialized_len(&value),
            value,
            calls: self.calls_made,
            progress: self.executed,
            checkpoint: self.checkpoint,
            error: None,
        }
    }

    /// The run ended with an error; what already ran, and the last checkpoint, are reported.
    pub fn fail(self, error: String) -> (outcome: ScriptOutcome)
        ensures
            crate::json::json_view(outcome.value) == crate::json::Json::Null,
            outcome.calls == self@.calls,
            crate::model::records(outcome.progress@) == self@.executed,
            outcome.final_result_bytes == 0,
            outcome.checkpoint == self.saved(),
            held(outcome.checkpoint) == self@.checkpoint,
            outcome.error == Some(error),
    {
        ScriptOutcome {
            value: null(),
            calls: self.calls_made,
            progress: self.executed,
            final_result_bytes: 0,
            checkpoint: self.checkpoint,
            error: Some(error),
        }
    }
}

/// The tool names of deferred calls.
pub open spec fn names_of<R>(calls: Seq<PendingCall<R>>) -> Seq<Seq<char>> {
    calls.map_values(|call: PendingCall<R>| call.name@)
}

/// A call may be issued while fewer calls than the budget were issued and the clock has not run
/// out; a script that has used up both is told of the budget.
pub proof fn law_calls_are_refused_by_budget_then_clock(calls: nat, max_calls: usize)
    ensures
        calls < max_calls ==> budget_error(calls, max_calls, false) is None,
        calls < max_calls ==> budget_error(calls, max_calls, true) == Some(ScriptError::Deadline),
        calls >= max_calls ==> forall|late: bool| #[trigger]
            budget_error(calls, max_calls, late) == Some(ScriptError::CallBudget { max_calls }),
{
}

/// A text that is there is used as it is, and its value is what it parses to; only a missing text
/// has a default, and only what is not JSON becomes `null`.
pub proof fn law_arguments_are_used_as_they_are(
    text: &str,
    other: Seq<char>,
    value: crate::json::Json,
)
    ensures
        text_or(Some(text), other) == text@,
        text_or(None, other) == other,
        crate::json::json_parse(text@) == Ok::<crate::json::Json, Seq<char>>(value) ==> lenient(
            text@,
        ) == value,
        crate::json::json_parse(text@) is Err ==> lenient(text@) == crate::json::Json::Null,
{
}

/// The script gets a host result whole: where it has an encoding, of whatever length, the text is
/// that encoding, and `null` is given only where it has none. So two results that the script gets
/// the same text for have the same encoding, unless one of them is the text `null`.
pub proof fn law_script_gets_the_whole_result(result: Value, other: Value)
    ensures
        crate::json::json_text(result) matches Some(text) ==> result_json(result) == text,
        crate::json::json_text(result) is None ==> result_json(result) == "null"@,
        result_json(result) == result_json(other) && result_json(result) != "null"@
            ==> crate::json::json_text(result) == crate::json::json_text(other),
{
}

/// The checkpoint limit is the most that the budget leaves room for: all of its own bound where
/// the budget has it to spare, and else all but the reserve; no budget stands for no such limit.
pub proof fn law_checkpoint_limit_is_the_most(result_budget: nat)
    ensures
        result_budget == 0 || result_budget >= 5120 ==> checkpoint_limit(result_budget) == 4096,
        1024 <= result_budget <= 5120 ==> checkpoint_limit(result_budget) + 1024 == result_budget,
        0 < result_budget <= 1024 ==> checkpoint_limit(result_budget) == 0,
{
}

/// A checkpoint is taken exactly where its text is JSON and its bytes are within the limit.
pub proof fn law_checkpoints_are_taken_within_the_limit(raw: Seq<char>, max_bytes: nat)
    ensures
        checkpoint_accepted(raw, max_bytes) <==> (vstd::utf8::encode_utf8(raw).len() <= max_bytes
            && crate::json::json_parse(raw) is Ok),
{
}

/// What is asked of the host is what the request says: its cursor and projection where they are
/// texts, and its offset and length where they are whole numbers without a sign, each exactly
/// that number where it fits the machine; a member that is absent or of another type counts as
/// empty, none or zero.
pub proof fn law_fetch_asks_for_what_the_request_says(
    request: crate::json::Json,
    args: FetchArgs,
)
    requires
        is_paging(args, paging(request)),
    ensures
        match request {
            crate::json::Json::Object(members) => {
                &&& (members.dom().contains("cursor"@) && members["cursor"@] is Text
                    ==> args.cursor@ == members["cursor"@]->Text_0)
                &&& (!(members.dom().contains("cursor"@) && members["cursor"@] is Text)
                    ==> args.cursor@.len() == 0)
                &&& (members.dom().contains("projection"@) && members["projection"@] is Text
                    ==> args.projection is Some && args.projection->0@
                    == members["projection"@]->Text_0)
                &&& (!(members.dom().contains("projection"@) && members["projection"@] is Text)
                    ==> args.projection is None)
                &&& asks_for_number(members, "offset"@, args.offset)
                &&& asks_for_number(members, "len"@, args.len)
            },
            _ => {
                &&& args.cursor@.len() == 0
                &&& args.projection is None
                &&& args.offset == 0
                &&& args.len == 0
            },
        },
{
}

/// The number is the member's, where that is a whole number without a sign that fits the machine,
/// and zero where the member is absent or no such number.
pub open spec fn asks_for_number(
    members: Map<Seq<char>, crate::json::Json>,
    key: Seq<char>,
    asked_for: usize,
) -> bool {
    if members.dom().contains(key) {
        match members[key] {
            crate::json::Json::Number { unsigned: Some(n), .. } => n <= usize::MAX ==> asked_for
                == n,
            _ => asked_for == 0,
        }
    } else {
        asked_for == 0
    }
}

/// Two requests that give different offsets, or different lengths, within the machine's range ask
/// for different pages.
pub proof fn law_different_pages_are_asked_for_differently(
    first: Map<Seq<char>, crate::json::Json>,
    second: Map<Seq<char>, crate::json::Json>,
    m: u64,
    n: u64,
    one: FetchArgs,
    two: FetchArgs,
)
    requires
        is_paging(one, paging(crate::json::Json::Object(first))),
        is_paging(two, paging(crate::json::Json::Object(second))),
        m != n && m <= usize::MAX && n <= usize::MAX,
    ensures
        first.dom().contains("offset"@) && first["offset"@].as_unsigned() == Some(m)
            && second.dom().contains("offset"@) && second["offset"@].as_unsigned() == Some(n)
            ==> one.offset != two.offset,
        first.dom().contains("len"@) && first["len"@].as_unsigned() == Some(m)
            && second.dom().contains("len"@) && second["len"@].as_unsigned() == Some(n) ==> one.len
            != two.len,
{
    law_fetch_asks_for_what_the_request_says(crate::json::Json::Object(first), one);
    law_fetch_asks_for_what_the_request_says(crate::json::Json::Object(second), two);
}

/// A run begins with nothing issued, under the limits that it was given; without parallelism it
/// still has one call at work.
pub proof fn law_run_begins_empty(max_calls: nat, max_parallel: nat, max_bytes: nat)
    ensures
        ({
            let host = Host::start(max_calls, max_parallel, max_bytes);
            &&& host.calls == 0 && host.running == 0 && host.fetched == 0
            &&& host.executed.len() == 0 && host.queued.len() == 0
            &&& host.checkpoint is None
            &&& host.max_calls == max_calls && host.max_checkpoint_bytes == max_bytes
            &&& max_parallel > 0 ==> host.max_parallel == max_parallel
            &&& max_parallel == 0 ==> host.max_parallel == 1
        }),
{
}

/// Issuing a call, or a fetch, counts one call and changes nothing that is recorded, queued or
/// marked; the limits never change.
pub proof fn law_issuing_only_counts(host: Host)
    ensures
        host.issue().calls == host.calls + 1,
        host.issue().running == host.running + 1,
        host.issue().fetched == host.fetched,
        host.fetch().calls == host.calls + 1,
        host.fetch().running == host.running,
        host.fetch().fetched == host.fetched + 1,
        forall|after: Host|
            after == host.issue() || after == host.fetch() ==> {
                &&& (#[trigger] after.executed) == host.executed
                &&& after.queued == host.queued
                &&& after.checkpoint == host.checkpoint
                &&& after.max_calls == host.max_calls
                &&& after.max_parallel == host.max_parallel
                &&& after.max_checkpoint_bytes == host.max_checkpoint_bytes
            },
{
}

/// A queued call goes behind those that wait; the host takes up the calls at the front, as many as
/// wait, or as many as may be at work where that is fewer; and neither records nor counts.
pub proof fn law_queue_is_first_in_first_out(host: Host, call: Asked, i: int)
    requires
        host.running > 0,
    ensures
        host.queue(call).queued == host.queued.push(call),
        host.queue(call).running + 1 == host.running,
        host.queue(call).calls == host.calls,
        host.queue(call).executed == host.executed,
        host.queue(call).checkpoint == host.checkpoint,
        host.take_up().calls == host.calls,
        host.take_up().executed == host.executed,
        host.take_up().checkpoint == host.checkpoint,
        forall|after: Host|
            after == host.queue(call) || after == host.take_up() ==> {
                &&& (#[trigger] after.fetched) == host.fetched
                &&& after.max_calls == host.max_calls
                &&& after.max_parallel == host.max_parallel
                &&& after.max_checkpoint_bytes == host.max_checkpoint_bytes
            },
        host.queued.len() <= host.max_parallel ==> host.take_up().queued.len() == 0
            && host.take_up().running == host.running + host.queued.len(),
        host.queued.len() > host.max_parallel ==> host.take_up().queued.len() + host.max_parallel
            == host.queued.len() && host.take_up().running == host.running + host.max_parallel,
        0 <= i < host.take_up().queued.len() ==> host.take_up().queued[i]
            == host.queued[host.queued.len() - host.take_up().queued.len() + i],
{
}

/// A call that comes back is recorded behind all others, under its own name, as failed only where
/// its result carries `isError: true`, and with the size of its result; it counts no further call
/// and leaves the queue and the checkpoint as they are.
pub proof fn law_recording_adds_one_record(host: Host, name: Seq<char>, result: Value)
    requires
        host.running > 0,
    ensures
        ({
            let after = host.record(name, result);
            let last = after.executed[host.executed.len() as int];
            &&& after.executed.len() == host.executed.len() + 1
            &&& host.executed.is_prefix_of(after.executed)
            &&& last.index == host.executed.len()
            &&& last.name == name
            &&& !last.ok <==> (crate::json::json_view(result) matches crate::json::Json::Object(
                members,
            ) && members.dom().contains("isError"@) && members["isError"@]
                == crate::json::Json::Bool(true))
            &&& (crate::json::json_text(result) matches Some(text) ==> last.result_bytes
                == vstd::utf8::encode_utf8(text).len())
            &&& after.running + 1 == host.running
            &&& after.calls == host.calls && after.fetched == host.fetched
            &&& after.queued == host.queued
            &&& after.checkpoint == host.checkpoint
            &&& after.max_calls == host.max_calls && after.max_parallel == host.max_parallel
            &&& after.max_checkpoint_bytes == host.max_checkpoint_bytes
        }),
{
}

/// A checkpoint changes the checkpoint, to its value, and nothing else.
pub proof fn law_marking_changes_the_checkpoint_alone(host: Host, value: crate::json::Json)
    ensures
        host.mark(value).checkpoint == Some(value),
        (Host { checkpoint: host.checkpoint, ..host.mark(value) }) == host,
{
}

/// What deferred calls ask for, what their names are, and what a checkpoint holds, is theirs.
pub proof fn law_deferred_calls_ask_as_they_say<R>(
    calls: Seq<PendingCall<R>>,
    i: int,
    value: Value,
)
    requires
        0 <= i < calls.len(),
    ensures
        asked(calls).len() == calls.len(),
        asked(calls)[i].name == calls[i].name@,
        asked(calls)[i].args == crate::json::json_view(calls[i].args),
        names_of(calls).len() == calls.len(),
        names_of(calls)[i] == calls[i].name@,
        held(Some(value)) == Some(crate::json::json_view(value)),
        held(None) is None,
{
}

/// Recording a batch adds to the ledger alone: no further call is counted or queued, and neither
/// the checkpoint nor a limit changes.
pub proof fn law_recording_a_batch_adds_to_the_ledger_alone(
    host: Host,
    names: Seq<Seq<char>>,
    results: Seq<Value>,
)
    requires
        names.len() == results.len(),
    ensures
        ({
            let after = host.record_all(names, results);
            &&& after.calls == host.calls && after.fetched == host.fetched
            &&& after.queued == host.queued
            &&& after.checkpoint == host.checkpoint
            &&& after.max_checkpoint_bytes == host.max_checkpoint_bytes
            &&& after.max_calls == host.max_calls && after.max_parallel == host.max_parallel
        }),
    decreases names.len(),
{
    if names.len() > 0 {
        law_recording_a_batch_adds_to_the_ledger_alone(
            host,
            names.drop_last(),
            results.drop_last(),
        );
    }
}

} // verus!
