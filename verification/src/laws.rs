//! What holds of the library as a whole: laws over what its functions take and give.

use serde_json::Value;
use vstd::prelude::*;
use vstd::string::*;

use crate::client::{call_request, fetch_request, Delivery, Incoming, Pending};
use crate::drive::{collect_results, returned_value, Drive, Progress, Task};
use crate::errors::ScriptError;
use crate::frame::{
    json_size, read_frame, write_frame, ByteStream, Fed, FrameError, FrameReader,
};
use crate::host::{
    checkpoint_limit_for_result_budget, fetch_args, result_text, HostState, PendingCall,
};
use crate::host_calls::{CancelContext, HostCall, HostCalls};
use crate::jobs::{BoundedJobExecutor, Job, Ready};
use crate::json::{json_parse, json_text, json_view, Json};
use crate::ledger::sort_by_index;
use crate::memory::{
    address_space_limit, exit_reason, reserve, resize_growth, settle_alloc, settle_realloc, Fate,
    Settlement, WorkerAllocator, WorkerExit,
};
use crate::model::{CallRecord, FetchArgs, Frame, Limits, ScriptInput, ScriptOutcome};
use crate::names::{
    is_js_ident_start, js_string_literal, snake_to_camel, split_exposed_name,
};
use crate::permits::RunPermit;
use crate::script::{check_input, evaluation_sources, wrap_script};
use crate::servers::build_servers_prelude;
use crate::supervisor::{
    before_message, complete_call, complete_fetch, host_event, Action, Answer, Completion,
    EndedRun, Event, HostRequest, Supervisor, Watchfulness,
};
use crate::worker::{
    check_start, final_outcome, start_frame, start_request, StartError, StartRequest,
};

verus! {

/// What the host answers to a tool call reaches the request that made it, whatever the answer
/// holds: the reply that `complete_call` makes is delivered by `Pending::receive` to the place
/// that waits under its id, with that very answer, and once.
pub proof fn law_answer_reaches_its_request<S>(
    id: u64,
    index: usize,
    name: String,
    answer: Value,
    completion: Completion,
    pending: &mut Pending<S>,
    delivery: Delivery<S>,
)
    requires
        call_ensures(complete_call, (id, index, name, Answer::Given(answer)), completion),
        call_ensures(
            Pending::<S>::receive,
            (pending, Incoming::Frame(completion.reply)),
            delivery,
        ),
        old(pending)@.senders.dom().contains(id),
    ensures
        delivery == Delivery::Deliver(old(pending)@.senders[id], answer),
        !final(pending)@.senders.dom().contains(id),
        final(pending)@.senders == old(pending)@.senders.remove(id),
        final(pending)@.error == old(pending)@.error,
{
}

/// The same of a page of a cached result.
pub proof fn law_page_reaches_its_request<S>(
    id: u64,
    page: Value,
    completion: Completion,
    pending: &mut Pending<S>,
    delivery: Delivery<S>,
)
    requires
        call_ensures(complete_fetch, (id, Answer::Given(page)), completion),
        call_ensures(
            Pending::<S>::receive,
            (pending, Incoming::Frame(completion.reply)),
            delivery,
        ),
        old(pending)@.senders.dom().contains(id),
    ensures
        delivery == Delivery::Deliver(old(pending)@.senders[id], page),
        final(pending)@.senders == old(pending)@.senders.remove(id),
{
}

/// A tool call is recorded by what the host answered: under its position and name, as failed only
/// where the answer carries `isError: true`, and with the size of the answer's encoding up to the
/// frame limit. A page is not recorded.
pub proof fn law_answers_are_recorded(
    id: u64,
    index: usize,
    name: String,
    answer: Value,
    completion: Completion,
    fetched: Completion,
)
    requires
        call_ensures(complete_call, (id, index, name, Answer::Given(answer)), completion),
        call_ensures(complete_fetch, (id, Answer::Given(answer)), fetched),
    ensures
        fetched.record is None,
        completion.record matches Some(record) && {
            &&& record.index == index
            &&& record.name == name
            &&& !record.ok <==> (json_view(answer) matches Json::Object(members)
                && members.dom().contains("isError"@) && members["isError"@] == Json::Bool(true))
            &&& json_text(answer) matches Some(text) ==> {
                let size = vstd::utf8::encode_utf8(text).len();
                &&& size <= 16_777_216 ==> record.result_bytes == size && completion.within
                    && fetched.within
                &&& size > 16_777_216 ==> record.result_bytes == 16_777_217 && !completion.within
                    && !fetched.within
            }
        },
{
}

/// A tool call crosses the pipe as it was asked for: where the frame that `call_request` makes is
/// passed to the host, the host is asked for that tool with those arguments, at that position;
/// and it is passed on where the run is within its limits.
pub proof fn law_host_is_asked_for_the_call(
    id: u64,
    index: usize,
    name: &str,
    args: Value,
    frame: Frame,
    supervisor: &mut Supervisor,
    fits: bool,
    action: Action,
)
    requires
        call_ensures(call_request, (id, index, name, args), frame),
        call_ensures(Supervisor::step, (supervisor, Event::Frame { frame, fits }), action),
    ensures
        ({
            let before = old(supervisor)@;
            let allowed = before.calls < before.max_calls && before.inflight < before.max_parallel
                && !before.ids.contains(id) && fits && index < before.max_calls
                && !before.indices.contains(index);
            &&& action is Dispatch <==> allowed
            &&& !allowed <==> action is Fail
            &&& action matches Action::Dispatch(request) ==> {
                &&& request matches HostRequest::Call { id: to, index: at, name: tool, args: passed }
                &&& to == id && at == index && tool@ == name@ && passed == args
            }
            &&& allowed ==> final(supervisor)@.calls == before.calls + 1
                && final(supervisor)@.inflight == before.inflight + 1
                && final(supervisor)@.ids.contains(id)
                && final(supervisor)@.indices.contains(index)
        }),
{
}

/// A fetch crosses the pipe as it was asked for.
pub proof fn law_host_is_asked_for_the_page(
    id: u64,
    args: FetchArgs,
    frame: Frame,
    supervisor: &mut Supervisor,
    fits: bool,
    action: Action,
)
    requires
        call_ensures(fetch_request, (id, args), frame),
        call_ensures(Supervisor::step, (supervisor, Event::Frame { frame, fits }), action),
    ensures
        ({
            let before = old(supervisor)@;
            let allowed = before.calls < before.max_calls && before.inflight < before.max_parallel
                && !before.ids.contains(id) && fits;
            &&& action is Dispatch <==> allowed
            &&& action matches Action::Dispatch(request) ==> {
                &&& request matches HostRequest::Fetch { id: to, args: passed }
                &&& to == id
                &&& passed.cursor == args.cursor && passed.offset == args.offset
                &&& passed.len == args.len && passed.projection == args.projection
            }
        }),
{
}

/// A reply within the limits is sent to the worker as it is, and its call is at work no more.
pub proof fn law_replies_are_sent_as_they_are(
    reply: Frame,
    event: Event,
    supervisor: &mut Supervisor,
    action: Action,
)
    requires
        call_ensures(host_event, (reply, true, true), event),
        call_ensures(Supervisor::step, (supervisor, event), action),
        old(supervisor)@.inflight > 0,
    ensures
        action == Action::Send(reply),
        final(supervisor)@.inflight + 1 == old(supervisor)@.inflight,
        final(supervisor)@.calls == old(supervisor)@.calls,
{
}

/// A worker runs what its parent sent: `start_request` reads from the frame that `start_frame`
/// makes the same script, input, limits and catalog.
pub proof fn law_worker_runs_what_was_sent(
    script: &str,
    input: ScriptInput,
    limits: Limits,
    catalog: Vec<String>,
    frame: Frame,
    request: Option<StartRequest>,
)
    requires
        call_ensures(start_frame, (script, input, limits, catalog), frame),
        call_ensures(start_request, (Some(frame),), request),
    ensures
        request matches Some(start) && {
            &&& start.script@ == script@
            &&& start.input == input
            &&& start.limits == limits
            &&& start.catalog == catalog
        },
{
}

/// A checkpoint that the worker sends within the byte limit replaces the last one, and is what the
/// run reports however it ends.
pub proof fn law_last_checkpoint_is_reported(
    value: Value,
    fits: bool,
    supervisor: &mut Supervisor,
    action: Action,
    result: Result<ScriptOutcome, String>,
    host_calls: &mut HostCalls,
    ended: EndedRun,
    records: Vec<CallRecord>,
    outcome: ScriptOutcome,
)
    requires
        call_ensures(
            Supervisor::step,
            (supervisor, Event::Frame { frame: Frame::Checkpoint { value }, fits }),
            action,
        ),
        call_ensures(Supervisor::end, (*final(supervisor), result, host_calls), ended),
        call_ensures(EndedRun::conclude, (ended, records), outcome),
    ensures
        match json_text(value) {
            Some(text) => if vstd::utf8::encode_utf8(text).len() <= 4096 {
                action is Wait && outcome.checkpoint == Some(value)
            } else {
                action is Fail && outcome.checkpoint == old(supervisor)@.checkpoint
            },
            None => action is Fail && outcome.checkpoint == old(supervisor)@.checkpoint,
        },
        final(host_calls)@.stopped,
{
}

/// How a run ends is reported: a worker's outcome with its own value, size and error; a failure
/// with what failed, and with a warning where host calls are still at work; and either with the
/// parent's own records, by position, and count of calls.
pub proof fn law_run_is_reported(
    supervisor: Supervisor,
    result: Result<ScriptOutcome, String>,
    host_calls: &mut HostCalls,
    ended: EndedRun,
    records: Vec<CallRecord>,
    outcome: ScriptOutcome,
)
    requires
        supervisor.wf(),
        call_ensures(Supervisor::end, (supervisor, result, host_calls), ended),
        call_ensures(EndedRun::conclude, (ended, records), outcome),
    ensures
        outcome.checkpoint == supervisor@.checkpoint,
        outcome.progress@.len() == records@.len(),
        forall|i: int, j: int|
            0 <= i < j < outcome.progress@.len() ==> (#[trigger] outcome.progress@[i]).index <= (
            #[trigger] outcome.progress@[j]).index,
        forall|record: CallRecord| #[trigger]
            records@.contains(record) <==> outcome.progress@.contains(record),
        match result {
            Ok(claimed) => {
                &&& outcome.value == claimed.value
                &&& outcome.error == claimed.error
                &&& outcome.final_result_bytes == claimed.final_result_bytes
                &&& supervisor@.calls <= claimed.calls <= supervisor@.max_calls ==> outcome.calls
                    == claimed.calls
                &&& claimed.calls < supervisor@.calls ==> outcome.calls == supervisor@.calls
                &&& claimed.calls > supervisor@.max_calls ==> outcome.calls
                    == supervisor@.max_calls
            },
            Err(error) => {
                &&& outcome.calls == supervisor@.calls
                &&& json_view(outcome.value) is Null
                &&& outcome.final_result_bytes == 0
                &&& outcome.error matches Some(text)
                &&& supervisor@.inflight == 0 ==> text@ == error@
                &&& supervisor@.inflight > 0 ==> text@ == error@
                    + "; host calls may still be in flight, cancellation requested; do not automatically retry them"@
            },
        },
{
    crate::ledger::law_call_order_sorts_and_keeps_all(outcome.progress@, records@, 0);
}

/// What a script marks is what its run reports: a text within the byte limit that is JSON becomes
/// the checkpoint, and any other leaves the one before it.
pub proof fn law_marked_value_is_reported<R>(
    host: &mut HostState<R>,
    raw: &str,
    recorded: Result<(), ScriptError>,
    value: Value,
    finished: ScriptOutcome,
    error: String,
    failed: ScriptOutcome,
)
    requires
        call_ensures(HostState::<R>::record_checkpoint, (host, Some(raw)), recorded),
        call_ensures(HostState::<R>::finish, (*final(host), value), finished),
        call_ensures(HostState::<R>::fail, (*final(host), error), failed),
    ensures
        ({
            let short = vstd::utf8::encode_utf8(raw@).len() <= old(host)@.max_checkpoint_bytes;
            match json_parse(raw@) {
                Ok(marked) => if short {
                    &&& recorded is Ok
                    &&& finished.checkpoint matches Some(kept)
                    &&& json_view(kept) == marked
                } else {
                    recorded is Err && finished.checkpoint == old(host).saved()
                },
                Err(_) => recorded is Err && finished.checkpoint == old(host).saved(),
            }
        }),
        failed.checkpoint == finished.checkpoint,
        final(host)@.calls == old(host)@.calls,
        final(host)@.executed == old(host)@.executed,
        final(host).waiting() == old(host).waiting(),
{
}

/// A call that comes back is told to the script whole and reported as the last record of the run,
/// however the run ends.
pub proof fn law_finished_call_is_told_and_reported<R>(
    host: &mut HostState<R>,
    name: String,
    result: Value,
    text: String,
    value: Value,
    finished: ScriptOutcome,
    error: String,
    failed: ScriptOutcome,
)
    requires
        old(host)@.running > 0,
        call_ensures(HostState::<R>::finish_call, (host, name, &result), text),
        call_ensures(HostState::<R>::finish, (*final(host), value), finished),
        call_ensures(HostState::<R>::fail, (*final(host), error), failed),
    ensures
        json_text(result) matches Some(encoded) ==> text@ == encoded,
        json_text(result) is None ==> text@ == "null"@,
        ({
            let count = old(host)@.executed.len();
            let last = finished.progress@[count as int];
            &&& finished.progress@.len() == count + 1
            &&& last.index == count
            &&& last.name@ == name@
            &&& !last.ok <==> (json_view(result) matches Json::Object(members)
                && members.dom().contains("isError"@) && members["isError"@] == Json::Bool(true))
            &&& json_text(result) matches Some(encoded) ==> last.result_bytes
                == vstd::utf8::encode_utf8(encoded).len()
        }),
        failed.progress@.len() == finished.progress@.len(),
        forall|i: int|
            0 <= i < failed.progress@.len() ==> (#[trigger] failed.progress@[i])@
                == finished.progress@[i]@,
        finished.value == value,
        finished.error is None,
        finished.calls == old(host)@.calls,
        json_text(value) matches Some(encoded) ==> finished.final_result_bytes
            == vstd::utf8::encode_utf8(encoded).len(),
        failed.error == Some(error),
        failed.calls == old(host)@.calls,
        json_view(failed.value) is Null,
        failed.final_result_bytes == 0,
{
    let count = old(host)@.executed.len();
    let done = final(host)@.executed;
    assert(crate::model::records(finished.progress@) == done);
    assert(crate::model::records(failed.progress@) == done);
    assert(crate::model::records(finished.progress@)[count as int]
        == finished.progress@[count as int]@);
    assert forall|i: int| 0 <= i < failed.progress@.len() implies (
    #[trigger] failed.progress@[i])@ == finished.progress@[i]@ by {
        assert(crate::model::records(failed.progress@)[i] == failed.progress@[i]@);
        assert(crate::model::records(finished.progress@)[i] == finished.progress@[i]@);
    }
}

/// A call is issued with the tool and the arguments that the script gives, while the budget has
/// one left and the clock has not run out; and else refused with that, the budget first.
pub proof fn law_calls_are_issued_as_given<R>(
    host: &mut HostState<R>,
    name: &str,
    args_json: &str,
    late: bool,
    issued: Result<(String, Value), ScriptError>,
)
    requires
        call_ensures(
            HostState::<R>::issue_call,
            (host, Some(name), Some(args_json), late),
            issued,
        ),
        old(host)@.max_calls <= usize::MAX,
    ensures
        issued is Ok <==> old(host)@.calls < old(host)@.max_calls && !late,
        issued matches Ok((tool, args)) ==> {
            &&& tool@ == name@
            &&& json_parse(args_json@) matches Ok(parsed) ==> json_view(args) == parsed
            &&& json_parse(args_json@) is Err ==> json_view(args) is Null
            &&& final(host)@.calls == old(host)@.calls + 1
            &&& final(host)@.running == old(host)@.running + 1
            &&& final(host)@.executed == old(host)@.executed
            &&& final(host).waiting() == old(host).waiting()
            &&& final(host).saved() == old(host).saved()
        },
        issued matches Err(error) ==> {
            &&& *final(host) == *old(host)
            &&& old(host)@.calls < old(host)@.max_calls ==> error is Deadline
            &&& old(host)@.calls >= old(host)@.max_calls ==> (error matches ScriptError::CallBudget {
                max_calls,
            } && max_calls == old(host)@.max_calls)
        },
{
}

/// A page is asked for as the script's request says: its cursor, and its offset and length where
/// they are whole numbers without a sign, each exactly that number.
pub proof fn law_pages_are_asked_for_as_given<R>(
    host: &mut HostState<R>,
    raw: &str,
    members: Map<Seq<char>, Json>,
    issued: Result<FetchArgs, ScriptError>,
)
    requires
        call_ensures(HostState::<R>::issue_fetch, (host, true, Some(raw), false), issued),
        json_parse(raw@) == Ok::<Json, Seq<char>>(Json::Object(members)),
        members.dom().contains("cursor"@) && members["cursor"@] is Text,
        members["cursor"@]->Text_0.len() > 0,
        old(host)@.calls < old(host)@.max_calls,
        old(host)@.max_calls <= usize::MAX,
    ensures
        issued matches Ok(args) && {
            &&& args.cursor@ == members["cursor"@]->Text_0
            &&& crate::host::asks_for_number(members, "offset"@, args.offset)
            &&& crate::host::asks_for_number(members, "len"@, args.len)
        },
        final(host)@.calls == old(host)@.calls + 1,
        final(host)@.executed == old(host)@.executed,
{
}

/// The same of a request that was parsed already, and there is nothing to ask for exactly where
/// its cursor is missing, empty or no text.
pub proof fn law_requests_are_read_as_they_are(
    request: Value,
    members: Map<Seq<char>, Json>,
    args: Option<FetchArgs>,
)
    requires
        call_ensures(fetch_args, (&request,), args),
        json_view(request) == Json::Object(members),
    ensures
        args is Some <==> members.dom().contains("cursor"@) && members["cursor"@] is Text
            && members["cursor"@]->Text_0.len() > 0,
        args matches Some(asked) ==> {
            &&& asked.cursor@ == members["cursor"@]->Text_0
            &&& crate::host::asks_for_number(members, "offset"@, asked.offset)
            &&& crate::host::asks_for_number(members, "len"@, asked.len)
            &&& members.dom().contains("projection"@) && members["projection"@] is Text ==> (
            asked.projection matches Some(text) && text@ == members["projection"@]->Text_0)
            &&& !(members.dom().contains("projection"@) && members["projection"@] is Text)
                ==> asked.projection is None
        },
{
}

/// A host result is told to the script whole, of whatever length.
pub proof fn law_results_are_told_whole(result: Value, text: String)
    requires
        call_ensures(result_text, (&result,), text),
    ensures
        json_text(result) matches Some(encoded) ==> text@ == encoded,
        json_text(result) is None ==> text@ == "null"@,
{
}

/// What the host answered to the calls of a batch is kept, in order, whatever it holds; only the
/// place of a call without an answer is filled.
pub proof fn law_answers_of_a_batch_are_kept(
    joined: Vec<Option<Value>>,
    results: Vec<Value>,
    i: int,
)
    requires
        call_ensures(collect_results, (joined,), results),
        0 <= i < joined@.len(),
    ensures
        results@.len() == joined@.len(),
        joined@[i] matches Some(answer) ==> results@[i] == answer,
        joined@[i] is None ==> {
            &&& json_view(results@[i]) matches Json::Object(members)
            &&& members["isError"@] == Json::Bool(true)
        },
{
    assert(crate::drive::settled(joined@[i], results@[i]));
    crate::json::law_error_result_holds_its_text("Toolport: callAsync worker panicked"@);
}

/// A script returns the value that its text parses to, and `null` where it returns nothing.
pub proof fn law_returned_text_is_parsed(text: &str, returned: Result<Value, ScriptError>)
    requires
        call_ensures(returned_value, (Some(text),), returned),
    ensures
        json_parse(text@) matches Ok(value) ==> (returned matches Ok(given) && json_view(given)
            == value),
        json_parse(text@) matches Err(why) ==> (returned matches Err(ScriptError::NotEncodable {
            detail,
        }) && detail@ == why),
{
}

/// A frame that was written is read back: behind whatever stood before it and before whatever
/// follows, its payload comes out whole, and the stream stands behind it.
pub proof fn law_written_frame_is_read_back(
    out: &mut Vec<u8>,
    payload: Vec<u8>,
    written: Result<(), FrameError>,
    stream: &mut ByteStream,
    rest: Seq<u8>,
    read: Result<Option<Vec<u8>>, FrameError>,
)
    requires
        call_ensures(write_frame, (out, &payload), written),
        0 < payload@.len() <= 16_777_216,
        old(stream).bytes@ == final(out)@ + rest,
        old(stream).position == old(out)@.len(),
        call_ensures(read_frame, (stream,), read),
    ensures
        written is Ok,
        final(out)@.len() == old(out)@.len() + 4 + payload@.len(),
        read matches Ok(Some(bytes)) && bytes@ == payload@,
        final(stream).position == final(out)@.len(),
{
    let data = old(stream).bytes@;
    let at = old(out)@.len() as int;
    let framed = crate::frame::framed(payload@);
    crate::frame::law_frame_is_length_and_payload(payload@);
    assert(final(out)@ == old(out)@ + framed);
    assert(forall|i: int| 0 <= i < framed.len() ==> #[trigger] data[at + i] == framed[i]);
    assert(data[at + 0] == framed[0]);
    assert(data[at + 1] == framed[1]);
    assert(data[at + 2] == framed[2]);
    assert(data[at + 3] == framed[3]);
    crate::frame::law_stream_is_read_by_its_lengths(data, at);
    let found = crate::frame::standing(data, at)->Payload_0;
    assert forall|i: int| 0 <= i < payload@.len() implies found[i] == payload@[i] by {
        assert(data[at + (4 + i)] == framed[4 + i]);
        assert(framed.skip(4)[i] == framed[4 + i]);
    }
    assert(found =~= payload@);
}

/// A value has a size exactly where its encoding is within the limit, and it is the encoding's.
pub proof fn law_sizes_are_those_of_encodings(value: Value, limit: usize, size: Option<usize>)
    requires
        call_ensures(json_size, (&value, limit), size),
    ensures
        match json_text(value) {
            Some(text) => if vstd::utf8::encode_utf8(text).len() <= limit {
                size matches Some(n) && n == vstd::utf8::encode_utf8(text).len()
            } else {
                size is None
            },
            None => size is None,
        },
{
}

/// A promise job that is queued while none waits is the next to run, while jobs may run.
pub proof fn law_queued_job_runs_next<P, G>(
    executor: &mut BoundedJobExecutor<P, G>,
    promise: P,
    after: &mut BoundedJobExecutor<P, G>,
    next: Result<Option<Ready<P, G>>, ScriptError>,
)
    requires
        call_ensures(
            BoundedJobExecutor::<P, G>::enqueue_job,
            (executor, Job::Promise(promise)),
            (),
        ),
        *old(after) == *final(executor),
        call_ensures(BoundedJobExecutor::<P, G>::next_job, (after, false), next),
        old(executor)@.promises.len() == 0,
        old(executor)@.jobs_run < old(executor)@.max_jobs,
    ensures
        next == Ok::<Option<Ready<P, G>>, ScriptError>(Some(Ready::Promise(promise))),
        final(after)@.promises.len() == 0,
        final(after)@.generics == old(executor)@.generics,
        final(after)@.jobs_run == old(executor)@.jobs_run + 1,
{
}

/// A host call begun in a run that goes on is not cancelled; stopping the run cancels it; and one
/// begun later is cancelled from the start.
pub proof fn law_stopping_a_run_cancels_its_calls(
    calls: &mut HostCalls,
    first: HostCall,
    stopping: &mut HostCalls,
    before: bool,
    after: bool,
    late: &mut HostCalls,
    second: HostCall,
    at_once: bool,
)
    requires
        !old(calls)@.stopped,
        old(calls)@.next < u64::MAX - 1,
        call_ensures(HostCalls::start, (calls,), first),
        call_ensures(CancelContext::is_cancelled, (&first.context, &*final(calls)), before),
        *old(stopping) == *final(calls),
        call_ensures(HostCalls::stop, (stopping,), ()),
        call_ensures(CancelContext::is_cancelled, (&first.context, &*final(stopping)), after),
        *old(late) == *final(stopping),
        call_ensures(HostCalls::start, (late,), second),
        call_ensures(CancelContext::is_cancelled, (&second.context, &*final(late)), at_once),
    ensures
        !before,
        after,
        at_once,
        second.id != first.id,
{
}

/// A name is split at the first two underscores in a row.
pub proof fn law_names_are_split_where_they_join(
    exposed: &str,
    server: Seq<char>,
    tool: Seq<char>,
    parts: Option<(&str, &str)>,
)
    requires
        call_ensures(split_exposed_name, (exposed,), parts),
        exposed@ == server + seq!['_', '_'] + tool,
        !server.contains('_'),
    ensures
        parts matches Some((first, second)) && first@ == server && second@ == tool,
{
    crate::names::law_join_then_split(server, tool);
}

/// A literal stands for its text: between its quotes it is read back as that.
pub proof fn law_literals_stand_for_their_text(text: &str, out: String)
    requires
        call_ensures(js_string_literal, (text,), out),
    ensures
        out@.len() >= 2,
        out@[0] == '\'',
        out@.last() == '\'',
        crate::names::read_literal(out@.subrange(1, out@.len() - 1)) == Some(text@),
{
    crate::names::law_literal_is_escaped_piece_by_piece(text@, Seq::empty());
    crate::names::law_literal_reads_back(text@);
    assert(out@.subrange(1, out@.len() - 1) =~= crate::names::escaped(text@));
}

/// A script is evaluated whole.
pub proof fn law_scripts_are_evaluated_whole(script: &str, source: String)
    requires
        call_ensures(wrap_script, (script,), source),
    ensures
        source@ == "(async function () {\n"@ + script@ + "\n})()"@,
{
}

/// A run starts where its script and its input are within their limits and fewer than four
/// permits are out; the limits are looked at first.
pub proof fn law_runs_start_within_the_limits(
    script: &str,
    input: ScriptInput,
    out: usize,
    checked: Result<(), String>,
    started: Result<usize, StartError>,
)
    requires
        call_ensures(check_input, (script, &input), checked),
        call_ensures(check_start, (script, &input, out), started),
    ensures
        ({
            let payload = match input {
                ScriptInput::Data(value) => value,
                ScriptInput::ImmutableInput(value) => value,
            };
            let fits = vstd::utf8::encode_utf8(script@).len() <= 262_144 && (json_text(
                payload,
            ) matches Some(text) && vstd::utf8::encode_utf8(text).len() <= 4_194_304);
            &&& checked is Ok <==> fits
            &&& !fits <==> (started matches Err(StartError::Input(_)))
            &&& fits && out < 4 ==> (started matches Ok(count) && count == out + 1)
            &&& fits && out >= 4 ==> (started matches Err(StartError::NoPermit))
        }),
{
}

/// A permit that comes back leaves the count as it was before it was taken.
pub proof fn law_permits_come_back(out: usize, taken: Option<usize>, left: usize)
    requires
        call_ensures(RunPermit::acquire, (out,), taken),
        taken is Some,
        call_ensures(RunPermit::release, (taken->0,), left),
    ensures
        out < 4,
        left == out,
{
}

/// The parent notices a cancelled run first, then the deadline; and waits until the deadline, or
/// 25 milliseconds where that is later.
pub proof fn law_parent_looks_up_in_time(cancelled: bool, remaining: u128, next: Watchfulness)
    requires
        call_ensures(before_message, (cancelled, remaining), next),
    ensures
        next is Cancelled <==> cancelled,
        next is Deadline <==> !cancelled && remaining == 0,
        next matches Watchfulness::Wait(nanos) ==> {
            &&& 0 < nanos <= 25_000_000
            &&& nanos <= remaining
            &&& nanos == remaining || nanos == 25_000_000
        },
{
}

/// The records of a run come in call order, and none is lost.
pub proof fn law_records_come_in_call_order(list: Vec<CallRecord>, sorted: Vec<CallRecord>)
    requires
        call_ensures(sort_by_index, (list,), sorted),
    ensures
        sorted@.len() == list@.len(),
        forall|i: int, j: int|
            0 <= i < j < sorted@.len() ==> (#[trigger] sorted@[i]).index <= (
            #[trigger] sorted@[j]).index,
        forall|record: CallRecord| #[trigger] list@.contains(record) <==> sorted@.contains(record),
{
    crate::ledger::law_call_order_sorts_and_keeps_all(sorted@, list@, 0);
}

/// An allocation under the limit is counted and goes on while it is within 512 MiB; where the
/// system then refuses it the worker leaves.
pub proof fn law_allocations_are_counted(
    account: &mut WorkerAllocator,
    size: usize,
    fate: Fate,
    served: bool,
    settlement: Settlement,
)
    requires
        old(account).limited,
        old(account).used + size <= usize::MAX,
        call_ensures(reserve, (account, size), fate),
        call_ensures(settle_alloc, (&*final(account), size, served), settlement),
    ensures
        fate is Exit <==> old(account).used + size > 536_870_912,
        final(account).used == old(account).used + size,
        final(account).limited,
        served ==> settlement == Settlement::GiveBack(0),
        !served ==> settlement is Exit,
{
}

/// A worker that ended with its own exit code ran out of memory; one that ended otherwise is
/// reported with its status.
pub proof fn law_ended_worker_is_reported(
    code: i32,
    status: String,
    grace_over: bool,
    reason: Option<String>,
)
    requires
        call_ensures(
            exit_reason,
            (&WorkerExit::Ended { code: Some(code), status }, grace_over, false),
            reason,
        ),
    ensures
        reason matches Some(text) && if code == 86 {
            text@ == "code mode script exceeded its memory budget (512 MiB)"@
        } else {
            text@ == "code mode worker terminated before returning a result ("@ + status@ + ")"@
        },
{
}

/// An input that crosses the pipe in its two parts comes back as it was.
pub proof fn law_inputs_come_back_whole(
    input: ScriptInput,
    parts: (Value, bool),
    back: ScriptInput,
)
    requires
        call_ensures(ScriptInput::into_parts, (input,), parts),
        call_ensures(ScriptInput::from_parts, (parts.0, parts.1), back),
    ensures
        back == input,
        match input {
            ScriptInput::Data(value) => parts == (value, false),
            ScriptInput::ImmutableInput(value) => parts == (value, true),
        },
{
}

/// Answers that the host gives to a batch settle its promises: a step of the drive gives each
/// promise the encoding of its own call's answer, whatever it holds.
pub proof fn law_answers_settle_their_promises<R, V>(
    drive: &mut Drive<R>,
    host: &mut HostState<R>,
    joined: Vec<Option<Value>>,
    late: bool,
    task: Task<R, V>,
    i: int,
)
    requires
        old(drive)@.expects(Progress::<V>::Called(joined), old(host)@),
        call_ensures(
            Drive::<R>::step::<V>,
            (drive, host, Progress::<V>::Called(joined), late),
            task,
        ),
        0 <= i < joined@.len(),
    ensures
        task matches Task::Settle(pairs) && {
            &&& pairs@.len() == joined@.len()
            &&& pairs@[i].0 == old(drive)@.batch[i].resolvers
            &&& joined@[i] matches Some(answer) ==> (json_text(answer) matches Some(text)
                ==> pairs@[i].1@ == text)
        },
        final(host)@.executed.len() == old(host)@.executed.len() + joined@.len(),
        final(host)@.executed[old(host)@.executed.len() + i].name
            == old(drive)@.batch[i].name@,
        joined@[i] matches Some(answer) ==> (
        !final(host)@.executed[old(host)@.executed.len() + i].ok <==> (json_view(
            answer,
        ) matches Json::Object(members) && members.dom().contains("isError"@)
            && members["isError"@] == Json::Bool(true))),
{
    crate::drive::law_a_batch_comes_back_whole(
        old(drive)@,
        *old(host),
        joined,
        late,
        final(drive)@,
        *final(host),
        task,
    );
    if joined@[i] is Some {
        crate::drive::law_answers_reach_the_script_unchanged(
            old(drive)@,
            *old(host),
            joined,
            late,
            final(drive)@,
            *final(host),
            task,
            i,
        );
    } else {
        crate::drive::law_only_missing_answers_are_made_up(
            old(drive)@,
            *old(host),
            joined,
            late,
            final(drive)@,
            *final(host),
            task,
            i,
        );
    }
}

/// A call that is set aside is taken up with what it was set aside with, behind those that waited
/// before it.
pub proof fn law_deferred_call_is_taken_up<R>(
    host: &mut HostState<R>,
    name: String,
    args: Value,
    resolvers: R,
    taking: &mut HostState<R>,
    taken: Result<Vec<PendingCall<R>>, ScriptError>,
)
    requires
        old(host).wf(),
        old(host)@.running > 0,
        old(host).waiting().len() < old(host)@.max_parallel,
        call_ensures(HostState::<R>::queue_call, (host, name, args, resolvers), ()),
        *old(taking) == *final(host),
        call_ensures(HostState::<R>::take_batch, (taking, false), taken),
    ensures
        taken matches Ok(batch) && {
            &&& batch@.len() == old(host).waiting().len() + 1
            &&& batch@.last().name == name
            &&& batch@.last().args == args
            &&& batch@.last().resolvers == resolvers
            &&& forall|i: int|
                0 <= i < old(host).waiting().len() ==> #[trigger] batch@[i]
                    == old(host).waiting()[i]
        },
        final(taking).waiting().len() == 0,
        final(taking)@.calls == old(host)@.calls,
        final(taking)@.executed == old(host)@.executed,
{
    assert(final(host)@.queued.len() == old(host).waiting().len() + 1);
}

/// A run begins under the limits that it is given, with nothing issued; its checkpoints may take
/// what its result budget leaves, up to 4096 bytes.
pub proof fn law_run_begins_under_its_limits<R>(
    limits: Limits,
    budget: usize,
    host: HostState<R>,
    supervisor: Supervisor,
    room: usize,
)
    requires
        call_ensures(HostState::<R>::new, (&limits, budget), host),
        call_ensures(Supervisor::new, (&limits,), supervisor),
        call_ensures(checkpoint_limit_for_result_budget, (budget,), room),
    ensures
        host@.max_calls == limits.max_calls,
        supervisor@.max_calls == limits.max_calls,
        limits.max_parallel > 0 ==> host@.max_parallel == limits.max_parallel
            && supervisor@.max_parallel == limits.max_parallel,
        limits.max_parallel == 0 ==> host@.max_parallel == 1 && supervisor@.max_parallel == 1,
        host@.calls == 0 && supervisor@.calls == 0,
        host@.executed.len() == 0 && host.waiting().len() == 0,
        host.saved() is None && supervisor@.checkpoint is None,
        host@.max_checkpoint_bytes == room,
        budget == 0 || budget >= 5120 ==> room == 4096,
        1024 <= budget <= 5120 ==> room == budget - 1024,
        0 < budget < 1024 ==> room == 0,
{
    assert(host@.queued.len() == 0);
    assert(host@.checkpoint is None);
}

/// A request that was registered is answered by its own reply; once the pipe has failed, a request
/// is refused with the failure, and those that waited are all handed out.
pub proof fn law_requests_are_answered_or_refused<S>(
    pending: &mut Pending<S>,
    id: u64,
    sender: S,
    refused: Option<Value>,
    reading: &mut Pending<S>,
    result: Value,
    delivery: Delivery<S>,
    failing: &mut Pending<S>,
    error: String,
    waiting: std::collections::HashMap<u64, S>,
    later: &mut Pending<S>,
    told: Option<Value>,
)
    requires
        old(pending)@.error is None,
        call_ensures(Pending::<S>::register, (pending, id, sender), refused),
        *old(reading) == *final(pending),
        call_ensures(
            Pending::<S>::receive,
            (reading, Incoming::Frame(Frame::CallResult { id, result })),
            delivery,
        ),
        *old(failing) == *final(pending),
        call_ensures(Pending::<S>::fail_all, (failing, error), waiting),
        *old(later) == *final(failing),
        call_ensures(Pending::<S>::register, (later, id, sender), told),
    ensures
        refused is None,
        delivery == Delivery::Deliver(sender, result),
        waiting@.dom().contains(id) && waiting@[id] == sender,
        forall|other: u64|
            other != id && #[trigger] old(pending)@.senders.dom().contains(other)
                ==> waiting@.dom().contains(other) && waiting@[other]
                == old(pending)@.senders[other],
        told matches Some(refusal) && {
            &&& json_view(refusal) matches Json::Object(members)
            &&& members["isError"@] == Json::Bool(true)
            &&& members["content"@] matches Json::Array(blocks)
            &&& blocks[0] matches Json::Object(block)
            &&& block["text"@] == Json::Text(error@)
        },
        final(later)@.senders.dom().len() == 0,
{
    crate::json::law_error_result_holds_its_text(error@);
}

/// Every name of the catalog with a server and a tool is bound, under its tool's name, to a stub
/// that calls that very name.
pub proof fn law_prelude_binds_every_tool(
    catalog: &[String],
    out: String,
    server: Seq<char>,
    tool: Seq<char>,
    i: int,
)
    requires
        call_ensures(build_servers_prelude, (catalog,), out),
        0 <= i < catalog@.len(),
        catalog@[i]@ == server + seq!['_', '_'] + tool,
        !server.contains('_'),
        server.len() > 0 && tool.len() > 0,
    ensures
        crate::servers::stands_in(
            out@,
            "    s["@ + crate::names::literal(tool) + "] = stub("@ + crate::names::literal(
                catalog@[i]@,
            ) + ");\n"@,
        ),
{
    crate::names::law_join_then_split(server, tool);
    assert(crate::names::split_name(catalog@[i]@) == Some((server, tool)));
    assert(crate::servers::in_catalog(catalog@, (server, tool)));
    crate::servers::law_every_tool_is_bound(catalog@, (server, tool));
}

/// What is evaluated ends with the script, whole, and holds the `servers` object of its catalog
/// before it.
pub proof fn law_script_comes_last(
    script: &str,
    input: ScriptInput,
    catalog: &[String],
    texts: Vec<String>,
    prelude: String,
)
    requires
        call_ensures(evaluation_sources, (script, &input, catalog), texts),
        call_ensures(build_servers_prelude, (catalog,), prelude),
    ensures
        texts@.len() == (if input is ImmutableInput {
            4int
        } else {
            3
        }),
        texts@.last()@ == "(async function () {\n"@ + script@ + "\n})()"@,
        texts@[texts@.len() - 2]@ == prelude@,
{
    let views = texts@.map_values(|text: String| text@);
    assert(views.len() == texts@.len());
    assert(views[texts@.len() - 1] == texts@[texts@.len() - 1]@);
    assert(views[texts@.len() - 2] == texts@[texts@.len() - 2]@);
}

/// A name without underscores is kept as it is.
pub proof fn law_camel_keeps_single_words(word: &str, out: String)
    requires
        call_ensures(snake_to_camel, (word,), out),
        !word@.contains('_'),
    ensures
        out@ == word@,
{
    lemma_camel_of_one_word(word@);
}

proof fn lemma_camel_of_one_word(word: Seq<char>)
    requires
        !word.contains('_'),
    ensures
        crate::names::camel(word) == word,
    decreases word.len(),
{
    if word.len() > 0 {
        let front = word.drop_last();
        assert forall|c: char| front.contains(c) implies word.contains(c) by {
            let i = choose|i: int| 0 <= i < front.len() && front[i] == c;
            assert(word[i] == c);
        }
        lemma_camel_of_one_word(front);
        assert(word.contains(word.last()));
        assert(word =~= front.push(word.last()));
        if front.len() > 0 {
            assert(front.contains(front.last()));
        }
        crate::names::law_camel_grows_with_its_text(front, word.last());
    } else {
        crate::names::law_camel_grows_with_its_text(word, 'a');
        assert(word =~= Seq::empty());
    }
}

/// An identifier is a word of ASCII letters, digits, `_` and `$` that begins with no digit.
pub proof fn law_identifiers_are_told(text: &str, yes: bool)
    requires
        call_ensures(is_js_ident_start, (text,), yes),
    ensures
        yes <==> {
            &&& text@.len() > 0
            &&& !('0' <= text@[0] <= '9')
            &&& forall|i: int|
                0 <= i < text@.len() ==> {
                    let c = #[trigger] text@[i];
                    'a' <= c <= 'z' || 'A' <= c <= 'Z' || '0' <= c <= '9' || c == '_' || c == '$'
                }
        },
{
}

/// A reader that is fed one frame, in three pieces, gives its payload and is ready for the next.
pub proof fn law_reader_gives_the_payload(
    first: &mut FrameReader,
    one: Vec<u8>,
    opened: Fed,
    second: &mut FrameReader,
    three: Vec<u8>,
    measured: Fed,
    third: &mut FrameReader,
    body: Vec<u8>,
    given: Fed,
)
    requires
        *old(first) == FrameReader::Start,
        one@.len() == 1 && three@.len() == 3,
        one@[0] * 16777216 + three@[0] * 65536 + three@[1] * 256 + three@[2] == body@.len(),
        0 < body@.len() <= 16_777_216,
        call_ensures(FrameReader::feed, (first, one), opened),
        *old(second) == *final(first),
        call_ensures(FrameReader::feed, (second, three), measured),
        *old(third) == *final(second),
        call_ensures(FrameReader::feed, (third, body), given),
    ensures
        opened is More && measured is More,
        given == Fed::Payload(body),
        *final(third) == FrameReader::Start,
{
    let header = seq![one@[0]] + three@;
    assert(header[0] == one@[0] && header[1] == three@[0] && header[2] == three@[1] && header[3]
        == three@[2]);
}

/// A block that is resized is counted at its new size where the system served it.
pub proof fn law_resizes_are_counted(
    old_size: usize,
    new_size: usize,
    growth: usize,
    account: WorkerAllocator,
    served: bool,
    settlement: Settlement,
)
    requires
        call_ensures(resize_growth, (old_size, new_size), growth),
        call_ensures(settle_realloc, (&account, old_size, new_size, served), settlement),
    ensures
        !served && account.limited <==> settlement is Exit,
        settlement matches Settlement::GiveBack(bytes) ==> old_size + growth - bytes == (if served {
            new_size as int
        } else {
            old_size as int
        }),
{
}

/// The address-space limit is the least of the budget and what the process inherits.
pub proof fn law_address_space_is_the_least(
    current: u64,
    ceiling: u64,
    bytes: u64,
    other: int,
)
    requires
        call_ensures(address_space_limit, (current, ceiling), bytes),
    ensures
        bytes <= current && bytes <= ceiling && bytes <= 536_870_912,
        other <= current && other <= ceiling && other <= 536_870_912 ==> other <= bytes,
{
}

/// A worker's outcome is sent as it is but for its error, which an error of the pipe replaces.
pub proof fn law_pipe_error_replaces_the_scripts(
    outcome: ScriptOutcome,
    error: String,
    sent: ScriptOutcome,
    kept: ScriptOutcome,
)
    requires
        call_ensures(final_outcome, (outcome, Some(error)), sent),
        call_ensures(final_outcome, (outcome, None), kept),
    ensures
        kept == outcome,
        sent.error == Some(error),
        (ScriptOutcome { error: outcome.error, ..sent }) == outcome,
{
}

/// What a script or a caller is told is the error's own text.
pub proof fn law_messages_are_their_texts(
    error: ScriptError,
    told: String,
    frame: FrameError,
    said: String,
    start: StartError,
    reported: String,
    outcome: ScriptOutcome,
)
    requires
        call_ensures(ScriptError::message, (&error,), told),
        call_ensures(FrameError::message, (&frame,), said),
        call_ensures(StartError::message, (&start,), reported),
        call_ensures(StartError::outcome, (&start,), outcome),
    ensures
        error matches ScriptError::Rejected { reason } ==> told@ == "Uncaught "@ + reason@,
        error matches ScriptError::CheckpointInvalid { detail } ==> told@
            == "toolport.checkpoint received invalid JSON: "@ + detail@,
        frame matches FrameError::Io(detail) ==> said@ == "worker pipe I/O error: "@ + detail@,
        frame matches FrameError::InvalidJson(detail) ==> said@
            == "worker frame is not valid JSON: "@ + detail@,
        start matches StartError::Input(detail) ==> reported@ == detail@,
        outcome.error matches Some(text) && text@ == reported@,
        outcome.calls == 0 && outcome.progress@.len() == 0 && outcome.checkpoint is None,
{
}

} // verus!
