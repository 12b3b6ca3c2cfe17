//! Running a script to its end: deferred calls and promise jobs in turn, until the script's
//! promise settles.

use serde_json::Value;
use vstd::prelude::*;
use vstd::string::*;

use crate::errors::ScriptError;
use crate::host::{HostState, PendingCall, MAX_DRIVE_ITERS};
use crate::json::{error_result, null, parse};

verus! {

/// The calls of a batch as the host makes them: each with the position that its record takes.
pub fn batch_calls<R>(batch: &Vec<PendingCall<R>>, start_index: usize) -> (calls: Vec<
    (usize, String, Value),
>)
    requires
        start_index + batch@.len() <= usize::MAX,
    ensures
        calls@.len() == batch@.len(),
        forall|i: int|
            0 <= i < batch@.len() ==> {
                &&& (#[trigger] calls@[i]).0 == start_index + i
                &&& calls@[i].1@ == batch@[i].name@
                &&& crate::json::json_view(calls@[i].2) == crate::json::json_view(batch@[i].args)
                &&& crate::json::json_text(calls@[i].2) == crate::json::json_text(batch@[i].args)
            },
{
    let mut calls: Vec<(usize, String, Value)> = Vec::new();
    let mut at: usize = 0;
    while at < batch.len()
        invariant
            at <= batch@.len(),
            start_index + batch@.len() <= usize::MAX,
            calls@.len() == at,
            forall|i: int|
                0 <= i < at ==> {
                    &&& (#[trigger] calls@[i]).0 == start_index + i
                    &&& calls@[i].1@ == batch@[i].name@
                    &&& crate::json::json_view(calls@[i].2) == crate::json::json_view(
                        batch@[i].args,
                    )
                    &&& crate::json::json_text(calls@[i].2) == crate::json::json_text(
                        batch@[i].args,
                    )
                },
        decreases batch.len() - at,
    {
        calls.push((start_index + at, batch[at].name.clone(), batch[at].args.clone()));
        at = at + 1;
    }
    calls
}

/// What a call of a batch gave: its result, or nothing where the host panicked.
pub open spec fn settled(joined: Option<Value>, result: Value) -> bool {
    match joined {
        Some(value) => result == value,
        None => crate::json::json_view(result) == crate::json::error_json(
            "Toolport: callAsync worker panicked"@,
        ),
    }
}

/// The results of a batch, in its order whatever the order in which they came.
pub fn collect_results(joined: Vec<Option<Value>>) -> (results: Vec<Value>)
    ensures
        results@.len() == joined@.len(),
        forall|i: int| 0 <= i < joined@.len() ==> settled(joined@[i], #[trigger] results@[i]),
{
    let mut results: Vec<Value> = Vec::new();
    for slot in it: joined
        invariant
            it.seq() == joined@,
            results@.len() == it.index(),
            forall|i: int|
                0 <= i < it.index() ==> settled(joined@[i], #[trigger] results@[i]),
    {
        match slot {
            Some(value) => results.push(value),
            None => results.push(error_result("Toolport: callAsync worker panicked")),
        }
    }
    results
}

/// What the script's top level is after its promise jobs ran.
pub enum Top<V> {
    /// No promise: the value itself.
    Plain(V),
    Pending,
    Fulfilled(V),
    /// Rejected for a reason, as text.
    Rejected(String),
}

/// The script's return value, from what `JSON.stringify` made of it: nothing where the script
/// returned nothing.
pub fn returned_value(encoded: Option<&str>) -> (returned: Result<Value, ScriptError>)
    ensures
        match encoded {
            None => returned is Ok && crate::json::json_view(returned->Ok_0)
                == crate::json::Json::Null,
            Some(text) => match returned {
                Ok(value) => crate::json::json_parse(text@) == Ok::<
                    crate::json::Json,
                    Seq<char>,
                >(crate::json::json_view(value)),
                Err(error) => error matches ScriptError::NotEncodable { detail }
                    && crate::json::json_parse(text@) == Err::<crate::json::Json, Seq<char>>(
                    detail@,
                ),
            },
        },
{
    match encoded {
        None => Ok(null()),
        Some(text) => parsed_return(parse(text)),
    }
}

/// The script's return value, from its parsed encoding.
pub fn parsed_return(parsed: Result<Value, String>) -> (returned: Result<Value, ScriptError>)
    ensures
        returned == (match parsed {
            Ok(value) => Ok::<Value, ScriptError>(value),
            Err(detail) => Err(ScriptError::NotEncodable { detail }),
        }),
{
    match parsed {
        Ok(value) => Ok(value),
        Err(detail) => Err(ScriptError::NotEncodable { detail }),
    }
}

/// Where a run stands between two steps of its drive.
#[derive(Debug, Clone, Copy, PartialEq, Eq, Structural)]
pub enum Phase {
    /// A round begins.
    Ready,
    /// The host makes the calls of a batch.
    Calling,
    /// The promises of a batch settle.
    Settling,
    /// Promise jobs run.
    Jobs,
    /// The script's top level is looked at.
    Looking,
}

/// What happened since the last step.
pub enum Progress<V> {
    /// Nothing yet: the script was evaluated and is to be driven.
    Begun,
    /// The calls of the batch came back, in its order; nothing stands for a call that panicked.
    Called(Vec<Option<Value>>),
    /// The promises of the batch were settled.
    Settled,
    /// The promise jobs ran.
    JobsRan,
    /// The script's top level is this.
    Top(Top<V>),
}

/// What to do next.
pub enum Task<R, V> {
    /// Make these host calls, at once, each at its position.
    Call(Vec<(usize, String, Value)>),
    /// Settle these promises with these texts, in order.
    Settle(Vec<(R, String)>),
    RunJobs,
    /// Look at the script's top level.
    Look,
    Return(V),
    Fail(ScriptError),
}

/// Drives a script to its end.
pub struct Drive<R> {
    /// Rounds that began.
    pub(crate) rounds: usize,
    pub(crate) phase: Phase,
    /// The calls that the host makes.
    pub(crate) batch: Vec<PendingCall<R>>,
}

/// What a [`Drive`] holds.
pub struct Driving<R> {
    pub rounds: nat,
    pub phase: Phase,
    pub batch: Seq<PendingCall<R>>,
}

impl<R> View for Drive<R> {
    type V = Driving<R>;

    open(crate) spec fn view(&self) -> Driving<R> {
        Driving { rounds: self.rounds as nat, phase: self.phase, batch: self.batch@ }
    }
}

/// Whether the calls are those of the batch, from the position `start` on.
pub open spec fn is_batch<R>(
    calls: Seq<(usize, String, Value)>,
    batch: Seq<PendingCall<R>>,
    start: nat,
) -> bool {
    &&& calls.len() == batch.len()
    &&& forall|i: int|
        0 <= i < batch.len() ==> {
            &&& (#[trigger] calls[i]).0 == start + i
            &&& calls[i].1@ == batch[i].name@
            &&& crate::json::json_view(calls[i].2) == crate::json::json_view(batch[i].args)
            &&& crate::json::json_text(calls[i].2) == crate::json::json_text(batch[i].args)
        }
}

impl<R> Drive<R> {
    pub open spec fn wf(&self) -> bool {
        self@.rounds <= MAX_DRIVE_ITERS
    }

    pub fn new() -> (drive: Self)
        ensures
            drive.wf(),
            drive@ == (Driving::<R> { rounds: 0, phase: Phase::Ready, batch: Seq::empty() }),
    {
        Drive { rounds: 0, phase: Phase::Ready, batch: Vec::new() }
    }

    /// Takes up deferred calls as long as any wait, and runs promise jobs then.
    fn flush<V>(&mut self, host: &mut HostState<R>, deadline_passed: bool) -> (task: Task<R, V>)
        requires
            old(self).wf(),
            old(host).wf(),
        ensures
            final(self)@.rounds == old(self)@.rounds,
            flushed(*old(host), *final(host), final(self)@, deadline_passed, task),
    {
        match host.take_batch(deadline_passed) {
            Err(error) => Task::Fail(error),
            Ok(batch) => {
                if batch.len() == 0 {
                    proof {
                        assert(old(host).pending@.len() == 0) by {
                            assert(batch@.len() == old(host)@.batch_len());
                        }
                        assert(host@ =~= old(host)@);
                        assert(host.pending@ =~= old(host).pending@);
                    }
                    self.phase = Phase::Jobs;
                    return Task::RunJobs;
                }
                let start: usize = host.next_index();
                let calls = batch_calls(&batch, start);
                self.batch = batch;
                self.phase = Phase::Calling;
                Task::Call(calls)
            },
        }
    }

    /// Begins a round.
    fn begin<V>(&mut self, host: &mut HostState<R>, deadline_passed: bool) -> (task: Task<R, V>)
        requires
            old(self).wf(),
            old(host).wf(),
        ensures
            final(self).wf(),
            begun(old(self)@, *old(host), final(self)@, *final(host), deadline_passed, task),
    {
        if self.rounds >= MAX_DRIVE_ITERS {
            return Task::Fail(ScriptError::DriveBudget);
        }
        self.rounds = self.rounds + 1;
        self.flush(host, deadline_passed)
    }
}

impl<R> Driving<R> {
    /// Whether this can have happened, given what was to be done.
    pub open spec fn expects<V>(self, progress: Progress<V>, host: crate::host::Host) -> bool {
        match progress {
            Progress::Begun => self.phase == Phase::Ready,
            Progress::Called(joined) => self.phase == Phase::Calling && joined@.len()
                == self.batch.len() && host.running >= self.batch.len(),
            Progress::Settled => self.phase == Phase::Settling,
            Progress::JobsRan => self.phase == Phase::Jobs,
            Progress::Top(_) => self.phase == Phase::Looking,
        }
    }
}

/// What flushing deferred calls does. The clock is looked at first.
pub open spec fn flushed<R, V>(
    before: HostState<R>,
    after: HostState<R>,
    drive: Driving<R>,
    deadline_passed: bool,
    task: Task<R, V>,
) -> bool {
    if deadline_passed {
        &&& task == Task::<R, V>::Fail(ScriptError::Deadline)
        &&& after == before
    } else if before@.queued.len() == 0 {
        &&& task is RunJobs
        &&& drive.phase == Phase::Jobs
        &&& after.wf()
        &&& after@ == before@
        &&& after.waiting() == before.waiting()
        &&& after.saved() == before.saved()
    } else {
        &&& task matches Task::Call(calls)
        &&& drive.phase == Phase::Calling
        &&& drive.batch == before.waiting().take(before@.batch_len() as int)
        &&& is_batch(calls@, drive.batch, before@.executed.len())
        &&& after.wf()
        &&& after@ == before@.take_up()
        &&& after.waiting() == before.waiting().skip(before@.batch_len() as int)
        &&& after.saved() == before.saved()
    }
}

/// What beginning a round does.
pub open spec fn begun<R, V>(
    drive: Driving<R>,
    host: HostState<R>,
    next: Driving<R>,
    after: HostState<R>,
    deadline_passed: bool,
    task: Task<R, V>,
) -> bool {
    if drive.rounds >= MAX_DRIVE_ITERS {
        &&& task == Task::<R, V>::Fail(ScriptError::DriveBudget)
        &&& after == host
    } else {
        &&& next.rounds == drive.rounds + 1
        &&& flushed(host, after, next, deadline_passed, task)
    }
}

/// Whether the batch came back as `joined`, is recorded, and settles with the texts of `pairs`.
pub open spec fn batch_done<R>(
    batch: Seq<PendingCall<R>>,
    joined: Seq<Option<Value>>,
    before: HostState<R>,
    after: HostState<R>,
    pairs: Seq<(R, String)>,
) -> bool {
    exists|results: Seq<Value>|
        {
            &&& results.len() == batch.len()
            &&& forall|i: int|
                0 <= i < batch.len() ==> settled(joined[i], #[trigger] results[i])
            &&& after@ == #[trigger] before@.record_all(crate::host::names_of(batch), results)
            &&& pairs.len() == batch.len()
            &&& forall|i: int|
                0 <= i < batch.len() ==> (#[trigger] pairs[i]).0 == batch[i].resolvers
                    && pairs[i].1@ == crate::host::result_json(results[i])
        }
}

/// What a step of the drive does.
pub open spec fn driven<R, V>(
    drive: Driving<R>,
    host: HostState<R>,
    progress: Progress<V>,
    deadline_passed: bool,
    next: Driving<R>,
    after: HostState<R>,
    task: Task<R, V>,
) -> bool {
    match progress {
        Progress::Begun => begun(drive, host, next, after, deadline_passed, task),
        Progress::Called(joined) => {
            &&& task matches Task::Settle(pairs)
            &&& next.phase == Phase::Settling
            &&& next.rounds == drive.rounds
            &&& after.waiting() == host.waiting()
            &&& after.saved() == host.saved()
            &&& batch_done(drive.batch, joined@, host, after, pairs@)
        },
        Progress::Settled => if host@.queued.len() > 0 {
            &&& next.rounds == drive.rounds
            &&& flushed(host, after, next, deadline_passed, task)
        } else {
            &&& task is RunJobs
            &&& next.phase == Phase::Jobs
            &&& next.rounds == drive.rounds
            &&& after == host
        },
        Progress::JobsRan => if host@.queued.len() > 0 {
            begun(drive, host, next, after, deadline_passed, task)
        } else {
            &&& task is Look
            &&& next.phase == Phase::Looking
            &&& next.rounds == drive.rounds
            &&& after == host
        },
        Progress::Top(top) => {
            &&& after == host
            &&& next.rounds == drive.rounds
            &&& match top {
                Top::Plain(value) => task == Task::<R, V>::Return(value),
                Top::Fulfilled(value) => task == Task::<R, V>::Return(value),
                Top::Pending => task == Task::<R, V>::Fail(ScriptError::Hung),
                Top::Rejected(reason) => task == Task::<R, V>::Fail(
                    ScriptError::Rejected { reason },
                ),
            }
        },
    }
}

impl<R> Drive<R> {
    /// What to do next, after what happened. Deferred calls are made batch by batch and recorded
    /// before any of their promises settles; promise jobs run once none waits; and the script's
    /// top level counts once the jobs left none behind.
    pub fn step<V>(
        &mut self,
        host: &mut HostState<R>,
        progress: Progress<V>,
        deadline_passed: bool,
    ) -> (task: Task<R, V>)
        requires
            old(self).wf(),
            old(host).wf(),
            old(self)@.expects(progress, old(host)@),
        ensures
            final(self).wf(),
            final(host).wf(),
            driven(
                old(self)@,
                *old(host),
                progress,
                deadline_passed,
                final(self)@,
                *final(host),
                task,
            ),
    {
        match progress {
            Progress::Begun => self.begin(host, deadline_passed),
            Progress::Called(joined) => {
                let results = collect_results(joined);
                let mut batch: Vec<PendingCall<R>> = Vec::new();
                std::mem::swap(&mut batch, &mut self.batch);
                let texts = host.record_batch(&batch, &results);
                let ghost done = batch@;
                let pairs = pair_up(batch, texts);
                proof {
                    assert(batch_done(done, joined@, *old(host), *host, pairs@)) by {
                        let all = results@;
                        assert(host@ == old(host)@.record_all(crate::host::names_of(done), all));
                    }
                }
                self.phase = Phase::Settling;
                Task::Settle(pairs)
            },
            Progress::Settled => {
                if host.has_pending() {
                    return self.flush(host, deadline_passed);
                }
                self.phase = Phase::Jobs;
                Task::RunJobs
            },
            Progress::JobsRan => {
                if host.has_pending() {
                    return self.begin(host, deadline_passed);
                }
                self.phase = Phase::Looking;
                Task::Look
            },
            Progress::Top(top) => match top {
                Top::Plain(value) => Task::Return(value),
                Top::Fulfilled(value) => Task::Return(value),
                Top::Pending => Task::Fail(ScriptError::Hung),
                Top::Rejected(reason) => Task::Fail(ScriptError::Rejected { reason }),
            },
        }
    }
}

/// Each deferred call's resolvers with the text that it settles with.
fn pair_up<R>(batch: Vec<PendingCall<R>>, texts: Vec<String>) -> (pairs: Vec<(R, String)>)
    requires
        texts@.len() == batch@.len(),
    ensures
        pairs@.len() == batch@.len(),
        forall|i: int|
            0 <= i < batch@.len() ==> (#[trigger] pairs@[i]).0 == batch@[i].resolvers
                && pairs@[i].1@ == texts@[i]@,
{
    let mut pairs: Vec<(R, String)> = Vec::new();
    let count: usize = texts.len();
    let mut at: usize = 0;
    for call in it: batch
        invariant
            it.seq() == batch@,
            at == it.index(),
            count == texts@.len(),
            texts@.len() == batch@.len(),
            pairs@.len() == at,
            forall|i: int|
                0 <= i < at ==> (#[trigger] pairs@[i]).0 == batch@[i].resolvers && pairs@[i].1@
                    == texts@[i]@,
    {
        pairs.push((call.resolvers, texts[at].clone()));
        at = at + 1;
    }
    pairs
}

/// The position that a call is made at is the position of its record: once a batch is recorded,
/// each of its calls stands in the ledger where the host was told.
pub proof fn law_calls_are_made_at_their_records<R>(
    host: crate::host::Host,
    batch: Seq<PendingCall<R>>,
    calls: Seq<(usize, String, Value)>,
    results: Seq<Value>,
    i: int,
)
    requires
        is_batch(calls, batch, host.executed.len()),
        results.len() == batch.len(),
        host.running >= batch.len(),
        0 <= i < batch.len(),
    ensures
        host.record_all(crate::host::names_of(batch), results).executed[calls[i].0 as int]
            == crate::model::record_of(calls[i].0 as nat, calls[i].1@, results[i]),
{
    crate::host::law_batch_is_recorded_in_order(host, crate::host::names_of(batch), results);
}

/// What the host answers to a call of a batch is what the script gets and what is recorded,
/// whatever the answer holds, a failure too: the text that settles the promise is the answer's
/// own encoding, and the record at the call's position is of that answer.
pub proof fn law_answers_reach_the_script_unchanged<R, V>(
    drive: Driving<R>,
    host: HostState<R>,
    joined: Vec<Option<Value>>,
    deadline_passed: bool,
    next: Driving<R>,
    after: HostState<R>,
    task: Task<R, V>,
    i: int,
)
    requires
        drive.expects(Progress::<V>::Called(joined), host@),
        driven(drive, host, Progress::<V>::Called(joined), deadline_passed, next, after, task),
        0 <= i < joined@.len(),
        joined@[i] is Some,
    ensures
        task matches Task::Settle(pairs) && {
            let answer = joined@[i]->0;
            let record = after@.executed[host@.executed.len() + i];
            &&& pairs@.len() == joined@.len()
            &&& pairs@[i].0 == drive.batch[i].resolvers
            &&& (crate::json::json_text(answer) matches Some(text) ==> pairs@[i].1@ == text)
            &&& (crate::json::json_text(answer) is None ==> pairs@[i].1@ == "null"@)
            &&& record.index == host@.executed.len() + i
            &&& record.name == drive.batch[i].name@
            &&& !record.ok <==> (crate::json::json_view(answer) matches crate::json::Json::Object(
                members,
            ) && members.dom().contains("isError"@) && members["isError"@]
                == crate::json::Json::Bool(true))
            &&& (crate::json::json_text(answer) matches Some(text) ==> record.result_bytes
                == vstd::utf8::encode_utf8(text).len())
        },
{
    let pairs = task->Settle_0@;
    let results = choose|results: Seq<Value>|
        {
            &&& results.len() == drive.batch.len()
            &&& forall|k: int|
                0 <= k < drive.batch.len() ==> settled(joined@[k], #[trigger] results[k])
            &&& after@ == #[trigger] host@.record_all(
                crate::host::names_of(drive.batch),
                results,
            )
            &&& pairs.len() == drive.batch.len()
            &&& forall|k: int|
                0 <= k < drive.batch.len() ==> (#[trigger] pairs[k]).0 == drive.batch[k].resolvers
                    && pairs[k].1@ == crate::host::result_json(results[k])
        };
    crate::host::law_batch_is_recorded_in_order(
        host@,
        crate::host::names_of(drive.batch),
        results,
    );
    assert(settled(joined@[i], results[i]));
    assert(pairs[i].0 == drive.batch[i].resolvers);
}

/// A call that the host gave no answer to counts as failed: the script gets the encoding of one
/// failed result that says so, and its record says that it failed.
pub proof fn law_only_missing_answers_are_made_up<R, V>(
    drive: Driving<R>,
    host: HostState<R>,
    joined: Vec<Option<Value>>,
    deadline_passed: bool,
    next: Driving<R>,
    after: HostState<R>,
    task: Task<R, V>,
    i: int,
)
    requires
        drive.expects(Progress::<V>::Called(joined), host@),
        driven(drive, host, Progress::<V>::Called(joined), deadline_passed, next, after, task),
        0 <= i < joined@.len(),
        joined@[i] is None,
    ensures
        task matches Task::Settle(pairs) && {
            let record = after@.executed[host@.executed.len() + i];
            &&& pairs@[i].0 == drive.batch[i].resolvers
            &&& record.index == host@.executed.len() + i
            &&& record.name == drive.batch[i].name@
            &&& !record.ok
            &&& exists|made_up: Value|
                {
                    &&& (#[trigger] crate::json::json_view(made_up)) matches
                        crate::json::Json::Object(members)
                    &&& members["isError"@] == crate::json::Json::Bool(true)
                    &&& members["content"@] matches crate::json::Json::Array(blocks)
                    &&& blocks.len() == 1
                    &&& blocks[0] matches crate::json::Json::Object(block)
                    &&& block["text"@] == crate::json::Json::Text(
                        "Toolport: callAsync worker panicked"@,
                    )
                    &&& (crate::json::json_text(made_up) matches Some(text) ==> pairs@[i].1@
                        == text)
                }
        },
{
    let pairs = task->Settle_0@;
    let results = choose|results: Seq<Value>|
        {
            &&& results.len() == drive.batch.len()
            &&& forall|k: int|
                0 <= k < drive.batch.len() ==> settled(joined@[k], #[trigger] results[k])
            &&& after@ == #[trigger] host@.record_all(
                crate::host::names_of(drive.batch),
                results,
            )
            &&& pairs.len() == drive.batch.len()
            &&& forall|k: int|
                0 <= k < drive.batch.len() ==> (#[trigger] pairs[k]).0 == drive.batch[k].resolvers
                    && pairs[k].1@ == crate::host::result_json(results[k])
        };
    crate::host::law_batch_is_recorded_in_order(
        host@,
        crate::host::names_of(drive.batch),
        results,
    );
    assert(settled(joined@[i], results[i]));
    assert(pairs[i].0 == drive.batch[i].resolvers);
    crate::json::law_error_result_holds_its_text("Toolport: callAsync worker panicked"@);
}

/// Coming back, a batch adds one record for each of its calls behind those that were there, and
/// leaves what waits, what was counted and what was marked as it was.
pub proof fn law_a_batch_comes_back_whole<R, V>(
    drive: Driving<R>,
    host: HostState<R>,
    joined: Vec<Option<Value>>,
    deadline_passed: bool,
    next: Driving<R>,
    after: HostState<R>,
    task: Task<R, V>,
)
    requires
        drive.expects(Progress::<V>::Called(joined), host@),
        driven(drive, host, Progress::<V>::Called(joined), deadline_passed, next, after, task),
    ensures
        next.phase == Phase::Settling,
        next.rounds == drive.rounds,
        after@.executed.len() == host@.executed.len() + joined@.len(),
        host@.executed.is_prefix_of(after@.executed),
        after@.running + joined@.len() == host@.running,
        after@.calls == host@.calls,
        after@.queued == host@.queued,
        after.waiting() == host.waiting(),
        after@.checkpoint == host@.checkpoint,
        after.saved() == host.saved(),
        after@.max_calls == host@.max_calls,
        after@.max_parallel == host@.max_parallel,
{
    let pairs = task->Settle_0@;
    let results = choose|results: Seq<Value>|
        {
            &&& results.len() == drive.batch.len()
            &&& forall|k: int|
                0 <= k < drive.batch.len() ==> settled(joined@[k], #[trigger] results[k])
            &&& after@ == #[trigger] host@.record_all(
                crate::host::names_of(drive.batch),
                results,
            )
            &&& pairs.len() == drive.batch.len()
            &&& forall|k: int|
                0 <= k < drive.batch.len() ==> (#[trigger] pairs[k]).0 == drive.batch[k].resolvers
                    && pairs[k].1@ == crate::host::result_json(results[k])
        };
    let names = crate::host::names_of(drive.batch);
    crate::host::law_batch_is_recorded_in_order(host@, names, results);
    crate::host::law_recording_a_batch_adds_to_the_ledger_alone(host@, names, results);
}

/// Whether the step hands out the calls that wait in front, in their order, as many as wait or
/// as may be at work, each with its own name and arguments and at the position of its record to
/// come, and leaves the rest waiting.
pub open spec fn hands_out_the_front<R, V>(
    host: HostState<R>,
    next: Driving<R>,
    after: HostState<R>,
    task: Task<R, V>,
) -> bool {
    let count: int = if host.waiting().len() <= host@.max_parallel {
        host.waiting().len() as int
    } else {
        host@.max_parallel as int
    };
    &&& task matches Task::Call(calls)
    &&& next.phase == Phase::Calling
    &&& calls@.len() == count
    &&& next.batch.len() == count
    &&& forall|i: int|
        0 <= i < count ==> {
            let call = #[trigger] host.waiting()[i];
            &&& next.batch[i] == call
            &&& calls@[i].0 == host@.executed.len() + i
            &&& calls@[i].1@ == call.name@
            &&& crate::json::json_view(calls@[i].2) == crate::json::json_view(call.args)
            &&& crate::json::json_text(calls@[i].2) == crate::json::json_text(call.args)
        }
    &&& after.waiting() == host.waiting().skip(count)
    &&& after@.running == host@.running + count
    &&& after@.calls == host@.calls
    &&& after@.executed == host@.executed
    &&& after@.checkpoint == host@.checkpoint
    &&& after.saved() == host.saved()
}

/// Deferred calls come before promise jobs, and both before the script's top level: whatever
/// happened, calls that wait are made next while the clock runs and rounds are left; jobs run
/// only where none waits; and the top level is looked at only after jobs that left none waiting.
/// A step whose time is up, or that would begin a round too many, fails with that and changes
/// nothing.
pub proof fn law_waiting_calls_are_made_first<R, V>(
    drive: Driving<R>,
    host: HostState<R>,
    progress: Progress<V>,
    deadline_passed: bool,
    next: Driving<R>,
    after: HostState<R>,
    task: Task<R, V>,
)
    requires
        host.wf(),
        progress is Begun || progress is Settled || progress is JobsRan,
        driven(drive, host, progress, deadline_passed, next, after, task),
    ensures
        ({
            let waits = host.waiting().len() > 0;
            let begins = progress is Begun || (progress is JobsRan && waits);
            let flushes = begins || (progress is Settled && waits);
            if begins && drive.rounds >= 1_000_000 {
                task == Task::<R, V>::Fail(ScriptError::DriveBudget) && after == host
            } else if flushes && deadline_passed {
                task == Task::<R, V>::Fail(ScriptError::Deadline) && after == host
            } else {
                &&& next.rounds == drive.rounds + (if begins {
                    1int
                } else {
                    0int
                })
                &&& waits ==> hands_out_the_front(host, next, after, task)
                &&& !waits && !(progress is JobsRan) ==> task is RunJobs && next.phase
                    == Phase::Jobs
                &&& !waits && progress is JobsRan ==> task is Look && next.phase == Phase::Looking
                &&& !waits ==> after@ == host@ && after.waiting() == host.waiting()
                    && after.saved() == host.saved()
            }
        }),
{
}

/// The script's outcome is that of its top level: its value where it is none but a value or was
/// fulfilled with one, and else why it failed.
pub proof fn law_outcome_is_that_of_the_top_level<R, V>(
    drive: Driving<R>,
    host: HostState<R>,
    top: Top<V>,
    deadline_passed: bool,
    next: Driving<R>,
    after: HostState<R>,
    task: Task<R, V>,
)
    requires
        driven(drive, host, Progress::Top(top), deadline_passed, next, after, task),
    ensures
        after == host,
        match top {
            Top::Plain(value) => task == Task::<R, V>::Return(value),
            Top::Fulfilled(value) => task == Task::<R, V>::Return(value),
            Top::Pending => task == Task::<R, V>::Fail(ScriptError::Hung),
            Top::Rejected(reason) => task == Task::<R, V>::Fail(ScriptError::Rejected { reason }),
        },
{
}

} // verus!
