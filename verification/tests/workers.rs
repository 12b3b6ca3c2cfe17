use serde_json::Value;
use toolport_codemode::client::{
    call_request, fetch_request, no_answer, not_sent, Delivery, Incoming, Pending,
};
use toolport_codemode::frame::FrameError;
use toolport_codemode::host_calls::HostCalls;
use toolport_codemode::json::error_result;
use toolport_codemode::memory::{
    address_space_limit, allocation_failed, enable, enable_worker_limit, exit_grace_millis,
    exit_reason, is_memory_termination, reserve, resize_growth, settle_alloc, settle_realloc, Fate,
    Settlement, WorkerAllocator, WorkerExit, MEMORY_LIMIT_BYTES,
};
use toolport_codemode::model::{
    terminated_outcome, CallRecord, FetchArgs, FetchFrameArgs, Frame, Limits, ScriptInput, ScriptOutcome,
};
use toolport_codemode::permits::RunPermit;
use toolport_codemode::supervisor::{
    before_message, complete_call, complete_fetch, host_event, pipe_ended, pipe_error, Action,
    Answer, Event, HostRequest, PipeTrouble, Supervisor, Watchfulness,
};
use toolport_codemode::worker::{
    check_start, final_outcome, no_context, start_frame, start_request, undeliverable, StartError,
};

fn limits(max_calls: usize, max_parallel: usize) -> Limits {
    Limits {
        max_calls,
        max_parallel,
        ..Limits::default()
    }
}

fn call(id: u64, index: usize) -> Event {
    Event::Frame {
        frame: Frame::Call {
            id,
            index,
            name: "s__t".to_string(),
            args: Value::Null,
        },
        fits: true,
    }
}

fn fetch(id: u64) -> Event {
    Event::Frame {
        frame: Frame::Fetch {
            id,
            args: FetchFrameArgs {
                cursor: "c".to_string(),
                offset: 1,
                len: 2,
                projection: None,
            },
        },
        fits: true,
    }
}

fn checkpoint(value: Value) -> Event {
    Event::Frame {
        frame: Frame::Checkpoint { value },
        fits: true,
    }
}

fn outcome(calls: usize) -> ScriptOutcome {
    ScriptOutcome {
        value: Value::from(7),
        calls,
        progress: Vec::new(),
        final_result_bytes: 1,
        checkpoint: Some(Value::from("the worker's own")),
        error: None,
    }
}

fn reply(id: u64) -> Event {
    Event::HostReply(Frame::CallResult {
        id,
        result: Value::Null,
    })
}

fn conclude(
    supervisor: Supervisor,
    result: Result<ScriptOutcome, String>,
    records: Vec<CallRecord>,
) -> ScriptOutcome {
    let mut host_calls = HostCalls::default();
    supervisor.end(result, &mut host_calls).conclude(records)
}

fn failure(action: Action) -> String {
    match action {
        Action::Fail(error) => error,
        _ => panic!("expected a failure"),
    }
}

#[test]
fn a_worker_runs_its_calls_and_returns() {
    let mut supervisor = Supervisor::new(&limits(2, 2));
    match supervisor.step(call(0, 0)) {
        Action::Dispatch(HostRequest::Call { id, index, name, .. }) => {
            assert_eq!((id, index, name.as_str()), (0, 0, "s__t"));
        }
        _ => panic!("a call is dispatched"),
    }
    match supervisor.step(fetch(1)) {
        Action::Dispatch(HostRequest::Fetch { id, args }) => {
            assert_eq!((id, args.cursor.as_str(), args.offset, args.len), (1, "c", 1, 2));
        }
        _ => panic!("a fetch is dispatched"),
    }
    assert!(matches!(supervisor.step(Event::Idle), Action::Wait));
    assert!(matches!(
        supervisor.step(reply(0)),
        Action::Send(Frame::CallResult { id: 0, .. })
    ));
    assert!(matches!(supervisor.step(reply(1)), Action::Send(_)));
    assert_eq!((supervisor.calls(), supervisor.inflight()), (2, 0));
    assert!(matches!(
        supervisor.step(checkpoint(Value::from(3))),
        Action::Wait
    ));
    let done = match supervisor.step(Event::Frame {
        frame: Frame::Outcome { outcome: outcome(1) },
        fits: true,
    }) {
        Action::Finish(done) => done,
        _ => panic!("the outcome ends the run"),
    };
    let report = conclude(supervisor, Ok(done), Vec::new());
    assert_eq!(report.calls, 2);
    assert_eq!(report.value, Value::from(7));
    assert_eq!(report.checkpoint, Some(Value::from(3)));
    assert_eq!(report.error, None);
}

#[test]
fn a_cancelled_run_is_noticed_before_its_deadline() {
    assert_eq!(before_message(true, 0), Watchfulness::Cancelled);
    assert_eq!(before_message(false, 0), Watchfulness::Deadline);
    assert_eq!(before_message(false, 7), Watchfulness::Wait(7));
    assert_eq!(before_message(false, u128::MAX), Watchfulness::Wait(25_000_000));
}

#[test]
fn the_ledger_of_a_run_ascends_within_the_budget() {
    let mut supervisor = Supervisor::new(&limits(4, 4));
    let mut records = Vec::new();
    for (id, index) in [(0, 3), (1, 0), (2, 2)] {
        supervisor.step(call(id, index));
        let answer = Answer::Given(Value::Null);
        records.extend(complete_call(id, index, "s__t".to_string(), answer).record);
    }
    let report = conclude(supervisor, Err("late".to_string()), records);
    let places: Vec<usize> = report.progress.iter().map(|r| r.index).collect();
    assert_eq!(places, vec![0, 2, 3]);
    assert_eq!(report.calls, 3);
}

#[test]
fn the_end_of_a_run_stops_its_host_calls() {
    for result in [Ok(outcome(0)), Err("late".to_string())] {
        let mut host_calls = HostCalls::default();
        let early = host_calls.start();
        let supervisor = Supervisor::new(&limits(4, 4));
        assert!(!early.context.is_cancelled(&host_calls));
        let ended = supervisor.end(result, &mut host_calls);
        assert!(early.context.is_cancelled(&host_calls));
        let late = host_calls.start();
        assert!(late.context.is_cancelled(&host_calls));
        assert_eq!(ended.conclude(Vec::new()).calls, 0);
    }
}

#[test]
fn a_report_never_claims_more_calls_than_the_budget() {
    let report = conclude(Supervisor::new(&limits(4, 2)), Ok(outcome(9)), Vec::new());
    assert_eq!(report.calls, 4);
    let report = conclude(Supervisor::new(&limits(4, 2)), Ok(outcome(3)), Vec::new());
    assert_eq!(report.calls, 3);
}

#[test]
fn a_worker_cannot_exceed_its_calls_or_reuse_an_id() {
    let text = "code mode worker exceeded its call budget or reused a request id";
    let mut supervisor = Supervisor::new(&limits(1, 8));
    supervisor.step(call(0, 0));
    assert_eq!(failure(supervisor.step(call(1, 1))), text);
    let mut supervisor = Supervisor::new(&limits(8, 8));
    supervisor.step(call(5, 0));
    assert_eq!(failure(supervisor.step(fetch(5))), text);
    assert_eq!(supervisor.calls(), 1);
}

#[test]
fn a_worker_cannot_exceed_its_parallelism() {
    let mut supervisor = Supervisor::new(&limits(8, 0));
    supervisor.step(call(0, 0));
    assert_eq!(
        failure(supervisor.step(call(1, 1))),
        "code mode worker exceeded its host-call parallelism limit"
    );
    let mut supervisor = Supervisor::new(&limits(8, 1));
    supervisor.step(call(0, 0));
    supervisor.step(reply(0));
    assert!(matches!(supervisor.step(call(1, 1)), Action::Dispatch(_)));
}

#[test]
fn a_call_needs_a_position_of_its_own_within_the_budget() {
    let text = "code mode worker sent an invalid call position";
    let mut supervisor = Supervisor::new(&limits(4, 4));
    supervisor.step(call(0, 2));
    assert_eq!(failure(supervisor.step(call(1, 2))), text);
    assert_eq!((supervisor.calls(), supervisor.inflight()), (2, 2));
    let mut supervisor = Supervisor::new(&limits(4, 4));
    assert_eq!(failure(supervisor.step(call(0, 4))), text);
}

#[test]
fn oversized_arguments_and_checkpoints_end_the_run() {
    let mut supervisor = Supervisor::new(&limits(4, 4));
    let mut event = call(0, 0);
    if let Event::Frame { fits, .. } = &mut event {
        *fits = false;
    }
    assert_eq!(
        failure(supervisor.step(event)),
        "code mode host arguments exceed the value limit"
    );
    assert_eq!(supervisor.calls(), 0);
    supervisor.step(checkpoint(Value::from("x".repeat(4094))));
    assert_eq!(
        failure(supervisor.step(checkpoint(Value::from("x".repeat(4095))))),
        "code mode checkpoint exceeded its byte limit"
    );
    let report = conclude(supervisor, Err("large".to_string()), Vec::new());
    assert_eq!(report.checkpoint, Some(Value::from("x".repeat(4094))));
}

#[test]
fn an_outcome_waits_for_the_host() {
    let mut supervisor = Supervisor::new(&limits(4, 4));
    supervisor.step(call(0, 0));
    assert_eq!(
        failure(supervisor.step(Event::Frame {
            frame: Frame::Outcome { outcome: outcome(1) },
            fits: true,
        })),
        "code mode worker returned with host calls still pending"
    );
}

#[test]
fn events_that_end_a_run_say_why() {
    let mut supervisor = Supervisor::new(&limits(4, 4));
    let events = [
        (Event::Cancelled, "code mode script was cancelled"),
        (
            Event::Deadline,
            "code mode worker exceeded its wall-clock deadline",
        ),
        (Event::Disconnected, "code mode worker IPC disconnected"),
        (
            Event::PipeClosed {
                exit: "gone".to_string(),
                error: "closed".to_string(),
            },
            "gone: closed",
        ),
        (Event::Failure("broken".to_string()), "broken"),
        (
            Event::ReplyRefused,
            "code mode response pipe exceeded its queue limit or disconnected",
        ),
        (
            Event::HostNotStarted("no thread".to_string()),
            "code mode host worker could not start: no thread",
        ),
        (
            Event::Frame {
                frame: Frame::CallResult {
                    id: 0,
                    result: Value::Null,
                },
                fits: true,
            },
            "code mode worker sent an unexpected frame",
        ),
    ];
    for (event, text) in events {
        assert_eq!(failure(supervisor.step(event)), text);
    }
}

#[test]
fn a_failed_run_keeps_what_ran_and_warns_of_calls_in_flight() {
    let mut supervisor = Supervisor::new(&limits(4, 4));
    supervisor.step(checkpoint(Value::from(1)));
    supervisor.step(call(0, 0));
    supervisor.step(call(1, 1));
    supervisor.step(reply(1));
    let records = vec![CallRecord {
        index: 1,
        name: "s__t".to_string(),
        ok: true,
        result_bytes: 4,
    }];
    let report = conclude(supervisor, Err("late".to_string()), records.clone());
    assert_eq!(report.calls, 2);
    assert_eq!(report.progress, records);
    assert_eq!(report.checkpoint, Some(Value::from(1)));
    assert_eq!(
        report.error,
        Some(
            "late; host calls may still be in flight, cancellation requested; \
             do not automatically retry them"
                .to_string()
        )
    );
    let quiet = conclude(Supervisor::new(&limits(4, 4)), Err("late".to_string()), Vec::new());
    assert_eq!(quiet.error, Some("late".to_string()));
    assert_eq!(quiet.value, Value::Null);
}

#[test]
fn a_completed_call_is_recorded_and_answered() {
    let completion = complete_call(3, 1, "s__t".to_string(), Answer::Given(Value::from("ab")));
    assert_eq!(
        completion.record,
        Some(CallRecord {
            index: 1,
            name: "s__t".to_string(),
            ok: true,
            result_bytes: 4,
        })
    );
    assert!(completion.within);
    assert!(matches!(
        host_event(completion.reply, completion.within, true),
        Event::HostReply(Frame::CallResult { id: 3, .. })
    ));
    let completion = complete_call(3, 1, "s__t".to_string(), Answer::Panicked);
    assert!(!completion.record.unwrap().ok);
    match completion.reply {
        Frame::CallResult { result, .. } => {
            assert_eq!(result, error_result("code mode host call panicked"));
        }
        _ => panic!("a call gets a call result"),
    }
}

#[test]
fn a_result_over_the_frame_limit_is_recorded_but_not_sent() {
    let result = Value::String("x".repeat(16 * 1024 * 1024));
    let completion = complete_call(0, 0, "s__t".to_string(), Answer::Given(result));
    assert_eq!(completion.record.unwrap().result_bytes, 16777217);
    assert!(!completion.within);
    match host_event(completion.reply, completion.within, false) {
        Event::Failure(error) => {
            assert_eq!(error, "host result exceeded the code mode IPC frame limit");
        }
        _ => panic!("the reply cannot be sent"),
    }
}

#[test]
fn a_completed_fetch_is_not_recorded() {
    for (answer, text) in [
        (Answer::Panicked, "code mode fetchResult panicked"),
        (
            Answer::Unavailable,
            "toolport.fetchResult is unavailable in this context",
        ),
    ] {
        let completion = complete_fetch(2, answer);
        assert_eq!(completion.record, None);
        match completion.reply {
            Frame::FetchResult { id, result } => {
                assert_eq!((id, result), (2, error_result(text)));
            }
            _ => panic!("a fetch gets a fetch result"),
        }
    }
}

#[test]
fn pipe_errors_are_told_apart() {
    assert!(matches!(
        pipe_error(&FrameError::Io("reset".to_string())),
        PipeTrouble::Closed(text) if text == "worker pipe I/O error: reset"
    ));
    assert!(matches!(
        pipe_error(&FrameError::Oversized { size: 0 }),
        PipeTrouble::Failure(text) if text.starts_with("worker frame is 0 bytes")
    ));
    assert!(matches!(
        pipe_ended(),
        PipeTrouble::Closed(text) if text == "worker pipe closed without an outcome"
    ));
}

#[test]
fn replies_reach_the_requests_that_wait() {
    let mut pending: Pending<char> = Pending::new();
    assert!(pending.register(1, 'a').is_none());
    assert!(pending.register(2, 'b').is_none());
    match pending.receive(Incoming::Frame(Frame::FetchResult {
        id: 2,
        result: Value::from(5),
    })) {
        Delivery::Deliver(sender, value) => assert_eq!((sender, value), ('b', Value::from(5))),
        _ => panic!("the reply is delivered"),
    }
    assert!(matches!(
        pending.receive(Incoming::Frame(Frame::CallResult { id: 2, result: Value::Null })),
        Delivery::Fail(error) if error == "code mode parent returned an unknown request id"
    ));
    assert!(matches!(
        pending.receive(Incoming::Frame(Frame::Checkpoint { value: Value::Null })),
        Delivery::Fail(error) if error == "code mode parent sent an unexpected response"
    ));
    assert!(matches!(
        pending.receive(Incoming::Failed(FrameError::Io("reset".to_string()))),
        Delivery::Fail(error)
            if error == "code mode parent response was invalid: worker pipe I/O error: reset"
    ));
    assert!(matches!(pending.receive(Incoming::Closed), Delivery::Exit));
    assert_eq!(pending.settle(1, Ok(Value::from(6))), Value::from(6));
}

#[test]
fn requests_reach_the_host_as_they_were_made() {
    let mut supervisor = Supervisor::new(&limits(2, 2));
    let frame = call_request(4, 1, "s__t", Value::from(9));
    match supervisor.step(Event::Frame { frame, fits: true }) {
        Action::Dispatch(HostRequest::Call { id, index, name, args }) => {
            assert_eq!((id, index, name.as_str(), args), (4, 1, "s__t", Value::from(9)));
        }
        _ => panic!("a call is dispatched"),
    }
    let asked = FetchArgs {
        cursor: "c".to_string(),
        offset: 3,
        len: 4,
        projection: Some("$.a".to_string()),
    };
    let frame = fetch_request(5, asked.clone());
    match supervisor.step(Event::Frame { frame, fits: true }) {
        Action::Dispatch(HostRequest::Fetch { id, args }) => {
            assert_eq!(id, 5);
            assert_eq!(args.cursor, asked.cursor);
            assert_eq!((args.offset, args.len), (3, 4));
            assert_eq!(args.projection, asked.projection);
        }
        _ => panic!("a fetch is dispatched"),
    }
}

#[test]
fn a_failed_pipe_answers_every_request_with_its_error() {
    let mut pending: Pending<char> = Pending::new();
    pending.register(1, 'a');
    pending.register(2, 'b');
    let mut waiting: Vec<(u64, char)> =
        pending.fail_all("broken".to_string()).into_iter().collect();
    waiting.sort();
    assert_eq!(waiting, vec![(1, 'a'), (2, 'b')]);
    assert_eq!(pending.error(), Some("broken".to_string()));
    assert_eq!(pending.register(3, 'c'), Some(error_result("broken")));
    assert_eq!(
        pending.settle(1, Err("broken".to_string())),
        error_result("broken")
    );
}

#[test]
fn a_request_without_an_answer_fails_the_pipe() {
    let mut pending: Pending<char> = Pending::new();
    pending.register(1, 'a');
    assert_eq!(
        pending.settle(1, Err(no_answer())),
        error_result("code mode parent did not answer before the deadline")
    );
    assert!(pending.register(2, 'b').is_some());
    assert_eq!(
        not_sent(&FrameError::Io("closed".to_string())),
        "code mode host request failed: worker pipe I/O error: closed"
    );
}

#[test]
fn permits_run_out_and_come_back() {
    let mut out = 0;
    for _ in 0..4 {
        out = RunPermit::acquire(out).expect("a permit");
    }
    assert_eq!(out, 4);
    assert_eq!(RunPermit::acquire(out), None);
    out = RunPermit::release(out);
    assert_eq!(RunPermit::acquire(out), Some(4));
}

#[test]
fn a_run_starts_when_its_input_fits_and_a_permit_is_left() {
    let input = ScriptInput::Data(Value::Null);
    assert!(matches!(check_start("return 1;", &input, 3), Ok(4)));
    assert!(matches!(
        check_start("return 1;", &input, 4),
        Err(StartError::NoPermit)
    ));
    let refused = check_start(&"x".repeat(262145), &input, 4).unwrap_err();
    let report = refused.outcome();
    assert_eq!(report.calls, 0);
    assert_eq!(
        report.error,
        Some("code mode script exceeds the 262144-byte source limit".to_string())
    );
}

#[test]
fn start_errors_say_what_happened() {
    let why = || "why".to_string();
    let texts = [
        (
            StartError::NoPermit,
            "code mode concurrent worker limit reached (4); retry after a running script finishes",
        ),
        (
            StartError::StartTooLarge,
            "code mode start payload exceeds the IPC frame limit",
        ),
        (
            StartError::NoExecutable(why()),
            "code mode worker executable unavailable: why",
        ),
        (
            StartError::LimitSetup(why()),
            "code mode memory limit setup failed: why",
        ),
        (
            StartError::NotSpawned(why()),
            "code mode worker could not start with its memory budget: why",
        ),
        (
            StartError::LimitNotAttached(why()),
            "code mode worker memory limit setup failed: why",
        ),
        (
            StartError::NoReader(why()),
            "code mode reader could not start: why",
        ),
        (
            StartError::NoWriter(why()),
            "code mode writer could not start: why",
        ),
    ];
    for (error, text) in texts {
        assert_eq!(error.message(), text);
    }
}

#[test]
fn a_start_crosses_the_pipe() {
    let frame = start_frame(
        "return input;",
        ScriptInput::ImmutableInput(Value::from(1)),
        limits(3, 2),
        vec!["s__t".to_string()],
    );
    let request = start_request(Some(frame)).expect("a start");
    assert_eq!(request.script, "return input;");
    assert!(matches!(request.input, ScriptInput::ImmutableInput(value) if value == Value::from(1)));
    assert_eq!(request.limits.max_calls, 3);
    assert_eq!(request.catalog, vec!["s__t".to_string()]);
    assert!(start_request(None).is_none());
    assert!(start_request(Some(Frame::Checkpoint { value: Value::Null })).is_none());
}

#[test]
fn an_input_is_bound_to_the_global_of_its_kind() {
    let data = ScriptInput::Data(Value::Null).global();
    assert_eq!((data.name, data.writable, data.frozen), ("data", true, false));
    let input = ScriptInput::ImmutableInput(Value::Null).global();
    assert_eq!((input.name, input.writable, input.frozen), ("input", false, true));
}

#[test]
fn a_pipe_error_stands_in_place_of_the_scripts_own() {
    let sent = final_outcome(outcome(2), Some("broken".to_string()));
    assert_eq!(sent.error, Some("broken".to_string()));
    assert_eq!((sent.calls, sent.value), (2, Value::from(7)));
    assert_eq!(final_outcome(outcome(2), None).error, None);
    let report = undeliverable(&FrameError::Oversized { size: 16777217 });
    assert_eq!(
        report.error,
        Some(
            "code mode final result exceeded the IPC limit or could not be sent: \
             worker frame is 16777217 bytes, over the 16777216-byte limit"
                .to_string()
        )
    );
    assert_eq!(
        no_context("why").error,
        Some("toolport code mode: failed to create JS context: why".to_string())
    );
    let report = terminated_outcome(2, Vec::new(), "gone".to_string());
    assert_eq!((report.calls, report.error), (2, Some("gone".to_string())));
}

#[test]
fn only_the_exit_status_attributes_a_memory_failure() {
    assert!(is_memory_termination(Some(86), false));
    assert!(is_memory_termination(Some(0xC0000017u32 as i32), true));
    assert!(is_memory_termination(Some(0xC000012Du32 as i32), true));
    assert!(!is_memory_termination(Some(0xC0000017u32 as i32), false));
    assert!(!is_memory_termination(Some(0xC0000409u32 as i32), true));
    assert!(!is_memory_termination(None, true));
    assert!(!is_memory_termination(Some(1), true));
    let ended = |code, status: &str| WorkerExit::Ended {
        code,
        status: status.to_string(),
    };
    assert_eq!(
        exit_reason(&ended(Some(86), "exit status: 86"), false, false),
        Some("code mode script exceeded its memory budget (512 MiB)".to_string())
    );
    assert_eq!(
        exit_reason(&ended(Some(1), "out of memory"), false, false),
        Some("code mode worker terminated before returning a result (out of memory)".to_string())
    );
    assert_eq!(exit_reason(&WorkerExit::Unknown, false, false), None);
    assert_eq!(
        exit_reason(&WorkerExit::Unknown, true, false),
        Some("code mode worker pipe closed before returning a result".to_string())
    );
    assert_eq!((exit_grace_millis(true), exit_grace_millis(false)), (1000, 25));
}

#[test]
fn the_address_space_limit_is_the_least_of_three() {
    let budget = MEMORY_LIMIT_BYTES as u64;
    assert_eq!(address_space_limit(u64::MAX, u64::MAX), budget);
    assert_eq!(address_space_limit(1000, u64::MAX), 1000);
    assert_eq!(address_space_limit(u64::MAX, 999), 999);
}

#[test]
fn the_account_counts_from_the_start_and_exits_over_the_limit() {
    let mut account = WorkerAllocator::new();
    assert_eq!(reserve(&mut account, MEMORY_LIMIT_BYTES + 1), Fate::Continue);
    account.give_back(1);
    assert_eq!(enable(&mut account), Fate::Continue);
    assert_eq!(reserve(&mut account, 1), Fate::Exit);
    account.give_back(2);
    assert_eq!(reserve(&mut account, 1), Fate::Continue);
    assert_eq!(account.used, MEMORY_LIMIT_BYTES);
    let mut early = WorkerAllocator {
        used: MEMORY_LIMIT_BYTES + 1,
        limited: false,
    };
    assert_eq!(allocation_failed(&early), Fate::Continue);
    assert_eq!(enable_worker_limit(&mut early), Fate::Exit);
    assert_eq!(allocation_failed(&early), Fate::Exit);
    assert_eq!(reserve(&mut early, usize::MAX), Fate::Exit);
}

#[test]
fn refused_allocations_are_taken_back() {
    let free = WorkerAllocator::new();
    let limited = WorkerAllocator {
        used: 0,
        limited: true,
    };
    assert_eq!(settle_alloc(&free, 10, true), Settlement::GiveBack(0));
    assert_eq!(settle_alloc(&free, 10, false), Settlement::GiveBack(10));
    assert_eq!(settle_alloc(&limited, 10, false), Settlement::Exit);
    assert_eq!(resize_growth(10, 25), 15);
    assert_eq!(resize_growth(25, 10), 0);
    assert_eq!(settle_realloc(&free, 10, 25, true), Settlement::GiveBack(0));
    assert_eq!(settle_realloc(&free, 25, 10, true), Settlement::GiveBack(15));
    assert_eq!(settle_realloc(&free, 10, 25, false), Settlement::GiveBack(15));
    assert_eq!(settle_realloc(&free, 25, 10, false), Settlement::GiveBack(0));
    assert_eq!(settle_realloc(&limited, 25, 10, false), Settlement::Exit);
}
