use std::time::Duration;

use serde_json::Value;
use toolport_codemode::drive::{
    batch_calls, collect_results, parsed_return, returned_value, Drive, Progress, Task, Top,
};
use toolport_codemode::errors::ScriptError;
use toolport_codemode::host::{
    checkpoint_limit_for_result_budget, encoding_or_null, fetch_args, parse_call_args,
    parse_fetch_args, parsed_or_null, reserve_budget, result_text, take_checkpoint, HostState,
    MAX_DRIVE_ITERS,
};
use toolport_codemode::host_calls::HostCalls;
use toolport_codemode::jobs::{BoundedJobExecutor, Job, Ready};
use toolport_codemode::frame::{judge_attempt, Attempt};
use toolport_codemode::json::{encoding_len, error_result, result_ok, serialized_len};
use toolport_codemode::ledger::sort_by_index;
use toolport_codemode::model::{CallRecord, Limits, ScriptInput};
use toolport_codemode::script::{evaluation_sources, wrap_script, DEEP_FREEZE_INPUT, PRELUDE};
use toolport_codemode::servers::build_servers_prelude;
use toolport_codemode::text::push_decimal;

fn json(text: &str) -> Value {
    serde_json::from_str(text).expect("a JSON document")
}

fn limits(max_calls: usize, max_parallel: usize) -> Limits {
    Limits {
        max_calls,
        max_parallel,
        ..Limits::default()
    }
}

fn record(index: usize, name: &str) -> CallRecord {
    CallRecord {
        index,
        name: name.to_string(),
        ok: true,
        result_bytes: 2,
    }
}

#[test]
fn stopping_a_run_cancels_every_host_and_prevents_late_dispatch() {
    let mut calls = HostCalls::default();
    let first = calls.start();
    let second = calls.start();
    assert!(!first.context.is_cancelled(&calls));
    calls.stop();
    assert!(first.context.is_cancelled(&calls));
    assert!(second.context.is_cancelled(&calls));
    assert!(calls.start().context.is_cancelled(&calls));
}

#[test]
fn a_finished_host_call_is_no_longer_at_work() {
    let mut calls = HostCalls::default();
    let first = calls.start();
    let second = calls.start();
    assert_eq!((first.id, second.id), (0, 1));
    let context = first.context;
    calls.finish(first);
    calls.stop();
    assert!(!context.is_cancelled(&calls));
    assert!(second.context.is_cancelled(&calls));
    assert_eq!(context.cancel_reason(&calls), None);
    assert_eq!(
        second.context.cancel_reason(&calls),
        Some("code mode worker stopped")
    );
}

#[test]
fn default_limits() {
    let limits = Limits::default();
    assert_eq!(limits.max_calls, 64);
    assert_eq!(limits.wall_clock, Duration::from_millis(60_000));
    assert_eq!(limits.max_parallel, 8);
    assert_eq!(limits.max_promise_jobs, 100_000);
    assert_eq!(limits.loop_iteration_limit, 10_000_000);
    assert_eq!(limits.recursion_limit, 400);
}

#[test]
fn the_budget_is_looked_at_before_the_clock() {
    assert!(reserve_budget(1, 2, false).is_ok());
    assert!(matches!(
        reserve_budget(2, 2, true),
        Err(ScriptError::CallBudget { max_calls: 2 })
    ));
    assert!(matches!(
        reserve_budget(1, 2, true),
        Err(ScriptError::Deadline)
    ));
}

#[test]
fn calls_are_recorded_when_they_come_back() {
    let mut state: HostState<()> = HostState::new(&limits(3, 2), 0);
    let (name, args) = state
        .issue_call(Some("s__a"), Some("{\"n\":1}"), false)
        .unwrap();
    assert_eq!((name.as_str(), &args["n"]), ("s__a", &json("1")));
    assert!(state.executed().is_empty());
    let text = state.finish_call(name, &json("{\"isError\": true}"));
    assert_eq!(text, "{\"isError\":true}");
    assert_eq!(
        *state.executed(),
        vec![CallRecord {
            index: 0,
            name: "s__a".to_string(),
            ok: false,
            result_bytes: 16,
        }]
    );
    assert!(state.issue_call(None, None, true).is_err());
    assert_eq!(state.calls_made(), 1);
    let outcome = state.fail("Error: boom".to_string());
    assert_eq!(outcome.calls, 1);
    assert_eq!(outcome.progress.len(), 1);
    assert_eq!(outcome.value, Value::Null);
    assert_eq!(outcome.final_result_bytes, 0);
    assert_eq!(outcome.error, Some("Error: boom".to_string()));
}

#[test]
fn a_finished_run_reports_its_value_and_its_size() {
    let state: HostState<()> = HostState::new(&limits(3, 2), 0);
    let outcome = state.finish(json("[1, 2]"));
    assert_eq!(outcome.value, json("[1,2]"));
    assert_eq!(outcome.final_result_bytes, 5);
    assert_eq!(outcome.error, None);
    assert_eq!(outcome.checkpoint, None);
}

#[test]
fn deferred_calls_are_taken_up_in_order_and_recorded_in_batch_order() {
    let mut state: HostState<u8> = HostState::new(&limits(8, 2), 0);
    let (first, _) = state.issue_call(Some("first"), None, false).unwrap();
    state.finish_call(first, &Value::Null);
    for (at, name) in ["a", "b", "c"].into_iter().enumerate() {
        let (tool, args) = state
            .issue_call(Some(name), Some(&at.to_string()), false)
            .unwrap();
        state.queue_call(tool, args, at as u8);
    }
    assert!(matches!(
        state.take_batch(true),
        Err(ScriptError::Deadline)
    ));
    let batch = state.take_batch(false).unwrap();
    assert_eq!(
        batch.iter().map(|call| call.resolvers).collect::<Vec<_>>(),
        vec![0, 1]
    );
    let calls = batch_calls(&batch, state.next_index());
    assert_eq!(
        calls,
        vec![
            (1, "a".to_string(), json("0")),
            (2, "b".to_string(), json("1")),
        ]
    );
    let texts = state.record_batch(&batch, &vec![json("\"x\""), json("{}")]);
    assert_eq!(texts, vec!["\"x\"".to_string(), "{}".to_string()]);
    assert!(state.has_pending());
    let rest = state.take_batch(false).unwrap();
    assert_eq!(rest.len(), 1);
    state.record_batch(&rest, &vec![Value::Null]);
    assert!(!state.has_pending());
    assert!(state.take_batch(false).unwrap().is_empty());
    let names: Vec<&str> = state.executed().iter().map(|r| r.name.as_str()).collect();
    assert_eq!(names, vec!["first", "a", "b", "c"]);
    let indexes: Vec<usize> = state.executed().iter().map(|r| r.index).collect();
    assert_eq!(indexes, vec![0, 1, 2, 3]);
}

#[test]
fn a_run_without_parallelism_still_takes_one_call_up() {
    let mut state: HostState<()> = HostState::new(&limits(8, 0), 0);
    for _ in 0..2 {
        let (tool, args) = state.issue_call(Some("t"), None, false).unwrap();
        state.queue_call(tool, args, ());
    }
    assert_eq!(state.take_batch(false).unwrap().len(), 1);
}

#[test]
fn queued_calls_that_never_ran_are_counted_but_not_recorded() {
    let mut state: HostState<()> = HostState::new(&limits(8, 2), 0);
    let (tool, args) = state.issue_call(Some("t"), None, false).unwrap();
    state.queue_call(tool, args, ());
    let outcome = state.fail("late".to_string());
    assert_eq!(outcome.calls, 1);
    assert!(outcome.progress.is_empty());
}

#[test]
fn arguments_that_are_missing_or_no_json_take_their_defaults() {
    assert_eq!(parse_call_args(None, None), (String::new(), json("{}")));
    assert_eq!(
        parse_call_args(Some("t"), Some("{nope")),
        ("t".to_string(), Value::Null)
    );
}

#[test]
fn a_fetch_needs_a_binding_then_a_budget_then_a_cursor() {
    let mut state: HostState<()> = HostState::new(&limits(1, 2), 0);
    assert!(matches!(
        state.issue_fetch(false, None, true),
        Err(ScriptError::FetchUnavailable)
    ));
    assert!(matches!(
        state.issue_fetch(true, None, true),
        Err(ScriptError::Deadline)
    ));
    assert!(matches!(
        state.issue_fetch(true, Some("{\"cursor\": 7}"), false),
        Err(ScriptError::FetchWithoutCursor)
    ));
    assert_eq!(state.calls_made(), 0);
    let args = state
        .issue_fetch(
            true,
            Some("{\"cursor\":\"c\",\"offset\":5,\"len\":-1,\"projection\":\"$.a\"}"),
            false,
        )
        .unwrap();
    assert_eq!(args.cursor, "c");
    assert_eq!((args.offset, args.len), (5, 0));
    assert_eq!(args.projection, Some("$.a".to_string()));
    assert_eq!(state.calls_made(), 1);
    assert!(state.executed().is_empty());
    assert!(matches!(
        state.issue_fetch(true, Some("{\"cursor\":\"\"}"), false),
        Err(ScriptError::CallBudget { max_calls: 1 })
    ));
}

#[test]
fn what_could_not_be_parsed_or_encoded_takes_its_default() {
    assert_eq!(parsed_or_null(Ok(json("1"))), json("1"));
    assert_eq!(parsed_or_null(Err("bad".to_string())), Value::Null);
    assert_eq!(encoding_or_null(Some("1".to_string())), "1");
    assert_eq!(encoding_or_null(None), "null");
    assert_eq!(encoding_len(&None), 0);
    assert_eq!(encoding_len(&Some("é".to_string())), 2);
    assert_eq!(judge_attempt(8, 20, Ok(3)), Attempt::Size(5));
    assert_eq!(judge_attempt(8, 20, Err(true)), Attempt::Wider(16));
    assert_eq!(judge_attempt(16, 20, Err(true)), Attempt::Wider(20));
    assert_eq!(judge_attempt(20, 20, Err(true)), Attempt::NoSize);
    assert_eq!(judge_attempt(8, 20, Err(false)), Attempt::NoSize);
    let mut checkpoint = None;
    assert!(take_checkpoint(&mut checkpoint, Ok(json("1"))).is_ok());
    let error = take_checkpoint(&mut checkpoint, Err("bad".to_string())).unwrap_err();
    assert_eq!(
        error.message(),
        "toolport.checkpoint received invalid JSON: bad"
    );
    assert_eq!(checkpoint, Some(json("1")));
    assert!(parsed_return(Ok(json("1"))).is_ok());
    assert!(parsed_return(Err("bad".to_string())).is_err());
}

#[test]
fn a_fetch_request_reads_its_members_leniently() {
    assert!(parse_fetch_args(None).is_none());
    assert!(parse_fetch_args(Some("[]")).is_none());
    assert!(fetch_args(&json("{\"cursor\":null}")).is_none());
    let args = parse_fetch_args(Some("{\"cursor\":\"c\",\"len\":3}")).unwrap();
    assert_eq!((args.offset, args.len), (0, 3));
    assert_eq!(args.projection, None);
}

#[test]
fn the_checkpoint_limit_leaves_room_in_the_result_budget() {
    assert_eq!(checkpoint_limit_for_result_budget(0), 4096);
    assert_eq!(checkpoint_limit_for_result_budget(1), 0);
    assert_eq!(checkpoint_limit_for_result_budget(1024), 0);
    assert_eq!(checkpoint_limit_for_result_budget(1500), 476);
    assert_eq!(checkpoint_limit_for_result_budget(5119), 4095);
    assert_eq!(checkpoint_limit_for_result_budget(5120), 4096);
    assert_eq!(checkpoint_limit_for_result_budget(usize::MAX), 4096);
}

#[test]
fn a_refused_checkpoint_keeps_the_last_one() {
    let mut state: HostState<()> = HostState::new(&limits(0, 1), 1034);
    assert!(state.record_checkpoint(Some("{\"a\": 1}")).is_ok());
    let error = state.record_checkpoint(Some("{\"a\": 1234}")).unwrap_err();
    assert_eq!(
        error.message(),
        "toolport.checkpoint value exceeds 10 bytes for the active result budget"
    );
    let error = state.record_checkpoint(Some("{nope")).unwrap_err();
    assert!(error
        .message()
        .starts_with("toolport.checkpoint received invalid JSON: key must be a string"));
    assert_eq!(*state.checkpoint(), Some(json("{\"a\":1}")));
    assert!(state.record_checkpoint(None).is_ok());
    assert_eq!(*state.checkpoint(), Some(Value::Null));
    assert_eq!(state.calls_made(), 0);
}

#[test]
fn a_panicked_call_keeps_the_order_of_its_batch() {
    let results = collect_results(vec![Some(json("1")), None, Some(json("3"))]);
    assert_eq!(results[0], json("1"));
    assert_eq!(
        results[1],
        error_result("Toolport: callAsync worker panicked")
    );
    assert_eq!(results[2], json("3"));
}

#[test]
fn an_error_result_is_not_ok() {
    let result = error_result("went wrong");
    assert_eq!(
        result,
        json("{\"content\":[{\"type\":\"text\",\"text\":\"went wrong\"}],\"isError\":true}")
    );
    assert!(!result_ok(&result));
    assert!(result_ok(&json("{\"isError\":false}")));
    assert!(result_ok(&json("{\"isError\":\"true\"}")));
    assert!(result_ok(&json("[true]")));
    assert_eq!(serialized_len(&json("\"é\"")), 4);
    assert_eq!(result_text(&json("[1, 2]")), "[1,2]");
}

#[test]
fn a_script_is_driven_batch_by_batch_to_its_end() {
    let mut host: HostState<u8> = HostState::new(&limits(8, 2), 0);
    let mut drive: Drive<u8> = Drive::new();
    for (at, name) in ["a", "b", "c"].into_iter().enumerate() {
        let (tool, args) = host.issue_call(Some(name), None, false).unwrap();
        host.queue_call(tool, args, at as u8);
    }
    let calls = match drive.step::<u8>(&mut host, Progress::Begun, false) {
        Task::Call(calls) => calls,
        _ => panic!("the first batch is made"),
    };
    let made: Vec<(usize, &str)> = calls.iter().map(|c| (c.0, c.1.as_str())).collect();
    assert_eq!(made, vec![(0, "a"), (1, "b")]);
    let joined = vec![Some(json("1")), None];
    let pairs = match drive.step::<u8>(&mut host, Progress::Called(joined), false) {
        Task::Settle(pairs) => pairs,
        _ => panic!("its promises settle"),
    };
    assert_eq!(pairs[0], (0, "1".to_string()));
    assert_eq!(pairs[1].0, 1);
    assert!(pairs[1].1.contains("callAsync worker panicked"));
    assert_eq!(host.executed().len(), 2);
    assert!(!host.executed()[1].ok);
    assert!(matches!(
        drive.step::<u8>(&mut host, Progress::Settled, false),
        Task::Call(calls) if calls[0].0 == 2 && calls[0].1 == "c"
    ));
    let joined = vec![Some(json("2"))];
    assert!(matches!(
        drive.step::<u8>(&mut host, Progress::Called(joined), false),
        Task::Settle(_)
    ));
    assert!(matches!(
        drive.step::<u8>(&mut host, Progress::Settled, false),
        Task::RunJobs
    ));
    let (tool, args) = host.issue_call(Some("d"), None, false).unwrap();
    host.queue_call(tool, args, 3);
    assert!(matches!(
        drive.step::<u8>(&mut host, Progress::JobsRan, false),
        Task::Call(calls) if calls[0].1 == "d"
    ));
    let joined = vec![Some(json("3"))];
    drive.step::<u8>(&mut host, Progress::Called(joined), false);
    drive.step::<u8>(&mut host, Progress::Settled, false);
    assert!(matches!(
        drive.step::<u8>(&mut host, Progress::JobsRan, false),
        Task::Look
    ));
    assert!(matches!(
        drive.step(&mut host, Progress::Top(Top::Fulfilled(9)), false),
        Task::Return(9)
    ));
}

fn looking() -> (HostState<()>, Drive<()>) {
    let mut host: HostState<()> = HostState::new(&limits(8, 2), 0);
    let mut drive: Drive<()> = Drive::new();
    drive.step::<u8>(&mut host, Progress::Begun, false);
    drive.step::<u8>(&mut host, Progress::JobsRan, false);
    (host, drive)
}

#[test]
fn a_script_ends_as_its_top_level_does() {
    let (mut host, mut drive) = looking();
    assert!(matches!(
        drive.step(&mut host, Progress::Top(Top::Plain(4)), false),
        Task::Return(4)
    ));
    let (mut host, mut drive) = looking();
    assert!(matches!(
        drive.step::<u8>(&mut host, Progress::Top(Top::Pending), false),
        Task::Fail(ScriptError::Hung)
    ));
    let (mut host, mut drive) = looking();
    let rejected = Top::Rejected("Error: boom".to_string());
    match drive.step::<u8>(&mut host, Progress::Top(rejected), false) {
        Task::Fail(error) => assert_eq!(error.message(), "Uncaught Error: boom"),
        _ => panic!("a rejected promise fails the script"),
    }
}

#[test]
fn the_clock_of_a_script_is_looked_at_before_its_calls() {
    let mut host: HostState<()> = HostState::new(&limits(8, 2), 0);
    let mut drive: Drive<()> = Drive::new();
    assert!(matches!(
        drive.step::<u8>(&mut host, Progress::Begun, true),
        Task::Fail(ScriptError::Deadline)
    ));
}

#[test]
fn the_rounds_of_a_script_are_bounded() {
    let mut host: HostState<()> = HostState::new(&limits(MAX_DRIVE_ITERS + 1, 1), 0);
    let mut drive: Drive<()> = Drive::new();
    drive.step::<u8>(&mut host, Progress::Begun, false);
    for _ in 1..MAX_DRIVE_ITERS {
        let (tool, args) = host.issue_call(None, None, false).unwrap();
        host.queue_call(tool, args, ());
        drive.step::<u8>(&mut host, Progress::JobsRan, false);
        drive.step::<u8>(&mut host, Progress::Called(vec![Some(Value::Null)]), false);
        drive.step::<u8>(&mut host, Progress::Settled, false);
    }
    let (tool, args) = host.issue_call(None, None, false).unwrap();
    host.queue_call(tool, args, ());
    match drive.step::<u8>(&mut host, Progress::JobsRan, false) {
        Task::Fail(error) => assert_eq!(
            error.message(),
            "toolport script exceeded internal async drive budget"
        ),
        _ => panic!("the rounds are used up"),
    }
}

#[test]
fn an_immutable_input_is_frozen_before_the_script_is_evaluated() {
    let catalog = vec!["s__t".to_string()];
    let data = ScriptInput::Data(Value::Null);
    let plain = evaluation_sources("return 1;", &data, &catalog);
    assert_eq!(
        plain,
        vec![
            PRELUDE.to_string(),
            build_servers_prelude(&catalog),
            wrap_script("return 1;"),
        ]
    );
    let input = ScriptInput::ImmutableInput(Value::Null);
    let frozen = evaluation_sources("return 1;", &input, &catalog);
    assert_eq!(frozen[0], DEEP_FREEZE_INPUT);
    assert_eq!(frozen[1..], plain[..]);
}

#[test]
fn a_return_value_is_what_its_encoding_says() {
    assert_eq!(returned_value(None).unwrap(), Value::Null);
    assert_eq!(returned_value(Some("[1]")).unwrap(), json("[1]"));
    let error = returned_value(Some("[1")).unwrap_err();
    assert!(error.is_type_error());
    assert_eq!(
        error.message(),
        "script return value could not be encoded as JSON: EOF while parsing a list at line 1 column 2"
    );
}

#[test]
fn script_errors_say_what_happened() {
    let texts = [
        (
            ScriptError::CallBudget { max_calls: 64 },
            "toolport.call budget exceeded (64 calls)",
        ),
        (
            ScriptError::Deadline,
            "toolport script wall-clock deadline exceeded",
        ),
        (
            ScriptError::JobDeadline,
            "toolport script wall-clock deadline exceeded during promise jobs",
        ),
        (
            ScriptError::JobBudget { max_jobs: 100000 },
            "toolport script promise-job budget exceeded (100000 jobs)",
        ),
        (
            ScriptError::UnsupportedJob,
            "toolport script used unsupported async/timer jobs inside code mode",
        ),
        (
            ScriptError::CheckpointRefused {
                reason: "pipe".to_string(),
            },
            "pipe",
        ),
        (
            ScriptError::FetchUnavailable,
            "toolport.fetchResult is unavailable in this context",
        ),
        (
            ScriptError::FetchWithoutCursor,
            "toolport.fetchResult requires a non-empty cursor",
        ),
        (
            ScriptError::Hung,
            "toolport script hung on an unresolved Promise (no pending tool calls)",
        ),
        (ScriptError::NoJsonObject, "JSON is not an object"),
        (ScriptError::NoStringify, "JSON.stringify is not callable"),
    ];
    for (error, text) in texts {
        assert_eq!(error.message(), text);
    }
    assert!(ScriptError::NoStringify.is_type_error());
    assert!(!ScriptError::Hung.is_type_error());
}

#[test]
fn promise_jobs_run_before_other_jobs_each_in_order() {
    let mut executor: BoundedJobExecutor<u8, char> = BoundedJobExecutor::new(10);
    executor.enqueue_job(Job::Generic('x'));
    executor.enqueue_job(Job::Promise(1));
    executor.enqueue_job(Job::Promise(2));
    assert!(matches!(executor.next_job(false), Ok(Some(Ready::Promise(1)))));
    assert!(matches!(executor.next_job(false), Ok(Some(Ready::Promise(2)))));
    assert!(matches!(executor.next_job(false), Ok(Some(Ready::Generic('x')))));
    assert!(matches!(executor.next_job(false), Ok(None)));
    assert_eq!(executor.jobs_run(), 3);
}

#[test]
fn jobs_stop_at_the_clock_and_at_their_number() {
    let mut executor: BoundedJobExecutor<u8, ()> = BoundedJobExecutor::new(0);
    executor.enqueue_job(Job::Promise(1));
    executor.enqueue_job(Job::Promise(2));
    assert!(matches!(executor.next_job(true), Err(ScriptError::JobDeadline)));
    assert!(executor.is_empty());
    executor.enqueue_job(Job::Promise(3));
    executor.enqueue_job(Job::Promise(4));
    assert!(matches!(executor.next_job(false), Ok(Some(Ready::Promise(3)))));
    assert!(matches!(
        executor.next_job(false),
        Err(ScriptError::JobBudget { max_jobs: 1 })
    ));
    assert!(executor.is_empty());
}

#[test]
fn a_failed_job_drops_those_that_wait_and_still_counts() {
    let mut executor: BoundedJobExecutor<u8, ()> = BoundedJobExecutor::new(2);
    executor.enqueue_job(Job::Promise(1));
    executor.enqueue_job(Job::Promise(2));
    assert!(matches!(executor.next_job(false), Ok(Some(Ready::Promise(1)))));
    executor.clear();
    assert!(executor.is_empty());
    assert_eq!(executor.jobs_run(), 1);
    assert!(matches!(executor.next_job(false), Ok(None)));
}

#[test]
fn unsupported_jobs_fail_the_drain() {
    let mut executor: BoundedJobExecutor<u8, ()> = BoundedJobExecutor::new(10);
    assert!(executor.check_supported().is_ok());
    executor.enqueue_job(Job::Promise(1));
    executor.enqueue_job(Job::Unsupported);
    assert!(matches!(executor.next_job(false), Ok(Some(Ready::Promise(1)))));
    assert!(matches!(
        executor.next_job(false),
        Err(ScriptError::UnsupportedJob)
    ));
    executor.enqueue_job(Job::Promise(2));
    assert!(matches!(
        executor.check_supported(),
        Err(ScriptError::UnsupportedJob)
    ));
    assert!(executor.is_empty());
}

#[test]
fn records_are_put_in_call_order() {
    let sorted = sort_by_index(vec![
        record(2, "c"),
        record(0, "a"),
        record(2, "d"),
        record(1, "b"),
    ]);
    let names: Vec<&str> = sorted.iter().map(|r| r.name.as_str()).collect();
    assert_eq!(names, vec!["a", "b", "c", "d"]);
    assert!(sort_by_index(Vec::new()).is_empty());
}

#[test]
fn the_call_order_does_not_depend_on_the_order_of_completion() {
    let one = sort_by_index(vec![record(1, "b"), record(2, "c"), record(0, "a")]);
    let other = sort_by_index(vec![record(2, "c"), record(0, "a"), record(1, "b")]);
    assert_eq!(one, other);
    assert_eq!(one.iter().map(|r| r.index).collect::<Vec<_>>(), vec![0, 1, 2]);
}

#[test]
fn decimals_have_no_leading_zeros() {
    let mut text = "n=".to_string();
    push_decimal(&mut text, 0);
    push_decimal(&mut text, 10203);
    assert_eq!(text, "n=010203");
}
