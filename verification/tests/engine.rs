//! Whole scripts, run by the engine over the library's host state, job executor and driver.

use std::cell::RefCell;
use std::rc::Rc;
use std::sync::{Arc, Mutex};
use std::time::{Duration, Instant};

use boa_engine::builtins::promise::{PromiseState, ResolvingFunctions};
use boa_engine::job::{GenericJob, Job as EngineJob, JobExecutor, PromiseJob};
use boa_engine::object::builtins::JsPromise;
use boa_engine::property::Attribute;
use boa_engine::{
    Context, JsError, JsNativeError, JsString, JsValue, NativeFunction, Source,
};
use serde_json::Value;
use toolport_codemode::drive::{returned_value, Drive, Progress, Task, Top};
use toolport_codemode::errors::ScriptError;
use toolport_codemode::host::{result_text, HostState};
use toolport_codemode::jobs::{BoundedJobExecutor, Job, Ready};
use toolport_codemode::model::{FetchArgs, Limits, ScriptInput, ScriptOutcome};
use toolport_codemode::names::js_string_literal;
use toolport_codemode::script::evaluation_sources;

type CallBinding = Arc<dyn Fn(&str, Value) -> Value>;
type FetchBinding = Arc<dyn Fn(FetchArgs) -> Value>;

fn json(text: &str) -> Value {
    serde_json::from_str(text).expect("a JSON document")
}

fn thrown(error: ScriptError) -> JsError {
    let native = if error.is_type_error() {
        JsNativeError::typ()
    } else {
        JsNativeError::error()
    };
    JsError::from_native(native.with_message(error.message()))
}

struct Executor {
    jobs: RefCell<BoundedJobExecutor<PromiseJob, GenericJob>>,
    deadline: Instant,
}

impl JobExecutor for Executor {
    fn enqueue_job(self: Rc<Self>, job: EngineJob, _context: &mut Context) {
        self.jobs.borrow_mut().enqueue_job(match job {
            EngineJob::PromiseJob(promise) => Job::Promise(promise),
            EngineJob::GenericJob(generic) => Job::Generic(generic),
            _ => Job::Unsupported,
        });
    }

    fn run_jobs(self: Rc<Self>, context: &mut Context) -> Result<(), JsError> {
        self.jobs.borrow_mut().check_supported().map_err(thrown)?;
        loop {
            let late = Instant::now() >= self.deadline;
            let next = self.jobs.borrow_mut().next_job(late).map_err(thrown)?;
            let ran = match next {
                None => return Ok(()),
                Some(Ready::Promise(promise)) => promise.call(context),
                Some(Ready::Generic(generic)) => generic.call(context),
            };
            if let Err(error) = ran {
                self.jobs.borrow_mut().clear();
                return Err(error);
            }
            context.clear_kept_objects();
        }
    }
}

struct Run {
    state: RefCell<HostState<ResolvingFunctions>>,
    call: CallBinding,
    fetch: Option<FetchBinding>,
    deadline: Instant,
}

impl Run {
    fn late(&self) -> bool {
        Instant::now() >= self.deadline
    }
}

fn text_arg(args: &[JsValue], at: usize) -> Option<String> {
    args.get(at)
        .and_then(JsValue::as_string)
        .map(|text| text.to_std_string_escaped())
}

fn install(context: &mut Context, run: &'static Run) -> Result<(), JsError> {
    context.register_global_callable(
        JsString::from("__toolport_call"),
        2,
        NativeFunction::from_copy_closure(move |_, args, _| {
            let (name, json) = (text_arg(args, 0), text_arg(args, 1));
            let (tool, parsed) = run
                .state
                .borrow_mut()
                .issue_call(name.as_deref(), json.as_deref(), run.late())
                .map_err(thrown)?;
            let result = (run.call)(&tool, parsed);
            let text = run.state.borrow_mut().finish_call(tool, &result);
            Ok(JsValue::from(JsString::from(text)))
        }),
    )?;
    context.register_global_callable(
        JsString::from("__toolport_call_async"),
        2,
        NativeFunction::from_copy_closure(move |_, args, context| {
            let (name, json) = (text_arg(args, 0), text_arg(args, 1));
            let (tool, parsed) = run
                .state
                .borrow_mut()
                .issue_call(name.as_deref(), json.as_deref(), run.late())
                .map_err(thrown)?;
            let (promise, resolvers) = JsPromise::new_pending(context);
            run.state.borrow_mut().queue_call(tool, parsed, resolvers);
            Ok(promise.into())
        }),
    )?;
    context.register_global_callable(
        JsString::from("__toolport_checkpoint"),
        1,
        NativeFunction::from_copy_closure(move |_, args, _| {
            let raw = text_arg(args, 0);
            run.state
                .borrow_mut()
                .record_checkpoint(raw.as_deref())
                .map_err(thrown)?;
            Ok(JsValue::undefined())
        }),
    )?;
    context.register_global_callable(
        JsString::from("__toolport_fetch_result"),
        1,
        NativeFunction::from_copy_closure(move |_, args, _| {
            let raw = text_arg(args, 0);
            let request = run
                .state
                .borrow_mut()
                .issue_fetch(run.fetch.is_some(), raw.as_deref(), run.late())
                .map_err(thrown)?;
            let fetch = run.fetch.as_ref().expect("a request needs a binding");
            let text = result_text(&fetch(request));
            Ok(JsValue::from(JsString::from(text)))
        }),
    )
}

fn stringify(context: &mut Context, value: &JsValue) -> Result<Value, JsError> {
    let global = context.global_object();
    let object = global.get(JsString::from("JSON"), context)?;
    let function = object
        .as_object()
        .ok_or_else(|| thrown(ScriptError::NoJsonObject))?
        .get(JsString::from("stringify"), context)?
        .as_callable()
        .ok_or_else(|| thrown(ScriptError::NoStringify))?;
    let encoded = function.call(&JsValue::undefined(), &[value.clone()], context)?;
    let text = encoded.as_string().map(|text| text.to_std_string_escaped());
    returned_value(text.as_deref()).map_err(thrown)
}

fn top_of(context: &mut Context, top: &JsValue) -> Top<JsValue> {
    let Some(object) = top.as_object() else {
        return Top::Plain(top.clone());
    };
    match JsPromise::from_object(object.clone()) {
        Err(_) => Top::Plain(top.clone()),
        Ok(promise) => match promise.state() {
            PromiseState::Pending => Top::Pending,
            PromiseState::Fulfilled(value) => Top::Fulfilled(value),
            PromiseState::Rejected(reason) => Top::Rejected(
                reason
                    .to_string(context)
                    .map(|text| text.to_std_string_escaped())
                    .unwrap_or_else(|_| reason.display().to_string()),
            ),
        },
    }
}

fn drive(context: &mut Context, run: &Run, top: JsValue) -> Result<Value, JsError> {
    let mut drive = Drive::new();
    let mut progress = Progress::Begun;
    loop {
        let task = drive.step(&mut run.state.borrow_mut(), progress, run.late());
        progress = match task {
            Task::Call(calls) => Progress::Called(
                calls
                    .into_iter()
                    .map(|(_, name, args)| Some((run.call)(&name, args)))
                    .collect(),
            ),
            Task::Settle(pairs) => {
                for (resolvers, text) in pairs {
                    let value = JsValue::from(JsString::from(text));
                    resolvers
                        .resolve
                        .call(&JsValue::undefined(), &[value], context)?;
                }
                Progress::Settled
            }
            Task::RunJobs => {
                context.run_jobs()?;
                Progress::JobsRan
            }
            Task::Look => Progress::Top(top_of(context, &top)),
            Task::Return(value) => return stringify(context, &value),
            Task::Fail(error) => return Err(thrown(error)),
        };
    }
}

fn evaluate(
    script: &str,
    input: ScriptInput,
    run: &'static Run,
    limits: Limits,
    catalog: &[String],
) -> Result<Value, JsError> {
    let executor = Rc::new(Executor {
        jobs: RefCell::new(BoundedJobExecutor::new(limits.max_promise_jobs)),
        deadline: run.deadline,
    });
    let mut context = Context::builder().job_executor(executor).build()?;
    context
        .runtime_limits_mut()
        .set_loop_iteration_limit(limits.loop_iteration_limit);
    context
        .runtime_limits_mut()
        .set_recursion_limit(limits.recursion_limit);
    install(&mut context, run)?;
    let global = input.global();
    let value = JsValue::from_json(input.value(), &mut context)?;
    let attributes = if global.writable {
        Attribute::all()
    } else {
        Attribute::empty()
    };
    context.register_global_property(JsString::from(global.name), value, attributes)?;
    let mut top = JsValue::undefined();
    for source in evaluation_sources(script, &input, catalog) {
        top = context.eval(Source::from_bytes(source.as_bytes()))?;
    }
    drive(&mut context, run, top)
}

fn run_script_with_input(
    script: &str,
    input: ScriptInput,
    call: CallBinding,
    fetch: Option<FetchBinding>,
    limits: Limits,
    catalog: &[String],
) -> ScriptOutcome {
    let run: &'static Run = Box::leak(Box::new(Run {
        state: RefCell::new(HostState::new(&limits, 0)),
        call,
        fetch,
        deadline: Instant::now() + limits.wall_clock,
    }));
    let returned = evaluate(script, input, run, limits, catalog);
    let state = run.state.replace(HostState::new(&limits, 0));
    match returned {
        Ok(value) => state.finish(value),
        Err(error) => state.fail(error.to_string()),
    }
}

fn run_script(
    script: &str,
    data: Value,
    call: CallBinding,
    fetch: Option<FetchBinding>,
    limits: Limits,
    catalog: &[String],
) -> ScriptOutcome {
    run_script_with_input(script, ScriptInput::Data(data), call, fetch, limits, catalog)
}

fn run(script: &str, data: Value, call: CallBinding, limits: Limits) -> ScriptOutcome {
    run_script(script, data, call, None, limits, &[])
}

fn echo(name: &str, args: Value) -> Value {
    let mut members = serde_json::Map::new();
    members.insert("echo".to_string(), Value::String(name.to_string()));
    members.insert("args".to_string(), args);
    Value::Object(members)
}

/// A call binding that records the calls it saw and echoes them.
fn recording_call(log: Arc<Mutex<Vec<(String, Value)>>>) -> CallBinding {
    Arc::new(move |name: &str, args: Value| {
        log.lock().unwrap().push((name.to_string(), args.clone()));
        echo(name, args)
    })
}

/// Names in `outcome.progress`, for terse assertions.
fn progress_names(out: &ScriptOutcome) -> Vec<&str> {
    out.progress.iter().map(|c| c.name.as_str()).collect()
}

/// A binding no return-value test needs, since none of them call a tool.
fn no_calls() -> CallBinding {
    Arc::new(|_name: &str, _args: Value| json("{}"))
}

fn outcome_of(script: &str) -> ScriptOutcome {
    run(script, json("{}"), no_calls(), Limits::default())
}

fn outcome_with_immutable_input(script: &str, input: Value) -> ScriptOutcome {
    run_script_with_input(
        script,
        ScriptInput::ImmutableInput(input),
        no_calls(),
        None,
        Limits::default(),
        &[],
    )
}

#[test]
fn a_failed_script_still_reports_the_calls_that_already_ran() {
    let log = Arc::new(Mutex::new(Vec::new()));
    let script = r#"
        toolport.call("first", {});
        toolport.call("second", {});
        throw new Error("boom");
    "#;
    let out = run(script, json("{}"), recording_call(log), Limits::default());

    assert!(out.error.is_some(), "script was supposed to throw");
    assert_eq!(progress_names(&out), vec!["first", "second"]);
    assert!(out.progress.iter().all(|c| c.ok));
    assert_eq!(out.calls, 2);
}

#[test]
fn routine_input_is_deeply_immutable_and_has_no_data_alias() {
    let out = outcome_with_immutable_input(
        r#"
            try { input.owner = "changed"; } catch (_) {}
            try { input.nested.value = 2; } catch (_) {}
            try { input.items.push("new"); } catch (_) {}
            return {
                owner: input.owner,
                nested: input.nested.value,
                items: input.items,
                inputFrozen: Object.isFrozen(input),
                nestedFrozen: Object.isFrozen(input.nested),
                arrayFrozen: Object.isFrozen(input.items),
                dataType: typeof data,
            };
        "#,
        json(r#"{ "owner": "original", "nested": { "value": 1 }, "items": ["old"] }"#),
    );

    assert_eq!(out.error, None, "unexpected error: {:?}", out.error);
    assert_eq!(
        out.value,
        json(r#"{ "owner": "original", "nested": 1, "items": ["old"], "inputFrozen": true, "nestedFrozen": true, "arrayFrozen": true, "dataType": "undefined" }"#)
    );
}

#[test]
fn ordinary_code_mode_data_remains_mutable() {
    let out = run(
        "data.value = 2; return data.value;",
        json(r#"{ "value": 1 }"#),
        no_calls(),
        Limits::default(),
    );
    assert_eq!(out.error, None, "unexpected error: {:?}", out.error);
    assert_eq!(out.value, json(r#"2"#));
}

#[test]
fn a_returned_date_survives_as_its_instant() {
    let out = outcome_of("return new Date(0);");

    assert_eq!(out.error, None, "unexpected error: {:?}", out.error);
    assert_eq!(out.value, json(r#""1970-01-01T00:00:00.000Z""#));
}

#[test]
fn a_returned_bigint_fails_closed_instead_of_reporting_null() {
    let out = outcome_of("return 9007199254740993n;");

    let err = out.error.expect("BigInt cannot be represented in JSON");
    assert!(
        err.to_lowercase().contains("bigint"),
        "error should name the unrepresentable type, got: {err}"
    );
}

#[test]
fn dates_nested_in_a_returned_structure_survive_too() {
    let out = outcome_of(r#"return { ranAt: new Date(0), rows: [{ at: new Date(0) }] };"#);

    assert_eq!(out.error, None, "unexpected error: {:?}", out.error);
    assert_eq!(
        out.value,
        json(r#"{ "ranAt": "1970-01-01T00:00:00.000Z", "rows": [{ "at": "1970-01-01T00:00:00.000Z" }] }"#)
    );
}

#[test]
fn a_cyclic_return_value_is_an_error_not_an_empty_success() {
    let out = outcome_of("const a = {}; a.self = a; return a;");

    let err = out.error.expect("a cycle cannot be encoded as JSON");
    assert!(
        err.to_lowercase().contains("circular") || err.to_lowercase().contains("cyclic"),
        "error should explain the cycle, got: {err}"
    );
}

#[test]
fn returning_nothing_is_still_a_successful_null() {
    let out = outcome_of("return;");

    assert_eq!(out.error, None, "unexpected error: {:?}", out.error);
    assert_eq!(out.value, Value::Null);
}

#[test]
fn ordinary_return_values_are_unchanged() {
    let out = outcome_of(r#"return { n: 1, s: "x", b: true, nil: null, arr: [1, 2] };"#);

    assert_eq!(out.error, None, "unexpected error: {:?}", out.error);
    assert_eq!(
        out.value,
        json(r#"{ "n": 1, "s": "x", "b": true, "nil": null, "arr": [1, 2] }"#)
    );
}

#[test]
fn repeated_tool_names_stay_distinguishable_by_index() {
    let log = Arc::new(Mutex::new(Vec::new()));
    let script = r#"
        toolport.call("create_row", { id: 1 });
        toolport.call("create_row", { id: 2 });
        throw new Error("died before the third row");
    "#;
    let out = run(script, json("{}"), recording_call(log), Limits::default());

    assert!(out.error.is_some());
    assert_eq!(progress_names(&out), vec!["create_row", "create_row"]);
    assert_eq!(
        out.progress.iter().map(|c| c.index).collect::<Vec<_>>(),
        vec![0, 1],
        "indexes must be dense and ordered so resume-by-position is unambiguous"
    );
}

#[test]
fn progress_indexes_stay_dense_across_sync_and_async_calls() {
    let log = Arc::new(Mutex::new(Vec::new()));
    let script = r#"
        toolport.call("sync_one", {});
        await Promise.all([toolport.callAsync("fan_a", {}), toolport.callAsync("fan_b", {})]);
        toolport.call("sync_two", {});
        return "done";
    "#;
    let out = run(script, json("{}"), recording_call(log), Limits::default());

    assert_eq!(out.error, None, "unexpected error: {:?}", out.error);
    assert_eq!(
        out.progress.iter().map(|c| c.index).collect::<Vec<_>>(),
        vec![0, 1, 2, 3]
    );
    assert_eq!(
        progress_names(&out),
        vec!["sync_one", "fan_a", "fan_b", "sync_two"]
    );
}

#[test]
fn progress_marks_a_downstream_error_without_dropping_the_call() {
    let call: CallBinding = Arc::new(|name: &str, _: Value| {
        if name == "bad" {
            json(r#"{ "content": [], "isError": true }"#)
        } else {
            json(r#"{ "content": [], "isError": false }"#)
        }
    });
    let script = r#"
        toolport.call("good", {});
        toolport.call("bad", {});
        toolport.call("good", {});
        return "done";
    "#;
    let out = run(script, json("{}"), call, Limits::default());

    assert_eq!(out.error, None, "unexpected error: {:?}", out.error);
    assert_eq!(progress_names(&out), vec!["good", "bad", "good"]);
    assert_eq!(
        out.progress.iter().map(|c| c.ok).collect::<Vec<_>>(),
        vec![true, false, true]
    );
}

#[test]
fn progress_records_parallel_call_async_work_in_batch_order() {
    let log = Arc::new(Mutex::new(Vec::new()));
    let script = r#"
        var ps = [];
        for (var i = 0; i < 4; i++) { ps.push(toolport.callAsync("fan" + i, {})); }
        await Promise.all(ps);
        throw new Error("after the fan-out");
    "#;
    let out = run(script, json("{}"), recording_call(log), Limits::default());

    assert!(out.error.is_some());
    assert_eq!(
        progress_names(&out),
        vec!["fan0", "fan1", "fan2", "fan3"],
        "parallel work is recorded in batch order"
    );
}

#[test]
fn fetch_result_counts_against_the_budget_but_is_not_a_downstream_call() {
    let call = recording_call(Arc::new(Mutex::new(Vec::new())));
    let fetch: FetchBinding = Arc::new(|_: FetchArgs| json(r#"{ "page": 1 }"#));
    let script = r#"
        toolport.call("real", {});
        toolport.fetchResult({ cursor: "c1", offset: 0, len: 1 });
        return "done";
    "#;
    let out = run_script(script, json("{}"), call, Some(fetch), Limits::default(), &[]);

    assert_eq!(out.error, None, "unexpected error: {:?}", out.error);
    assert_eq!(progress_names(&out), vec!["real"]);
    assert_eq!(out.calls, 2, "fetchResult still counts against max_calls");
}

#[test]
fn a_script_that_never_compiles_reports_no_progress() {
    let call = recording_call(Arc::new(Mutex::new(Vec::new())));
    let out = run(
        "this is not ( valid javascript",
        json("{}"),
        call,
        Limits::default(),
    );
    assert!(out.error.is_some());
    assert!(out.progress.is_empty());
    assert_eq!(out.calls, 0);
}

#[test]
fn progress_is_populated_on_the_success_path_too() {
    let log = Arc::new(Mutex::new(Vec::new()));
    let out = run(
        "toolport.call('one', {}); return 'ok';",
        json("{}"),
        recording_call(log),
        Limits::default(),
    );
    assert_eq!(out.error, None, "unexpected error: {:?}", out.error);
    assert_eq!(progress_names(&out), vec!["one"]);
}

#[test]
fn a_budget_exhausted_script_reports_the_calls_it_got_through() {
    let log = Arc::new(Mutex::new(Vec::new()));
    let limits = Limits {
        max_calls: 2,
        ..Limits::default()
    };
    let out = run(
        "for (var i = 0; i < 10; i++) { toolport.call('t' + i, {}); } return 'done';",
        json("{}"),
        recording_call(log),
        limits,
    );
    assert!(out.error.is_some(), "budget should have aborted the script");
    assert_eq!(
        progress_names(&out),
        vec!["t0", "t1"],
        "the two calls that ran before the budget tripped are still reported"
    );
}

#[test]
fn runs_a_plain_script_and_returns_its_value() {
    let call = Arc::new(|_: &str, _: Value| Value::Null);
    let out = run("return 1 + 2;", json("{}"), call, Limits::default());
    assert_eq!(out.error, None, "unexpected error: {:?}", out.error);
    assert_eq!(out.value, json(r#"3"#));
    assert_eq!(out.calls, 0);
}

#[test]
fn toolport_call_reaches_the_binding_and_data_is_injected() {
    let log = Arc::new(Mutex::new(Vec::new()));
    let call = recording_call(log.clone());
    let script = r#"
        var out = [];
        for (var i = 0; i < data.ids.length; i++) {
            var r = toolport.call("lookup", { id: data.ids[i] });
            out.push(r.args.id);
        }
        return out;
    "#;
    let out = run(
        script,
        json(r#"{ "ids": [10, 20, 30] }"#),
        call,
        Limits::default(),
    );
    assert_eq!(out.error, None, "unexpected error: {:?}", out.error);
    assert_eq!(out.value, json(r#"[10, 20, 30]"#));
    assert_eq!(out.calls, 3);
    let log = log.lock().unwrap();
    assert_eq!(log.len(), 3);
    assert_eq!(log[0].0, "lookup");
    assert_eq!(log[1].1, json(r#"{ "id": 20 }"#));
}

#[test]
fn call_budget_is_enforced() {
    let call = Arc::new(|_: &str, _: Value| json("{}"));
    let limits = Limits {
        max_calls: 2,
        ..Limits::default()
    };
    let out = run(
        "for (var i = 0; i < 10; i++) { toolport.call('t', {}); } return 'done';",
        json("{}"),
        call,
        limits,
    );
    assert_eq!(out.calls, 2);
    assert_ne!(out.error, None);
    assert!(out.error.unwrap().contains("budget"));
}

#[test]
fn loop_limit_stops_pure_js_runaway() {
    let call = Arc::new(|_: &str, _: Value| Value::Null);
    let limits = Limits {
        loop_iteration_limit: 1000,
        ..Limits::default()
    };
    let out = run("while (true) {} return 1;", json("{}"), call, limits);
    assert_ne!(out.error, None, "an infinite loop must be stopped");
    assert_eq!(out.calls, 0);
}

#[test]
fn nested_loops_share_one_iteration_budget() {
    let call = Arc::new(|_: &str, _: Value| Value::Null);
    let limits = Limits {
        loop_iteration_limit: 1_000,
        ..Limits::default()
    };
    let out = run(
        "let n = 0; for (let i = 0; i < 1000; i++) { for (let j = 0; j < 1000; j++) { n++; } } return n;",
        json("{}"),
        call,
        limits,
    );

    let err = out.error.expect("nested loops must hit the shared budget");
    assert!(err.contains("loop iteration limit"), "got: {err}");
}

#[test]
fn unbounded_recursion_is_stopped_without_a_host_call() {
    let call = Arc::new(|_: &str, _: Value| Value::Null);
    let out = run(
        "function f(n) { return n <= 0 ? 0 : f(n - 1) + 1; } return f(10000000);",
        json("{}"),
        call,
        Limits::default(),
    );

    let err = out.error.expect("unbounded recursion must be stopped");
    assert!(err.contains("recursive calls"), "got: {err}");
    assert_eq!(out.calls, 0, "it never reached a host call");
}

#[test]
fn pure_js_runaways_are_bounded_by_count_not_wall_clock() {
    let call = Arc::new(|_: &str, _: Value| Value::Null);
    let limits = Limits {
        wall_clock: Duration::from_secs(0),
        loop_iteration_limit: 5_000,
        ..Limits::default()
    };
    let out = run("while (true) {} return 1;", json("{}"), call, limits);

    let err = out.error.expect("the loop budget must still stop it");
    assert!(
        err.contains("loop iteration limit"),
        "an expired wall clock is not what stops a pure-JS loop; got: {err}"
    );
}

#[test]
fn a_thrown_error_is_reported_not_panicked() {
    let call = Arc::new(|_: &str, _: Value| Value::Null);
    let out = run(
        "throw new Error('boom');",
        json("{}"),
        call,
        Limits::default(),
    );
    assert!(out.error.unwrap().contains("boom"));
}

#[test]
fn syntax_error_fails_closed() {
    let call = Arc::new(|_: &str, _: Value| Value::Null);
    let out = run("this is not valid )(", json("{}"), call, Limits::default());
    assert_ne!(out.error, None);
    assert_eq!(out.calls, 0);
}

#[test]
fn call_async_with_await_returns_result() {
    let log = Arc::new(Mutex::new(Vec::new()));
    let call = recording_call(log.clone());
    let script = r#"
        const a = await toolport.callAsync("lookup", { id: 7 });
        return a.args.id;
    "#;
    let out = run(script, json("{}"), call, Limits::default());
    assert_eq!(out.error, None, "unexpected error: {:?}", out.error);
    assert_eq!(out.value, json(r#"7"#));
    assert_eq!(out.calls, 1);
}

#[test]
fn promise_all_fans_out_and_preserves_order() {
    let log = Arc::new(Mutex::new(Vec::new()));
    let call = recording_call(log.clone());
    let script = r#"
        const results = await Promise.all([
            toolport.callAsync("a", { n: 1 }),
            toolport.callAsync("b", { n: 2 }),
            toolport.callAsync("c", { n: 3 }),
        ]);
        return results.map(function (r) { return r.echo + ":" + r.args.n; });
    "#;
    let out = run(script, json("{}"), call, Limits::default());
    assert_eq!(out.error, None, "unexpected error: {:?}", out.error);
    assert_eq!(out.value, json(r#"["a:1", "b:2", "c:3"]"#));
    assert_eq!(out.calls, 3);
    let names: Vec<String> = log.lock().unwrap().iter().map(|(n, _)| n.clone()).collect();
    assert_eq!(names.len(), 3);
    assert!(names.contains(&"a".to_string()));
    assert!(names.contains(&"b".to_string()));
    assert!(names.contains(&"c".to_string()));
}

#[test]
fn call_all_sugar_matches_promise_all() {
    let call = Arc::new(|name: &str, args: Value| echo(name, args));
    let script = r#"
        const results = await toolport.callAll([
            { name: "x", args: { i: 1 } },
            { name: "y", args: { i: 2 } },
        ]);
        return results.map(function (r) { return r.echo + r.args.i; }).join(",");
    "#;
    let out = run(script, json("{}"), call, Limits::default());
    assert_eq!(out.error, None, "unexpected error: {:?}", out.error);
    assert_eq!(out.value, json(r#""x1,y2""#));
    assert_eq!(out.calls, 2);
}

#[test]
fn call_async_budget_is_enforced() {
    let call = Arc::new(|_: &str, _: Value| json("{}"));
    let limits = Limits {
        max_calls: 2,
        ..Limits::default()
    };
    let out = run(
        r#"
            await Promise.all([
                toolport.callAsync("a", {}),
                toolport.callAsync("b", {}),
                toolport.callAsync("c", {}),
            ]);
            return "done";
        "#,
        json("{}"),
        call,
        limits,
    );
    assert_eq!(out.calls, 2);
    assert_ne!(out.error, None);
    assert!(out.error.unwrap().contains("budget"));
}

#[test]
fn servers_stub_calls_through_with_snake_and_camel() {
    let log = Arc::new(Mutex::new(Vec::new()));
    let call = recording_call(log.clone());
    let catalog = vec![
        "stripe__create_refund".to_string(),
        "github__create_pull_request".to_string(),
    ];
    let script = r#"
        const a = servers.stripe.create_refund({ id: "ch_1" });
        const b = servers.stripe.createRefund({ id: "ch_2" });
        const c = servers.github.createPullRequest({ title: "t" });
        return {
            tools: toolport.listTools().sort(),
            servers: toolport.listServers().sort(),
            names: [a.echo, b.echo, c.echo],
            ids: [a.args.id, b.args.id],
            title: c.args.title,
        };
    "#;
    let out = run_script(script, json("{}"), call, None, Limits::default(), &catalog);
    assert_eq!(out.error, None, "unexpected error: {:?}", out.error);
    assert_eq!(out.calls, 3);
    assert_eq!(
        out.value["names"],
        json(r#"[ "stripe__create_refund", "stripe__create_refund", "github__create_pull_request" ]"#)
    );
    assert_eq!(out.value["ids"], json(r#"["ch_1", "ch_2"]"#));
    assert_eq!(out.value["title"], json(r#""t""#));
    assert_eq!(
        out.value["tools"],
        json(r#"["github__create_pull_request", "stripe__create_refund"]"#)
    );
    assert_eq!(out.value["servers"], json(r#"["github", "stripe"]"#));
    let log = log.lock().unwrap();
    assert_eq!(log[0].0, "stripe__create_refund");
    assert_eq!(log[2].0, "github__create_pull_request");
}

#[test]
fn servers_stub_async_fans_out() {
    let log = Arc::new(Mutex::new(Vec::new()));
    let call = recording_call(log.clone());
    let catalog = vec![
        "stripe__create_refund".to_string(),
        "resend__send_email".to_string(),
    ];
    let script = r#"
        const results = await Promise.all([
            servers.stripe.createRefund.async({ id: 1 }),
            servers.resend.send_email.async({ to: "a@b.c" }),
        ]);
        return results.map(function (r) { return r.echo; }).sort();
    "#;
    let out = run_script(script, json("{}"), call, None, Limits::default(), &catalog);
    assert_eq!(out.error, None, "unexpected error: {:?}", out.error);
    assert_eq!(out.calls, 2);
    assert_eq!(
        out.value,
        json(r#"["resend__send_email", "stripe__create_refund"]"#)
    );
}

#[test]
fn empty_catalog_still_exposes_empty_servers() {
    let call = Arc::new(|_: &str, _: Value| Value::Null);
    let out = run(
        "return { tools: toolport.listTools(), servers: toolport.listServers(), has: typeof servers };",
        json("{}"),
        call,
        Limits::default(),
    );
    assert_eq!(out.error, None, "unexpected error: {:?}", out.error);
    assert_eq!(out.value["tools"], json(r#"[]"#));
    assert_eq!(out.value["servers"], json(r#"[]"#));
    assert_eq!(out.value["has"], json(r#""object""#));
}

#[test]
fn camel_alias_does_not_clobber_sibling_tool() {
    let log = Arc::new(Mutex::new(Vec::new()));
    let call = recording_call(log.clone());
    let catalog = vec![
        "s__create_refund".to_string(),
        "s__createRefund".to_string(),
    ];
    let script = r#"
        return {
            a: servers.s.create_refund({}).echo,
            b: servers.s.createRefund({}).echo,
        };
    "#;
    let out = run_script(script, json("{}"), call, None, Limits::default(), &catalog);
    assert_eq!(out.error, None, "unexpected error: {:?}", out.error);
    assert_eq!(out.value["a"], json(r#""s__create_refund""#));
    assert_eq!(out.value["b"], json(r#""s__createRefund""#));
}

#[test]
fn fetch_result_binding_pages_shaped_cursor() {
    let full = "abcdefghijklmnopqrstuvwxyz";
    let fetch: FetchBinding = Arc::new(move |args: FetchArgs| {
        assert_eq!(args.cursor, "r1");
        let start = args.offset.min(full.len());
        let end = if args.len == 0 {
            full.len()
        } else {
            start.saturating_add(args.len).min(full.len())
        };
        json(&format!(
            r#"{{ "content": [{{ "type": "text", "text": "{}" }}], "isError": false }}"#,
            &full[start..end]
        ))
    });
    let call = Arc::new(|_: &str, _: Value| Value::Null);
    let out = run_script(
        r#"
            const a = toolport.fetchResult({ cursor: "r1", offset: 0, len: 5 });
            const b = toolport.fetchResult({ cursor: "r1", offset: 5, len: 5 });
            return { a: a.content[0].text, b: b.content[0].text };
        "#,
        json("{}"),
        call,
        Some(fetch),
        Limits::default(),
        &[],
    );
    assert_eq!(out.error, None, "unexpected error: {:?}", out.error);
    assert_eq!(out.value["a"], json(r#""abcde""#));
    assert_eq!(out.value["b"], json(r#""fghij""#));
}

#[test]
fn fetch_result_unavailable_without_binding() {
    let call = Arc::new(|_: &str, _: Value| Value::Null);
    let out = run(
        r#"return toolport.fetchResult({ cursor: "r1" });"#,
        json("{}"),
        call,
        Limits::default(),
    );
    assert_ne!(out.error, None);
    assert!(out.error.unwrap().contains("unavailable"));
}

#[test]
fn fetch_result_unavailable_wins_over_an_exhausted_budget() {
    let call = Arc::new(|_: &str, _: Value| Value::Null);
    let out = run(
        r#"return toolport.fetchResult({ cursor: "r1" });"#,
        json("{}"),
        call,
        Limits {
            max_calls: 0,
            ..Limits::default()
        },
    );
    let err = out.error.expect("no binding must still be an error");
    assert!(
        err.contains("unavailable"),
        "availability must be reported ahead of the budget: {err}"
    );
    assert!(!err.contains("budget"), "misleading budget error: {err}");
}

#[test]
fn fetch_result_charges_the_budget_before_validating_the_spec() {
    let fetch: FetchBinding = Arc::new(
        |_: FetchArgs| json(r#"{ "content": [{ "type": "text", "text": "x" }], "isError": false }"#),
    );
    let call = Arc::new(|_: &str, _: Value| Value::Null);
    let out = run_script(
        r#"return toolport.fetchResult({ cursor: "" });"#,
        json("{}"),
        call,
        Some(fetch),
        Limits {
            max_calls: 0,
            ..Limits::default()
        },
        &[],
    );
    let err = out.error.expect("exhausted budget must be an error");
    assert!(
        err.contains("budget"),
        "budget must be checked before spec validation: {err}"
    );
}

#[test]
fn fetch_result_counts_against_call_budget() {
    let fetch: FetchBinding = Arc::new(
        |_: FetchArgs| json(r#"{ "content": [{ "type": "text", "text": "x" }], "isError": false }"#),
    );
    let call = Arc::new(|_: &str, _: Value| Value::Null);
    let limits = Limits {
        max_calls: 2,
        ..Limits::default()
    };
    let out = run_script(
        r#"
            toolport.fetchResult({ cursor: "r1" });
            toolport.fetchResult({ cursor: "r1" });
            toolport.fetchResult({ cursor: "r1" });
            return 1;
        "#,
        json("{}"),
        call,
        Some(fetch),
        limits,
        &[],
    );
    assert_ne!(out.error, None, "third fetchResult must hit budget");
    assert!(
        out.error.as_ref().unwrap().contains("budget"),
        "got: {:?}",
        out.error
    );
    assert_eq!(out.calls, 2);
}

#[test]
fn self_requeuing_promise_jobs_hit_budget() {
    let call = Arc::new(|_: &str, _: Value| Value::Null);
    let limits = Limits {
        max_promise_jobs: 50,
        wall_clock: Duration::from_secs(5),
        ..Limits::default()
    };
    let out = run(
        r#"
            let n = 0;
            function loop() {
                n += 1;
                return Promise.resolve().then(loop);
            }
            loop();
            return new Promise(function () {}); // never settles
        "#,
        json("{}"),
        call,
        limits,
    );
    assert_ne!(out.error, None, "expected promise-job budget error");
    let err = out.error.unwrap();
    assert!(
        err.contains("promise-job budget") || err.contains("wall-clock"),
        "unexpected error: {err}"
    );
}

#[test]
fn checkpoint_is_last_write_wins() {
    let call = Arc::new(|_: &str, _: Value| Value::Null);
    let out = run(
        r#"
            toolport.checkpoint({ step: 1 });
            toolport.checkpoint({ step: 2 });
            toolport.checkpoint({ step: 3 });
            return 'done';
        "#,
        json("{}"),
        call,
        Limits::default(),
    );
    assert_eq!(out.error, None, "unexpected error: {:?}", out.error);
    assert_eq!(out.checkpoint, Some(json(r#"{ "step": 3 }"#)));
}

#[test]
fn checkpoint_survives_on_the_error_path() {
    let call = Arc::new(|_: &str, _: Value| Value::Null);
    let out = run(
        r#"
            toolport.checkpoint({ lastInsertedId: 41 });
            throw new Error('boom');
        "#,
        json("{}"),
        call,
        Limits::default(),
    );
    assert!(out.error.is_some(), "script was supposed to throw");
    assert_eq!(out.checkpoint, Some(json(r#"{ "lastInsertedId": 41 }"#)));
}

#[test]
fn checkpoint_is_none_when_the_script_never_calls_it() {
    let out = outcome_of("return 'ok';");
    assert_eq!(out.error, None, "unexpected error: {:?}", out.error);
    assert_eq!(out.checkpoint, None);
}

#[test]
fn checkpoint_is_none_on_a_script_that_never_compiles() {
    let call = Arc::new(|_: &str, _: Value| Value::Null);
    let out = run(
        "this is not ( valid javascript",
        json("{}"),
        call,
        Limits::default(),
    );
    assert!(out.error.is_some());
    assert_eq!(out.checkpoint, None);
}

#[test]
fn checkpoint_oversized_value_is_rejected_without_dropping_the_prior_one() {
    let call = Arc::new(|_: &str, _: Value| Value::Null);
    let out = run(
        r#"
            toolport.checkpoint({ ok: true });
            toolport.checkpoint({ blob: 'x'.repeat(5000) });
        "#,
        json("{}"),
        call,
        Limits::default(),
    );
    let err = out.error.expect("an oversized checkpoint must fail closed");
    assert!(
        err.contains("4096"),
        "error should name the byte cap: {err}"
    );
    assert_eq!(out.checkpoint, Some(json(r#"{ "ok": true }"#)));
}

#[test]
fn malformed_checkpoint_json_is_rejected_without_dropping_the_prior_one() {
    let call = Arc::new(|_: &str, _: Value| Value::Null);
    let out = run(
        r#"
            toolport.checkpoint({ safe: true });
            try {
                __toolport_checkpoint('{not-json');
            } catch (_) {}
            return 'done';
        "#,
        json("{}"),
        call,
        Limits::default(),
    );
    assert_eq!(out.error, None, "unexpected error: {:?}", out.error);
    assert_eq!(
        out.checkpoint,
        Some(json(r#"{ "safe": true }"#)),
        "malformed direct-binding input must not replace the last good checkpoint"
    );
}

#[test]
fn checkpoint_costs_nothing_against_the_call_budget() {
    let call = Arc::new(|_: &str, _: Value| Value::Null);
    let limits = Limits {
        max_calls: 0,
        ..Limits::default()
    };
    let out = run(
        r#"
            toolport.checkpoint({ a: 1 });
            toolport.checkpoint({ a: 2 });
            return 'done';
        "#,
        json("{}"),
        call,
        limits,
    );
    assert_eq!(out.error, None, "unexpected error: {:?}", out.error);
    assert_eq!(out.calls, 0, "checkpoint must not count against max_calls");
    assert_eq!(out.checkpoint, Some(json(r#"{ "a": 2 }"#)));
}

#[test]
fn a_literal_reads_back_as_the_text_it_was_made_of() {
    for text in ["", "it's", "a\\b\nc\rd", "\u{2028}\u{2029}", "tab\t é 𝄞 \""] {
        let out = outcome_of(&format!("return {};", js_string_literal(text)));
        assert_eq!(out.error, None);
        assert_eq!(out.value, Value::String(text.to_string()));
    }
}
