# Toolport code mode

Code mode runs one script that calls several downstream tools and returns a single value. The
script runs in a worker process; its parent owns the host bindings and holds the worker to its
limits. This crate is the logic of both sides, verified with Verus.

- `src/names.rs`, `src/servers.rs`: exposed tool names, and the script text that binds a catalog.
- `src/script.rs`: the JavaScript around a script, and the limits on its source and input.
- `src/host.rs`, `src/drive.rs`, `src/jobs.rs`: what a script may ask of its host, how it is driven
  to its end, and how its promise jobs are bounded.
- `src/frame.rs`: the frames on the pipe between parent and worker.
- `src/supervisor.rs`, `src/ledger.rs`: the parent's side of a run.
- `src/worker.rs`, `src/client.rs`: the worker's side.
- `src/memory.rs`, `src/permits.rs`, `src/host_calls.rs`: the memory budget, the number of workers,
  and the cancelling of host calls.
- `src/json.rs`, `src/text.rs`, `src/model.rs`, `src/errors.rs`: what these share.

The library decides; it opens no process, pipe or thread. `app/` holds the engine, the processes
and the pipes around it. Values are `serde_json::Value`; contracts speak of what a value holds
(`Json`), of its encoding and of parsing through names that stand for `serde_json`.
