# rpc_toolkit

Routing, dispatch and binding generation for JSON-RPC servers and their
command-line clients. The library under `src/` is written in Verus: each
public function states what it returns in its contract, and Verus proves
that the code meets it.

## Layout

- `src/value.rs` — JSON values, and `combine`, which merges the argument
  objects of the levels of a command.
- `src/error.rs` — the standard JSON-RPC errors.
- `src/handler/` — the handler tree: leaves that name an implementation,
  parents with subcommands registered per context; routing of a method to
  a leaf (`route`, `method_from_dots`), metadata, adapters that change a
  handler's bindings, and the command-line side (`cli_command`,
  `cli_parse`).
- `src/server.rs` — what a request (or a batch) asks the server to run,
  and the answers to requests that cannot run.
- `src/cli.rs` — the command-line program: its command, what a command
  line runs, the method and request that a forwarded call sends, and how
  its reply is read.
- `src/middleware.rs` — the order in which middlewares see an HTTP
  request, the JSON-RPC requests it carries and their responses, as state
  machines that the caller drives, with the full run of each proved.
- `src/stream.rs` — the tasks that answer a stream of requests and the
  job runner: which result comes next, and when the answers end.
- `src/ts.rs`, `src/ts/` — TypeScript bindings: the `TS` trait, the
  visitor that collects type text and definitions, and the bindings of a
  handler tree.
- `src/attrs/` — the arguments of the attributes that declare commands
  and their parameters: what each item sets, and the errors for items
  that are refused.
- `src/command.rs`, `src/context.rs` — the command chain markers, the
  answer to a call by the stage it reached, and contexts of either of two
  types.
- `app/` — ordinary Rust around the library: conversions to and from the
  types of `serde_json`, `imbl_value`, `yajrc` and `clap`, the loops that
  run implementations for requests and command lines, the `axum` HTTP
  server with its middlewares, the stream of answers run on `tokio`
  tasks, remote calls over a socket or over HTTP (`reqwest`), and the
  reading of `syn` attributes into the attribute model.
- `tests/` — tests of the library on concrete values.

Handlers name their implementations by id; the caller holds the
implementations and runs the one that an `Invocation` names.
