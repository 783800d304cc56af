# workhorse

The logic of a small continuous-integration service, verified with Verus.
A `horsed` server takes SSH logins of the form `<action>@<server>` (`cmd`,
`cargo`, `just`, `git`, `get`, `put`, `job`, `admin`, ...) and runs builds and
commands in working copies of the repositories pushed to it; the `cargo-work`
client sends those requests.

`src/` is the verified library:

- `text`, `paths` — strings and Unix paths as character sequences; cleaning
  is done by `clean_path`.
- `layout` — where repositories and working copies live, and which paths a
  request may name.
- `server` — session variables, the command line of a request, the action of a
  login, and what `cmd`, `cargo`, `just`, `ssh` and `logs` run.
- `admin`, `auth` — the administration requests and the rules that keep an
  enabled administrator; who may log in.
- `jobs`, `attach` — the job registry with its bounded output buffers, and
  attaching to a job.
- `client`, `console`, `options` — the client's side: session settings,
  repository names, port forwarding, patches, upload progress, the
  administrator's console.
- `repo`, `ring` — git command lines, host facts, the in-memory log.
- `cargo` — the cargo command line a `cargo` request runs, from its options.
- `flow` — the server's handling of `exec`, `cmd`, `cargo` and `just`
  requests as steps from state and event to next state and action.

`app/` is the `cargo-work` client around it, talking to the server through
the system `ssh` (`SetEnv` carries the session variables). It has the
commands `cmd`, `admin`, `job`, `logs`, `put`, `push`, `ssh`, `just` and the
cargo ones (`build`, `zigbuild`, `check`, `clean`, `clippy`, `doc`, `install`,
`metadata`, `run`, `rustc`, `test`); `get`, `scp`, `pull`, `ping`, `watch`,
`ra` and `init` are not there, nor is the `horsed` server itself: the
library holds the server's decisions, but not its SSH, database and process
handling. `tests/` runs the library on concrete values.
