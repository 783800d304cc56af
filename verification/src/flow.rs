//! The server's handling of a request, as decisions from state and event to
//! next state and action: what is refused before anything runs, the order in
//! which a `cmd` request places itself, records its job and starts its shell,
//! and how a dispatched request is answered. The caller performs each action
//! and reports what came of it as the next event.
use vstd::prelude::*;
use crate::layout::{
    build_paths, build_repo, cmd_working_copy, repo_relative, repo_store, repo_store_of, same_outcome,
    working_copy, RepoPathError,
};
use crate::server::{
    exit_status_of, job_exit_code, spawn_failure_message, Action, Failure,
};
use crate::text::push_str;

verus! {

/// A session variable a request needs but was not given.
#[derive(Clone, Copy, Debug, PartialEq, Eq, Structural)]
pub enum MissingSetting {
    Repo,
    Branch,
    CargoOptions,
}

impl MissingSetting {
    /// The error the request fails with.
    pub fn message(&self) -> (r: &'static str)
        ensures
            *self == MissingSetting::Repo ==> r@ == "REPO 环境变量未设置"@,
            *self == MissingSetting::Branch ==> r@ == "BRANCH 环境变量未设置"@,
            *self == MissingSetting::CargoOptions ==> r@ == "CARGO_OPTIONS 环境变量未设置"@,
    {
        match *self {
            MissingSetting::Repo => "REPO 环境变量未设置",
            MissingSetting::Branch => "BRANCH 环境变量未设置",
            MissingSetting::CargoOptions => "CARGO_OPTIONS 环境变量未设置",
        }
    }
}

/// The repository and branch of a request that works on a working copy
/// (`get`, `put`, `apply`, `git` pushes, `cargo`, `just`, `logs`): without
/// `REPO` it fails first, then without `BRANCH`.
pub fn require_repo_branch(repo: Option<String>, branch: Option<String>) -> (r: Result<
    (String, String),
    MissingSetting,
>)
    ensures
        repo is None ==> r == Err::<(String, String), MissingSetting>(MissingSetting::Repo),
        repo is Some && branch is None ==> r == Err::<(String, String), MissingSetting>(
            MissingSetting::Branch,
        ),
        (repo is Some && branch is Some) ==> (r matches Ok(p) && p.0@ == repo->0@ && p.1@
            == branch->0@),
{
    match repo {
        None => Err(MissingSetting::Repo),
        Some(x) => match branch {
            None => Err(MissingSetting::Branch),
            Some(b) => Ok((x, b)),
        },
    }
}

/// The `CARGO_OPTIONS` of a `cargo` request, which fails without it (after
/// its repository and branch are checked).
pub fn require_cargo_options(options: Option<String>) -> (r: Result<String, MissingSetting>)
    ensures
        options is None ==> r == Err::<String, MissingSetting>(MissingSetting::CargoOptions),
        options matches Some(o) ==> (r matches Ok(x) && x@ == o@),
{
    match options {
        None => Err(MissingSetting::CargoOptions),
        Some(o) => Ok(o),
    }
}

/// Where the handling of an `exec` request stands.
#[derive(Clone, Debug)]
pub enum ExecStage {
    /// The words of the request are read; its action is to be dispatched.
    Dispatching,
    /// The action's handler runs.
    Handling,
    /// The request is answered.
    Answered,
}

/// What happened in the handling of an `exec` request.
#[derive(Clone, Debug)]
pub enum ExecEvent {
    /// The login's action, to dispatch.
    Dispatch(Action),
    /// The handler came back: `true` when it succeeded.
    Handled(bool),
}

/// What the server does next for an `exec` request.
#[derive(Clone, Debug)]
pub enum ExecStep {
    /// Run the handler of the action.
    RunHandler(Action),
    /// Tell the client the error (code and message) and fail the channel.
    Refuse { code: String, message: String },
    /// Confirm the channel.
    Confirm,
    /// Pass the handler's error on; the channel gets no answer.
    PassError,
    /// Nothing: the event does not belong to this stage.
    Nothing,
}

/// The next stage and step of an `exec` request: an unsupported action is
/// refused with `HSSH_ACTION_UNSUPPORTED`; another runs its handler, whose
/// success confirms the channel and whose failure is passed on.
pub fn exec_step(stage: ExecStage, event: ExecEvent) -> (r: (ExecStage, ExecStep))
    ensures
        stage is Dispatching ==> match event {
            ExecEvent::Dispatch(Action::Unsupported(name)) => r.0 is Answered && (r.1 matches ExecStep::Refuse {
                code,
                message,
            } && code@ == "HSSH_ACTION_UNSUPPORTED"@ && message@ == "不支持的命令: "@ + name@),
            ExecEvent::Dispatch(a) => r.0 is Handling && r.1 == ExecStep::RunHandler(a),
            ExecEvent::Handled(_) => r.0 is Dispatching && r.1 is Nothing,
        },
        stage is Handling ==> match event {
            ExecEvent::Handled(true) => r.0 is Answered && r.1 is Confirm,
            ExecEvent::Handled(false) => r.0 is Answered && r.1 is PassError,
            ExecEvent::Dispatch(_) => r.0 is Handling && r.1 is Nothing,
        },
        stage is Answered ==> r.0 is Answered && r.1 is Nothing,
{
    match stage {
        ExecStage::Dispatching => match event {
            ExecEvent::Dispatch(Action::Unsupported(name)) => {
                let message = Action::unsupported_message(name.as_str());
                (
                    ExecStage::Answered,
                    ExecStep::Refuse {
                        code: String::from_str(Action::unsupported_code()),
                        message,
                    },
                )
            },
            ExecEvent::Dispatch(a) => (ExecStage::Handling, ExecStep::RunHandler(a)),
            ExecEvent::Handled(_) => (ExecStage::Dispatching, ExecStep::Nothing),
        },
        ExecStage::Handling => match event {
            ExecEvent::Handled(ok) => if ok {
                (ExecStage::Answered, ExecStep::Confirm)
            } else {
                (ExecStage::Answered, ExecStep::PassError)
            },
            ExecEvent::Dispatch(_) => (ExecStage::Handling, ExecStep::Nothing),
        },
        ExecStage::Answered => (ExecStage::Answered, ExecStep::Nothing),
    }
}

/// Where a `cmd` request stands.
#[derive(Clone, Debug)]
pub enum CmdStage {
    /// Nothing is decided yet.
    Start,
    /// The working copy `work` is checked for; `cwd` is the fallback.
    Placing { cwd: String, work: String },
    /// The directory is chosen; the job is to be recorded.
    Ready { dir: String },
    /// The job is recorded and announced; the shell is being started in `dir`.
    Launching { dir: String },
    /// The shell runs; its output goes to the client and the job.
    Running,
    /// The request is over.
    Done,
}

/// What happened in a `cmd` request.
#[derive(Clone, Debug)]
pub enum CmdEvent {
    /// The request came, in the server's directory `cwd`, with the `REPO`
    /// variable when set and whether `BRANCH` is set.
    Request { cwd: String, repo: Option<String>, branch_set: bool },
    /// Whether the working copy exists.
    WorkCopyExists(bool),
    /// The job was recorded under this identifier.
    JobCreated(String),
    /// The shell started.
    Spawned,
    /// The shell `shell` did not start, with this error.
    SpawnFailed { shell: String, error: String },
    /// The shell ended with this exit code (none: a signal ended it).
    Ended(Option<i32>),
    /// Copying the output or waiting for the shell failed.
    StreamFailed,
}

/// What the server does next for a `cmd` request.
#[derive(Clone, Debug)]
pub enum CmdAction {
    /// Refuse the request: the repository path (shown in `Debug` form) cannot
    /// be given the `.git` extension. Nothing is recorded.
    RefuseRepoPath(String),
    /// Find out whether this working copy exists.
    CheckWorkCopy(String),
    /// Record the job of the request.
    CreateJob,
    /// Tell the client `info`, then start the shell in `dir`.
    AnnounceAndSpawn { info: String, dir: String },
    /// Fail the request (status and code of `failure`, with `message`) and
    /// finish the job with `job_code`.
    FailAndFinish { failure: Failure, message: String, job_code: i32 },
    /// Send the exit status and close the channel, then finish the job with
    /// `job_code`.
    ExitAndFinish { status: u32, job_code: i32 },
    /// Finish the job with `job_code`; the channel is left as it is.
    Finish(i32),
    /// Nothing: the event does not belong to this stage.
    Nothing,
}

/// The next stage and action of a `cmd` request.
///
/// With `REPO` and `BRANCH` set, the working copy of `REPO` is used when it
/// exists and the server's directory otherwise, and a `REPO` that cannot be
/// given the `.git` extension is refused before any job is recorded; without
/// them, the server's directory is used. The job is recorded once the
/// directory is chosen, its identifier announced, then the shell started. A
/// shell that does not start fails the request with status 127 and finishes
/// the job with 127; a shell that ends gives its status and the job its code
/// (128 for a signal); when copying or waiting fails, the job finishes with 1.
pub fn cmd_step(stage: CmdStage, event: CmdEvent) -> (r: (CmdStage, CmdAction))
    ensures
        stage is Start ==> match event {
            CmdEvent::Request { cwd, repo, branch_set } => if repo is Some && branch_set {
                match working_copy(cwd@, repo->0@) {
                    Some(w) => (r.0 matches CmdStage::Placing { cwd: c, work } && c@ == cwd@ && work@ == w)
                        && (r.1 matches CmdAction::CheckWorkCopy(x) && x@ == w),
                    None => r.0 is Done && (r.1 matches CmdAction::RefuseRepoPath(p) && p@ == repo_relative(
                        repo->0@,
                    )),
                }
            } else {
                (r.0 matches CmdStage::Ready { dir } && dir@ == cwd@) && r.1 is CreateJob
            },
            _ => r.0 is Start && r.1 is Nothing,
        },
        stage matches CmdStage::Placing { cwd, work } ==> match event {
            CmdEvent::WorkCopyExists(b) => (r.0 matches CmdStage::Ready { dir } && dir@ == (if b {
                work@
            } else {
                cwd@
            })) && r.1 is CreateJob,
            _ => r.0 == stage && r.1 is Nothing,
        },
        stage matches CmdStage::Ready { dir } ==> match event {
            CmdEvent::JobCreated(id) => (r.0 matches CmdStage::Launching { dir: d } && d@ == dir@) && (r.1 matches CmdAction::AnnounceAndSpawn {
                info,
                dir: d,
            } && info@ == "job_id="@ + id@ && d@ == dir@),
            _ => r.0 == stage && r.1 is Nothing,
        },
        stage is Launching ==> match event {
            CmdEvent::Spawned => r.0 is Running && r.1 is Nothing,
            CmdEvent::SpawnFailed { shell, error } => r.0 is Done && (r.1 matches CmdAction::FailAndFinish {
                failure,
                message,
                job_code,
            } && failure == Failure::ShellSpawnFailed && message@ == "spawn: `"@ + shell@ + "` failed: "@
                + error@ && job_code == 127),
            _ => r.0 == stage && r.1 is Nothing,
        },
        stage is Running ==> match event {
            CmdEvent::Ended(code) => r.0 is Done && (r.1 matches CmdAction::ExitAndFinish { status, job_code }
                && status == (match code {
                Some(c) => c as u32,
                None => 128u32,
            }) && job_code == (match code {
                Some(c) => c,
                None => 128i32,
            })),
            CmdEvent::StreamFailed => r.0 is Done && r.1 == CmdAction::Finish(1),
            _ => r.0 is Running && r.1 is Nothing,
        },
        stage is Done ==> r.0 is Done && r.1 is Nothing,
{
    match stage {
        CmdStage::Start => match event {
            CmdEvent::Request { cwd, repo, branch_set } => {
                let placed = match &repo {
                    Some(x) => cmd_working_copy(cwd.as_str(), Some(x.as_str()), branch_set),
                    None => cmd_working_copy(cwd.as_str(), None, branch_set),
                };
                match placed {
                    Ok(Some(w)) => {
                        let work = w.clone();
                        (CmdStage::Placing { cwd, work }, CmdAction::CheckWorkCopy(w))
                    },
                    Ok(None) => (CmdStage::Ready { dir: cwd }, CmdAction::CreateJob),
                    Err(RepoPathError::NoFileName(p)) => (CmdStage::Done, CmdAction::RefuseRepoPath(p)),
                    Err(RepoPathError::NotRooted) => (CmdStage::Done, CmdAction::Nothing),
                    Err(RepoPathError::Escapes(_)) => (CmdStage::Done, CmdAction::Nothing),
                }
            },
            _ => (CmdStage::Start, CmdAction::Nothing),
        },
        CmdStage::Placing { cwd, work } => match event {
            CmdEvent::WorkCopyExists(b) => {
                let dir = if b {
                    work
                } else {
                    cwd
                };
                (CmdStage::Ready { dir }, CmdAction::CreateJob)
            },
            _ => (CmdStage::Placing { cwd, work }, CmdAction::Nothing),
        },
        CmdStage::Ready { dir } => match event {
            CmdEvent::JobCreated(id) => {
                let mut info = String::new();
                push_str(&mut info, "job_id=");
                push_str(&mut info, id.as_str());
                let d = dir.clone();
                (CmdStage::Launching { dir }, CmdAction::AnnounceAndSpawn { info, dir: d })
            },
            _ => (CmdStage::Ready { dir }, CmdAction::Nothing),
        },
        CmdStage::Launching { dir } => match event {
            CmdEvent::Spawned => (CmdStage::Running, CmdAction::Nothing),
            CmdEvent::SpawnFailed { shell, error } => {
                let message = spawn_failure_message(shell.as_str(), error.as_str());
                (
                    CmdStage::Done,
                    CmdAction::FailAndFinish { failure: Failure::ShellSpawnFailed, message, job_code: 127 },
                )
            },
            _ => (CmdStage::Launching { dir }, CmdAction::Nothing),
        },
        CmdStage::Running => match event {
            CmdEvent::Ended(code) => (
                CmdStage::Done,
                CmdAction::ExitAndFinish { status: exit_status_of(code), job_code: job_exit_code(code) },
            ),
            CmdEvent::StreamFailed => (CmdStage::Done, CmdAction::Finish(1)),
            _ => (CmdStage::Running, CmdAction::Nothing),
        },
        CmdStage::Done => (CmdStage::Done, CmdAction::Nothing),
    }
}

/// The two requests that build in a working copy from the bare repository.
#[derive(Clone, Copy, Debug, PartialEq, Eq, Structural)]
pub enum BuildKind {
    Cargo,
    Just,
}

/// The message a build request is refused with when its bare repository does
/// not exist.
pub open spec fn store_missing_message(kind: BuildKind) -> Seq<char> {
    match kind {
        BuildKind::Cargo => "仓库不存在"@,
        BuildKind::Just => "代码仓库不存在, 请先 push 代码"@,
    }
}

/// The failure of a build request whose program did not start.
pub open spec fn spawn_failure_of(kind: BuildKind) -> Failure {
    match kind {
        BuildKind::Cargo => Failure::CargoSpawnFailed,
        BuildKind::Just => Failure::JustSpawnFailed,
    }
}

/// The program a build request runs.
pub open spec fn program_of(kind: BuildKind) -> Seq<char> {
    match kind {
        BuildKind::Cargo => "cargo"@,
        BuildKind::Just => "just"@,
    }
}

/// Where a `cargo` or `just` request stands.
#[derive(Clone, Debug)]
pub enum BuildStage {
    /// Nothing is decided yet.
    Start,
    /// The job is being recorded; `store` is the bare repository.
    Recording { kind: BuildKind, store: String },
    /// The job `id` is recorded; whether the bare repository exists is asked.
    Checking { kind: BuildKind, id: String },
    /// `cargo` reads its options and builds its command line.
    Configuring,
    /// The branch is being checked out into the working copy.
    CheckingOut { kind: BuildKind },
    /// The client's patch is being applied.
    Applying { kind: BuildKind },
    /// The program is being started.
    Launching { kind: BuildKind },
    /// The program runs; its output goes to the client and the job.
    Running,
    /// The request is over.
    Done,
}

/// What happened in a `cargo` or `just` request.
#[derive(Clone, Debug)]
pub enum BuildEvent {
    /// The request came, in the server's directory `cwd`, with its `REPO` and
    /// `BRANCH` variables when set.
    Request { kind: BuildKind, cwd: String, repo: Option<String>, branch: Option<String> },
    /// The job was recorded under this identifier.
    JobCreated(String),
    /// Whether the bare repository exists.
    StoreExists(bool),
    /// Whether `cargo` could read its options and name its sub-command (the
    /// request has already failed with the reason when not).
    Configured(bool),
    /// Whether the checkout succeeded.
    CheckedOut(bool),
    /// Whether the patch applied.
    Applied(bool),
    /// The program started.
    Spawned,
    /// The program did not start, with this error.
    SpawnFailed(String),
    /// The program ended with this exit code (none: a signal ended it).
    Ended(Option<i32>),
    /// Copying the output or waiting for the program failed.
    StreamFailed,
}

/// What the server does next for a `cargo` or `just` request.
#[derive(Clone, Debug)]
pub enum BuildAction {
    /// Fail the request: a session variable is missing. Nothing is recorded.
    Missing(MissingSetting),
    /// Refuse the repository path. Nothing is recorded.
    RefusePath(RepoPathError),
    /// Record the job of the request.
    CreateJob,
    /// Tell the client `announce` when there is one, then ask whether the bare
    /// repository `store` exists.
    CheckStore { announce: Option<String>, store: String },
    /// Tell the client the error, end its output and close the channel; the
    /// job stays as it is.
    Refuse(String),
    /// Read `cargo`'s options and build its command line.
    Configure,
    /// Tell the client `announce` when there is one, then check the branch
    /// out into the working copy.
    CheckOut { announce: Option<String> },
    /// Apply the client's patch in the working copy.
    Apply,
    /// Start the program.
    Spawn,
    /// Fail the request (status and code of `failure`, with `message`) and
    /// finish the job with `job_code`.
    FailAndFinish { failure: Failure, message: String, job_code: i32 },
    /// Send the exit status and close the channel, then finish the job with
    /// `job_code`.
    ExitAndFinish { status: u32, job_code: i32 },
    /// Finish the job with `job_code`.
    Finish(i32),
    /// Nothing: the event does not belong to this stage.
    Nothing,
}

/// The next stage and action of a `cargo` or `just` request.
///
/// Without `REPO`, then without `BRANCH`, the request fails before anything is
/// recorded. A `just` request refuses a repository path that leaves the
/// repositories or has no name before recording its job; `cargo` records its
/// job first and announces it. Then a missing bare repository ends the request
/// with a message and leaves the job as it is. `cargo` then reads its options;
/// the branch is checked out (a `just` checkout failure ends the request, a
/// `cargo` one finishes the job with 1), the patch applied (a failure finishes
/// the job with 1), and the program started: one that does not start fails
/// the request with status 127 and finishes the job with 127; one that ends
/// gives its status and the job its code (128 for a signal); when copying or
/// waiting fails, the job finishes with 1.
pub fn build_step(stage: BuildStage, event: BuildEvent) -> (r: (BuildStage, BuildAction))
    ensures
        stage is Start ==> match event {
            BuildEvent::Request { kind, cwd, repo, branch } => if repo is None {
                r.0 is Done && r.1 == BuildAction::Missing(MissingSetting::Repo)
            } else if branch is None {
                r.0 is Done && r.1 == BuildAction::Missing(MissingSetting::Branch)
            } else if kind == BuildKind::Cargo {
                (r.0 matches BuildStage::Recording { kind: k, store } && k == kind && store@ == build_repo(
                    cwd@,
                    repo->0@,
                )) && r.1 is CreateJob
            } else {
                match repo_store(cwd@, repo->0@, false) {
                    Ok(st) => (r.0 matches BuildStage::Recording { kind: k, store } && k == kind && store@
                        == st) && r.1 is CreateJob,
                    Err(_) => r.0 is Done && (r.1 matches BuildAction::RefusePath(e) && same_outcome(
                        Err(e),
                        repo_store(cwd@, repo->0@, false),
                    )),
                }
            },
            _ => r.0 is Start && r.1 is Nothing,
        },
        stage matches BuildStage::Recording { kind, store } ==> match event {
            BuildEvent::JobCreated(id) => (r.0 matches BuildStage::Checking { kind: k, id: i } && k == kind
                && i@ == id@) && (r.1 matches BuildAction::CheckStore { announce, store: s } && s@ == store@
                && (kind == BuildKind::Cargo ==> (announce matches Some(a) && a@ == "job_id="@ + id@)) && (
            kind == BuildKind::Just ==> announce is None)),
            _ => r.0 == stage && r.1 is Nothing,
        },
        stage matches BuildStage::Checking { kind, id } ==> match event {
            BuildEvent::StoreExists(false) => r.0 is Done && (r.1 matches BuildAction::Refuse(m) && m@
                == store_missing_message(kind)),
            BuildEvent::StoreExists(true) => if kind == BuildKind::Cargo {
                r.0 is Configuring && r.1 is Configure
            } else {
                (r.0 matches BuildStage::CheckingOut { kind: k } && k == kind) && (r.1 matches BuildAction::CheckOut {
                    announce,
                } && announce matches Some(a) && a@ == "job_id="@ + id@)
            },
            _ => r.0 == stage && r.1 is Nothing,
        },
        stage is Configuring ==> match event {
            BuildEvent::Configured(true) => (r.0 matches BuildStage::CheckingOut { kind: k } && k
                == BuildKind::Cargo) && (r.1 matches BuildAction::CheckOut { announce } && announce is None),
            BuildEvent::Configured(false) => r.0 is Done && r.1 is Nothing,
            _ => r.0 is Configuring && r.1 is Nothing,
        },
        stage matches BuildStage::CheckingOut { kind } ==> match event {
            BuildEvent::CheckedOut(true) => (r.0 matches BuildStage::Applying { kind: k } && k == kind)
                && r.1 is Apply,
            BuildEvent::CheckedOut(false) => r.0 is Done && if kind == BuildKind::Cargo {
                r.1 == BuildAction::Finish(1)
            } else {
                r.1 matches BuildAction::Refuse(m) && m@ == "检出代码失败"@
            },
            _ => r.0 == stage && r.1 is Nothing,
        },
        stage matches BuildStage::Applying { kind } ==> match event {
            BuildEvent::Applied(true) => (r.0 matches BuildStage::Launching { kind: k } && k == kind)
                && r.1 is Spawn,
            BuildEvent::Applied(false) => r.0 is Done && r.1 == BuildAction::Finish(1),
            _ => r.0 == stage && r.1 is Nothing,
        },
        stage matches BuildStage::Launching { kind } ==> match event {
            BuildEvent::Spawned => r.0 is Running && r.1 is Nothing,
            BuildEvent::SpawnFailed(error) => r.0 is Done && (r.1 matches BuildAction::FailAndFinish {
                failure,
                message,
                job_code,
            } && failure == spawn_failure_of(kind) && message@ == "spawn: `"@ + program_of(kind) + "` failed: "@
                + error@ && job_code == 127),
            _ => r.0 == stage && r.1 is Nothing,
        },
        stage is Running ==> match event {
            BuildEvent::Ended(code) => r.0 is Done && (r.1 matches BuildAction::ExitAndFinish { status, job_code }
                && status == (match code {
                Some(c) => c as u32,
                None => 128u32,
            }) && job_code == (match code {
                Some(c) => c,
                None => 128i32,
            })),
            BuildEvent::StreamFailed => r.0 is Done && r.1 == BuildAction::Finish(1),
            _ => r.0 is Running && r.1 is Nothing,
        },
        stage is Done ==> r.0 is Done && r.1 is Nothing,
{
    match stage {
        BuildStage::Start => match event {
            BuildEvent::Request { kind, cwd, repo, branch } => match require_repo_branch(repo, branch) {
                Err(m) => (BuildStage::Done, BuildAction::Missing(m)),
                Ok((x, _b)) => match kind {
                    BuildKind::Cargo => {
                        let (store, _work) = build_paths(cwd.as_str(), x.as_str());
                        (BuildStage::Recording { kind, store }, BuildAction::CreateJob)
                    },
                    BuildKind::Just => match repo_store_of(cwd.as_str(), x.as_str(), false) {
                        Ok(store) => (BuildStage::Recording { kind, store }, BuildAction::CreateJob),
                        Err(e) => (BuildStage::Done, BuildAction::RefusePath(e)),
                    },
                },
            },
            _ => (BuildStage::Start, BuildAction::Nothing),
        },
        BuildStage::Recording { kind, store } => match event {
            BuildEvent::JobCreated(id) => {
                let announce = match kind {
                    BuildKind::Cargo => Some(job_announcement(id.as_str())),
                    BuildKind::Just => None,
                };
                let s = store.clone();
                (BuildStage::Checking { kind, id }, BuildAction::CheckStore { announce, store: s })
            },
            _ => (BuildStage::Recording { kind, store }, BuildAction::Nothing),
        },
        BuildStage::Checking { kind, id } => match event {
            BuildEvent::StoreExists(exists) => if !exists {
                let m = match kind {
                    BuildKind::Cargo => String::from_str("仓库不存在"),
                    BuildKind::Just => String::from_str("代码仓库不存在, 请先 push 代码"),
                };
                (BuildStage::Done, BuildAction::Refuse(m))
            } else {
                match kind {
                    BuildKind::Cargo => (BuildStage::Configuring, BuildAction::Configure),
                    BuildKind::Just => (
                        BuildStage::CheckingOut { kind },
                        BuildAction::CheckOut { announce: Some(job_announcement(id.as_str())) },
                    ),
                }
            },
            _ => (BuildStage::Checking { kind, id }, BuildAction::Nothing),
        },
        BuildStage::Configuring => match event {
            BuildEvent::Configured(ok) => if ok {
                (BuildStage::CheckingOut { kind: BuildKind::Cargo }, BuildAction::CheckOut { announce: None })
            } else {
                (BuildStage::Done, BuildAction::Nothing)
            },
            _ => (BuildStage::Configuring, BuildAction::Nothing),
        },
        BuildStage::CheckingOut { kind } => match event {
            BuildEvent::CheckedOut(ok) => if ok {
                (BuildStage::Applying { kind }, BuildAction::Apply)
            } else {
                match kind {
                    BuildKind::Cargo => (BuildStage::Done, BuildAction::Finish(1)),
                    BuildKind::Just => (BuildStage::Done, BuildAction::Refuse(String::from_str("检出代码失败"))),
                }
            },
            _ => (BuildStage::CheckingOut { kind }, BuildAction::Nothing),
        },
        BuildStage::Applying { kind } => match event {
            BuildEvent::Applied(ok) => if ok {
                (BuildStage::Launching { kind }, BuildAction::Spawn)
            } else {
                (BuildStage::Done, BuildAction::Finish(1))
            },
            _ => (BuildStage::Applying { kind }, BuildAction::Nothing),
        },
        BuildStage::Launching { kind } => match event {
            BuildEvent::Spawned => (BuildStage::Running, BuildAction::Nothing),
            BuildEvent::SpawnFailed(error) => {
                let (failure, program) = match kind {
                    BuildKind::Cargo => (Failure::CargoSpawnFailed, "cargo"),
                    BuildKind::Just => (Failure::JustSpawnFailed, "just"),
                };
                let message = spawn_failure_message(program, error.as_str());
                (BuildStage::Done, BuildAction::FailAndFinish { failure, message, job_code: 127 })
            },
            _ => (BuildStage::Launching { kind }, BuildAction::Nothing),
        },
        BuildStage::Running => match event {
            BuildEvent::Ended(code) => (
                BuildStage::Done,
                BuildAction::ExitAndFinish { status: exit_status_of(code), job_code: job_exit_code(code) },
            ),
            BuildEvent::StreamFailed => (BuildStage::Done, BuildAction::Finish(1)),
            _ => (BuildStage::Running, BuildAction::Nothing),
        },
        BuildStage::Done => (BuildStage::Done, BuildAction::Nothing),
    }
}

/// The line that announces a job: `job_id=<id>`.
pub fn job_announcement(id: &str) -> (r: String)
    ensures
        r@ == "job_id="@ + id@,
{
    let mut info = String::new();
    push_str(&mut info, "job_id=");
    push_str(&mut info, id);
    info
}

} // verus!
