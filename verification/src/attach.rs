//! The `job` action: listing jobs and attaching to one, on both sides of the
//! connection.
use vstd::prelude::*;
use crate::jobs::{JobEvent, JobSummary, SummaryView};
use crate::text::{
    blank, parse_unsigned, parse_unsigned_u64, decimal, decimal_i32, decimal_u64, is_blank, push_chars, push_str,
    signed_decimal, starts_with, str_equals, trim, trimmed,
};

verus! {

/// The option that asks for the output so far without following the job.
pub open spec fn no_follow_flag() -> Seq<char> {
    seq!['-', '-', 'n', 'o', '-', 'f', 'o', 'l', 'l', 'o', 'w']
}

/// An argument that looks like an option: it starts with `--`.
pub open spec fn is_option(a: Seq<char>) -> bool {
    a.len() >= 2 && a[0] == '-' && a[1] == '-'
}

/// Some argument before position `i` is positional (not an option).
pub open spec fn positional_before(args: Seq<Seq<char>>, i: int) -> bool {
    exists|j: int| 0 <= j < i && !is_option(#[trigger] args[j])
}

/// Argument `i` of `attach` is refused: an option other than `--no-follow`, or
/// a second positional argument.
pub open spec fn refused_at(args: Seq<Seq<char>>, i: int) -> bool {
    if is_option(args[i]) {
        args[i] != no_follow_flag()
    } else {
        positional_before(args, i)
    }
}

/// Argument `i` is the first refused one.
pub open spec fn first_refused(args: Seq<Seq<char>>, i: int) -> bool {
    &&& 0 <= i < args.len()
    &&& refused_at(args, i)
    &&& forall|j: int| 0 <= j < i ==> !refused_at(args, j)
}

/// A request of the `job` action.
#[derive(Clone, Debug)]
pub enum JobCommand {
    /// List the jobs the user sees.
    List,
    /// Show a job's output, then follow it unless `follow` is false. Without
    /// an identifier, the one running job is meant.
    Attach { id: Option<String>, follow: bool },
}

/// Why a request of the `job` action is refused.
#[derive(Clone, Debug)]
pub enum JobRequestError {
    /// `attach` got an option it does not know, or a second job identifier.
    UnsupportedArgument(String),
    /// The sub-command is neither `list` nor `attach`.
    UnknownCommand(String),
}

impl JobRequestError {
    /// The exit status the request ends with.
    pub fn exit_status(&self) -> (r: u32)
        ensures
            r == 2,
    {
        2
    }

    /// The error code sent to the client.
    pub fn code(&self) -> (r: &'static str)
        ensures
            r@ == "HSSH_JOB_BAD_REQUEST"@,
    {
        "HSSH_JOB_BAD_REQUEST"
    }

    /// The message sent to the client.
    pub fn message(&self) -> (r: String)
        ensures
            self matches JobRequestError::UnsupportedArgument(a) ==> r@ == "不支持的参数: "@ + a@
                + ", 用法: attach [job_id] [--no-follow]"@,
            self matches JobRequestError::UnknownCommand(c) ==> r@ == "不支持的 job 命令: "@ + c@,
    {
        let mut m = String::new();
        match self {
            JobRequestError::UnsupportedArgument(a) => {
                push_str(&mut m, "不支持的参数: ");
                push_str(&mut m, a.as_str());
                push_str(&mut m, ", 用法: attach [job_id] [--no-follow]");
            },
            JobRequestError::UnknownCommand(c) => {
                push_str(&mut m, "不支持的 job 命令: ");
                push_str(&mut m, c.as_str());
            },
        }
        m
    }
}

/// Whether `a` is `--no-follow`.
fn is_no_follow(a: &str) -> (r: bool)
    ensures
        r == (a@ == no_follow_flag()),
{
    proof {
        reveal_strlit("--no-follow");
        assert("--no-follow"@ =~= no_follow_flag());
    }
    str_equals(a, "--no-follow")
}

/// Whether `a` starts with `--`.
fn looks_like_option(a: &str) -> (r: bool)
    ensures
        r == is_option(a@),
{
    proof {
        reveal_strlit("--");
    }
    let r = starts_with(a, "--");
    proof {
        if r {
            assert(a@.take(2)[0] == a@[0]);
            assert(a@.take(2)[1] == a@[1]);
        } else if is_option(a@) {
            assert(a@.take(2) =~= "--"@);
        }
    }
    r
}

/// Reads the arguments of the `job` action (the first names the sub-command,
/// `list` when there is none).
///
/// `attach [job_id] [--no-follow]` takes at most one identifier and no option
/// but `--no-follow`; the first argument that breaks this is reported. A
/// blank identifier counts as none.
pub fn parse_job_command(command: &Vec<String>) -> (r: Result<JobCommand, JobRequestError>)
    ensures
        command@.len() == 0 || command@[0]@ == "list"@ ==> r matches Ok(JobCommand::List),
        command@.len() > 0 && command@[0]@ != "list"@ && command@[0]@ != "attach"@ ==> (r matches Err(
            JobRequestError::UnknownCommand(c),
        ) && c@ == command@[0]@),
        command@.len() > 0 && command@[0]@ == "attach"@ ==> {
            let args = command@.skip(1).map_values(|s: String| s@);
            &&& (r is Ok <==> forall|i: int| 0 <= i < args.len() ==> !refused_at(args, i))
            &&& (r matches Err(JobRequestError::UnsupportedArgument(a)) ==> exists|i: int|
                first_refused(args, i) && a@ == #[trigger] args[i])
            &&& (r matches Err(e) ==> e is UnsupportedArgument)
            &&& (r matches Ok(JobCommand::Attach { id, follow }) ==> {
                &&& follow == !args.contains(no_follow_flag())
                &&& (id is Some <==> exists|j: int|
                    0 <= j < args.len() && !is_option(#[trigger] args[j]) && !is_blank(args[j]))
                &&& (id matches Some(x) ==> exists|j: int|
                    0 <= j < args.len() && !is_option(#[trigger] args[j]) && x@ == args[j])
            })
            &&& (r is Ok ==> r matches Ok(JobCommand::Attach { .. }))
        },
{
    proof {
        reveal_strlit("list");
        reveal_strlit("attach");
        assert("list"@.len() != "attach"@.len());
    }
    if command.len() == 0 || str_equals(command[0].as_str(), "list") {
        return Ok(JobCommand::List);
    }
    if !str_equals(command[0].as_str(), "attach") {
        return Err(JobRequestError::UnknownCommand(command[0].clone()));
    }
    let ghost args = command@.skip(1).map_values(|s: String| s@);
    let mut id: Option<String> = None;
    let mut follow = true;
    let mut i: usize = 1;
    while i < command.len()
        invariant
            1 <= i <= command@.len(),
            command@[0]@ == "attach"@,
            "list"@ != "attach"@,
            args == command@.skip(1).map_values(|s: String| s@),
            forall|j: int| 0 <= j < i - 1 ==> !refused_at(args, j),
            follow == !args.take(i - 1).contains(no_follow_flag()),
            id is Some <==> positional_before(args, i - 1),
            id matches Some(x) ==> exists|j: int|
                0 <= j < i - 1 && !is_option(#[trigger] args[j]) && x@ == args[j],
            id matches Some(x) ==> forall|j: int|
                0 <= j < i - 1 && !is_option(#[trigger] args[j]) ==> x@ == args[j],
        decreases command@.len() - i,
    {
        let arg = command[i].as_str();
        let ghost k = i - 1;
        assert(args[k] == command@[i as int]@);
        assert(args.take(k + 1) =~= args.take(k).push(args[k]));
        if is_no_follow(arg) {
            follow = false;
            assert(args.take(k + 1)[k] == no_follow_flag());
        } else if looks_like_option(arg) {
            assert(first_refused(args, k));
            return Err(JobRequestError::UnsupportedArgument(command[i].clone()));
        } else if id.is_none() {
            id = Some(command[i].clone());
            assert(!is_no_follow_spec(args[k]));
        } else {
            assert(first_refused(args, k));
            return Err(JobRequestError::UnsupportedArgument(command[i].clone()));
        }
        proof {
            if !is_no_follow_spec(args[k]) {
                assert(args.take(k + 1).contains(no_follow_flag()) == args.take(k).contains(
                    no_follow_flag(),
                )) by {
                    if args.take(k + 1).contains(no_follow_flag()) {
                        let t = choose|t: int| 0 <= t < k + 1 && #[trigger] args.take(k + 1)[t] == no_follow_flag();
                        assert(t != k);
                        assert(args.take(k)[t] == no_follow_flag());
                    }
                    if args.take(k).contains(no_follow_flag()) {
                        let t = choose|t: int| 0 <= t < k && #[trigger] args.take(k)[t] == no_follow_flag();
                        assert(args.take(k + 1)[t] == no_follow_flag());
                    }
                }
            } else {
                assert(args.take(k + 1).contains(no_follow_flag()));
            }
        }
        i = i + 1;
    }
    assert(args.take(args.len() as int) =~= args);
    let id = match id {
        Some(x) => {
            if blank(x.as_str()) {
                None
            } else {
                Some(x)
            }
        },
        None => None,
    };
    Ok(JobCommand::Attach { id, follow })
}

/// Whether `a` is `--no-follow` (spec form, for case splits).
pub open spec fn is_no_follow_spec(a: Seq<char>) -> bool {
    a == no_follow_flag()
}

/// The rows of running jobs, in order.
pub open spec fn running_rows(rows: Seq<SummaryView>) -> Seq<SummaryView> {
    rows.filter(|r: SummaryView| r.running)
}

/// The views of listing rows.
pub open spec fn summary_views(rows: Seq<JobSummary>) -> Seq<SummaryView> {
    rows.map_values(|r: JobSummary| r@)
}

/// Why `attach` found no job to attach to.
#[derive(Clone, Debug)]
pub enum AttachError {
    /// No identifier was given and no visible job is running.
    NoRunningJob,
    /// No identifier was given and several visible jobs are running; they are
    /// listed to the client.
    Ambiguous(Vec<JobSummary>),
    /// The identifier names no job the user may see.
    NotFound(String),
}

impl AttachError {
    /// The exit status the request ends with.
    pub fn exit_status(&self) -> (r: u32)
        ensures
            r == 2,
    {
        2
    }

    /// The error code sent to the client.
    pub fn code(&self) -> (r: &'static str)
        ensures
            self is Ambiguous ==> r@ == "HSSH_JOB_AMBIGUOUS"@,
            !(self is Ambiguous) ==> r@ == "HSSH_JOB_NOT_FOUND"@,
    {
        match self {
            AttachError::Ambiguous(_) => "HSSH_JOB_AMBIGUOUS",
            _ => "HSSH_JOB_NOT_FOUND",
        }
    }

    /// The message sent to the client.
    pub fn message(&self) -> (r: String)
        ensures
            self is NoRunningJob ==> r@ == "没有运行中的任务"@,
            self is Ambiguous ==> r@ == "存在多个运行中的任务，请指定 job_id"@,
            self matches AttachError::NotFound(id) ==> r@ == "未找到任务: "@ + id@,
    {
        let mut m = String::new();
        match self {
            AttachError::NoRunningJob => push_str(&mut m, "没有运行中的任务"),
            AttachError::Ambiguous(_) => push_str(&mut m, "存在多个运行中的任务，请指定 job_id"),
            AttachError::NotFound(id) => {
                push_str(&mut m, "未找到任务: ");
                push_str(&mut m, id.as_str());
            },
        }
        m
    }
}

/// The job an `attach` request means: the identifier it names, or else the one
/// running job among those the user sees (`visible`, as listed).
pub fn attach_target(id: Option<String>, visible: &Vec<JobSummary>) -> (r: Result<String, AttachError>)
    ensures
        id matches Some(x) ==> (r matches Ok(y) && y@ == x@),
        id is None ==> {
            let run = running_rows(summary_views(visible@));
            &&& (run.len() == 0 ==> r matches Err(AttachError::NoRunningJob))
            &&& (run.len() == 1 ==> (r matches Ok(y) && y@ == run[0].id))
            &&& (run.len() > 1 ==> (r matches Err(AttachError::Ambiguous(rows)) && summary_views(rows@) == run))
        },
{
    match id {
        Some(x) => Ok(x),
        None => {
            let ghost all = summary_views(visible@);
            let mut running: Vec<JobSummary> = Vec::new();
            let mut i: usize = 0;
            while i < visible.len()
                invariant
                    i <= visible@.len(),
                    all == summary_views(visible@),
                    summary_views(running@) == running_rows(all.take(i as int)),
                decreases visible@.len() - i,
            {
                proof {
                    assert(all.take(i + 1).drop_last() =~= all.take(i as int));
                    assert(all.take(i + 1).last() == visible@[i as int]@);
                    reveal_with_fuel(Seq::filter, 1);
                }
                if visible[i].running {
                    let ghost before = running@;
                    running.push(visible[i].copied());
                    proof {
                        assert(summary_views(running@) =~= summary_views(before).push(visible@[i as int]@));
                    }
                } else {
                }
                i = i + 1;
            }
            assert(all.take(visible@.len() as int) =~= all);
            if running.len() == 0 {
                Err(AttachError::NoRunningJob)
            } else if running.len() == 1 {
                assert(summary_views(running@)[0] == running@[0]@);
                Ok(running[0].id.clone())
            } else {
                Err(AttachError::Ambiguous(running))
            }
        },
    }
}

/// The bytes of a string in UTF-8.
pub open spec fn utf8(s: Seq<char>) -> Seq<u8> {
    vstd::utf8::encode_utf8(s)
}

/// The note telling how much output fell out of a job's buffer.
pub open spec fn dropped_line(d: u64) -> Seq<char> {
    "[JOB] dropped_bytes="@ + decimal(d as nat) + "\n"@
}

/// The note telling how a job ended.
pub open spec fn exit_line(code: i32) -> Seq<char> {
    "\n[JOB] exit_code="@ + signed_decimal(code as int) + "\n"@
}

/// The note telling that a follower missed events.
pub open spec fn lagged_line(n: u64) -> Seq<char> {
    "\n[JOB] lagged_frames="@ + decimal(n as nat) + "\n"@
}

/// Appends the UTF-8 bytes of `s` to `out`.
fn push_utf8(out: &mut Vec<u8>, s: &String)
    ensures
        final(out)@ == old(out)@ + utf8(s@),
{
    let b = s.as_str().as_bytes();
    push_bytes(out, b);
}

/// Appends `b` to `out`.
fn push_bytes(out: &mut Vec<u8>, b: &[u8])
    ensures
        final(out)@ == old(out)@ + b@,
{
    let mut i: usize = 0;
    while i < b.len()
        invariant
            i <= b@.len(),
            out@ == old(out)@ + b@.take(i as int),
        decreases b@.len() - i,
    {
        out.push(b[i]);
        i = i + 1;
        assert(b@.take(i as int) =~= b@.take(i - 1).push(b@[i - 1]));
    }
    assert(b@.take(b@.len() as int) =~= b@);
}

/// The note telling how much output fell out of a job's buffer.
fn dropped_note(d: u64) -> (r: String)
    ensures
        r@ == dropped_line(d),
{
    let mut m = String::new();
    push_str(&mut m, "[JOB] dropped_bytes=");
    push_chars(&mut m, &decimal_u64(d));
    push_str(&mut m, "\n");
    m
}

/// The note telling how a job ended.
fn exit_note(code: i32) -> (r: String)
    ensures
        r@ == exit_line(code),
{
    let mut m = String::new();
    push_str(&mut m, "\n[JOB] exit_code=");
    push_chars(&mut m, &decimal_i32(code));
    push_str(&mut m, "\n");
    m
}

/// The note telling that a follower missed events.
fn lagged_note(n: u64) -> (r: String)
    ensures
        r@ == lagged_line(n),
{
    let mut m = String::new();
    push_str(&mut m, "\n[JOB] lagged_frames=");
    push_chars(&mut m, &decimal_u64(n));
    push_str(&mut m, "\n");
    m
}

/// What an attached client first receives: a note on dropped output, the
/// buffered output, and, when the job is not followed further, how it ended.
/// The flag says whether to follow the job's events: asked for, and the job
/// still runs.
pub fn attach_preamble(snapshot: &Vec<u8>, exit_code: Option<i32>, dropped_bytes: u64, follow: bool) -> (r: (Vec<u8>, bool))
    ensures
        r.1 == (follow && exit_code is None),
        r.0@ == (if dropped_bytes > 0 { utf8(dropped_line(dropped_bytes)) } else { Seq::empty() })
            + snapshot@ + (match exit_code {
            Some(c) if !r.1 => utf8(exit_line(c)),
            _ => Seq::empty(),
        }),
{
    let mut out: Vec<u8> = Vec::new();
    if dropped_bytes > 0 {
        push_utf8(&mut out, &dropped_note(dropped_bytes));
    }
    push_bytes(&mut out, snapshot.as_slice());
    let subscribe = follow && exit_code.is_none();
    if !subscribe {
        match exit_code {
            Some(c) => push_utf8(&mut out, &exit_note(c)),
            None => {},
        }
    }
    proof {
        assert(Seq::<u8>::empty() + snapshot@ =~= snapshot@);
        assert(out@ =~= (if dropped_bytes > 0 { utf8(dropped_line(dropped_bytes)) } else { Seq::empty() })
            + snapshot@ + (match exit_code {
            Some(c) if !subscribe => utf8(exit_line(c)),
            _ => Seq::empty(),
        }));
    }
    (out, subscribe)
}

/// What a follower of a job can receive.
#[derive(Clone, Debug)]
pub enum Received {
    /// An event of the job.
    Event(JobEvent),
    /// The job's event stream ended.
    Closed,
    /// The follower fell behind and missed this many events.
    Lagged(u64),
}

/// What a follower writes for one received item, and whether following stops:
/// output is passed on, the end of the job is noted and stops, a closed
/// stream stops, missed events are noted.
pub fn follow_step(item: &Received) -> (r: (Vec<u8>, bool))
    ensures
        item matches Received::Event(JobEvent::Output(d)) ==> r.0@ == d@ && !r.1,
        item matches Received::Event(JobEvent::Done(c)) ==> r.0@ == utf8(exit_line(*c)) && r.1,
        item is Closed ==> r.0@ == Seq::<u8>::empty() && r.1,
        item matches Received::Lagged(n) ==> r.0@ == utf8(lagged_line(*n)) && !r.1,
{
    let mut out: Vec<u8> = Vec::new();
    match item {
        Received::Event(JobEvent::Output(d)) => {
            push_bytes(&mut out, d.as_slice());
            assert(out@ =~= d@);
            (out, false)
        },
        Received::Event(JobEvent::Done(c)) => {
            push_utf8(&mut out, &exit_note(*c));
            assert(out@ =~= utf8(exit_line(*c)));
            (out, true)
        },
        Received::Closed => (out, true),
        Received::Lagged(n) => {
            push_utf8(&mut out, &lagged_note(*n));
            assert(out@ =~= utf8(lagged_line(*n)));
            (out, false)
        },
    }
}

// ---------------------------------------------------------------------------
// Client side
// ---------------------------------------------------------------------------

/// Whether a client's `job` command should let the user pick the running job:
/// it is `attach` with no argument but `--no-follow`.
pub fn should_prompt_attach_selection(command: &Vec<String>) -> (r: bool)
    ensures
        r == (command@.len() > 0 && command@[0]@ == "attach"@ && forall|i: int|
            1 <= i < command@.len() ==> #[trigger] command@[i]@ == no_follow_flag()),
{
    proof {
        reveal_strlit("attach");
    }
    if command.len() == 0 || !str_equals(command[0].as_str(), "attach") {
        return false;
    }
    let mut i: usize = 1;
    while i < command.len()
        invariant
            1 <= i <= command@.len(),
            forall|k: int| 1 <= k < i ==> #[trigger] command@[k]@ == no_follow_flag(),
        decreases command@.len() - i,
    {
        if !is_no_follow(command[i].as_str()) {
            return false;
        }
        i = i + 1;
    }
    true
}

/// Whether the command asks not to follow (`--no-follow` among its arguments).
pub fn wants_no_follow(command: &Vec<String>) -> (r: bool)
    ensures
        r == exists|i: int| 0 <= i < command@.len() && #[trigger] command@[i]@ == no_follow_flag(),
{
    let mut i: usize = 0;
    while i < command.len()
        invariant
            i <= command@.len(),
            forall|k: int| 0 <= k < i ==> #[trigger] command@[k]@ != no_follow_flag(),
        decreases command@.len() - i,
    {
        if is_no_follow(command[i].as_str()) {
            return true;
        }
        i = i + 1;
    }
    false
}

/// The `job` command that attaches to the job the user picked, keeping
/// `--no-follow` when it was asked for.
pub fn attach_command(job_id: String, keep_no_follow: bool) -> (r: Vec<String>)
    ensures
        keep_no_follow ==> r@.len() == 3 && r@[2]@ == no_follow_flag(),
        !keep_no_follow ==> r@.len() == 2,
        r@[0]@ == "attach"@,
        r@[1]@ == job_id@,
{
    let mut r: Vec<String> = Vec::new();
    r.push(String::from_str("attach"));
    r.push(job_id);
    if keep_no_follow {
        proof {
            reveal_strlit("--no-follow");
            assert("--no-follow"@ =~= no_follow_flag());
        }
        r.push(String::from_str("--no-follow"));
    }
    r
}

/// A row of the job listing as the client reads it.
#[derive(Clone, Debug)]
pub struct JobListRow {
    pub id: String,
    pub running: bool,
    pub action: String,
    pub command: String,
}

/// The rows of running jobs, in order.
pub fn running_jobs(rows: Vec<JobListRow>) -> (r: Vec<JobListRow>)
    ensures
        r@ == rows@.filter(|row: JobListRow| row.running),
{
    let ghost all = rows@;
    let mut rest = rows;
    let mut out: Vec<JobListRow> = Vec::new();
    while rest.len() > 0
        invariant
            rest@.len() <= all.len(),
            rest@ == all.skip(all.len() - rest@.len()),
            out@ == all.take(all.len() - rest@.len()).filter(|row: JobListRow| row.running),
        decreases rest@.len(),
    {
        let ghost k: int = all.len() - rest@.len();
        proof {
            assert(all.take(k + 1).drop_last() =~= all.take(k));
            assert(all.take(k + 1).last() == rest@[0]);
            reveal_with_fuel(Seq::filter, 1);
        }
        let row = rest.remove(0);
        assert(rest@ =~= all.skip(k + 1));
        if row.running {
            out.push(row);
        }
    }
    assert(all.take(all.len() as int) =~= all);
    out
}

/// What the client does with the running jobs before attaching.
#[derive(Clone, Debug)]
pub enum Selection {
    /// No job runs: attach as asked.
    Nothing,
    /// One job runs: attach to it.
    Only(String),
    /// Several run: the user chooses.
    Choose,
}

/// What to do given the running jobs.
pub fn selection(running: &Vec<JobListRow>) -> (r: Selection)
    ensures
        running@.len() == 0 ==> r is Nothing,
        running@.len() == 1 ==> (r matches Selection::Only(id) && id@ == running@[0].id@),
        running@.len() > 1 ==> r is Choose,
{
    if running.len() == 0 {
        Selection::Nothing
    } else if running.len() == 1 {
        Selection::Only(running[0].id.clone())
    } else {
        Selection::Choose
    }
}

/// A listing field as shown in the menu: `-` when empty.
pub fn shown_or_dash(s: &str) -> (r: String)
    ensures
        s@.len() == 0 ==> r@ == "-"@,
        s@.len() > 0 ==> r@ == s@,
{
    if s.is_empty() {
        String::from_str("-")
    } else {
        String::from_str(s)
    }
}

/// The position (from 0) the user picked among `total` jobs, numbered from 1:
/// the trimmed input read as a number in `1..=total`.
pub fn parse_choice(input: &str, total: usize) -> (r: Option<usize>)
    ensures
        r matches Some(k) ==> parse_unsigned(trim(input@), usize::MAX as nat) == Some((k + 1) as nat) && k < total,
        r is None ==> !(parse_unsigned(trim(input@), usize::MAX as nat) matches Some(n) && 1 <= n <= total),
{
    let t = trimmed(input);
    match parse_unsigned_u64(t.as_str(), usize::MAX as u64) {
        Some(n) => {
            if 1 <= n && n <= total as u64 {
                Some((n - 1) as usize)
            } else {
                None
            }
        },
        None => None,
    }
}

} // verus!
