//! Server-side job registry: every long-running command (`cmd`, `cargo`, `just`)
//! is recorded with a bounded output buffer so that clients can list jobs and
//! attach to them later.
use std::collections::VecDeque;
use vstd::prelude::*;
use crate::text::{chars_of, hex, hex_u128, is_hex_char, lemma_hex_digits, lemma_hex_injective, push_chars, str_equals, string_of};

verus! {

/// Jobs kept by a registry made with `JobRegistry::default`.
pub const DEFAULT_MAX_JOBS: usize = 256;

/// Output bytes kept per job by a registry made with `JobRegistry::default`.
pub const DEFAULT_MAX_BYTES_PER_JOB: usize = 4194304;

/// What a job announces to the clients attached to it.
#[derive(Clone, Debug)]
pub enum JobEvent {
    /// A chunk of output, exactly as it was produced.
    Output(Vec<u8>),
    /// The job ended with this exit code.
    Done(i32),
}

/// One row of a job listing.
#[derive(Clone, Debug)]
pub struct JobSummary {
    pub id: String,
    pub owner: String,
    pub action: String,
    pub command: String,
    pub started_at_ms: u64,
    pub finished_at_ms: Option<u64>,
    pub exit_code: Option<i32>,
    pub running: bool,
    pub dropped_bytes: u64,
    pub subscribers: usize,
}

/// The mathematical content of a job listing row.
pub struct SummaryView {
    pub id: Seq<char>,
    pub owner: Seq<char>,
    pub action: Seq<char>,
    pub command: Seq<char>,
    pub started_at_ms: u64,
    pub finished_at_ms: Option<u64>,
    pub exit_code: Option<i32>,
    pub running: bool,
    pub dropped_bytes: u64,
    pub subscribers: nat,
}

impl View for JobSummary {
    type V = SummaryView;

    open spec fn view(&self) -> SummaryView {
        SummaryView {
            id: self.id@,
            owner: self.owner@,
            action: self.action@,
            command: self.command@,
            started_at_ms: self.started_at_ms,
            finished_at_ms: self.finished_at_ms,
            exit_code: self.exit_code,
            running: self.running,
            dropped_bytes: self.dropped_bytes,
            subscribers: self.subscribers as nat,
        }
    }
}

impl JobSummary {
    /// A copy of this row.
    pub fn copied(&self) -> (r: JobSummary)
        ensures
            r@ == self@,
    {
        JobSummary {
            id: self.id.clone(),
            owner: self.owner.clone(),
            action: self.action.clone(),
            command: self.command.clone(),
            started_at_ms: self.started_at_ms,
            finished_at_ms: self.finished_at_ms,
            exit_code: self.exit_code,
            running: self.running,
            dropped_bytes: self.dropped_bytes,
            subscribers: self.subscribers,
        }
    }
}

/// One job: who started it, what it runs, the tail of its output and how it ended.
pub struct JobRecord {
    id: String,
    owner: String,
    action: String,
    command: String,
    started_at_ms: u64,
    max_bytes: usize,
    buffer: VecDeque<u8>,
    dropped_bytes: u64,
    finished_at_ms: Option<u64>,
    exit_code: Option<i32>,
    subscribers: usize,
}

/// The mathematical content of a job.
pub struct JobView {
    pub id: Seq<char>,
    pub owner: Seq<char>,
    pub action: Seq<char>,
    pub command: Seq<char>,
    pub started_at_ms: u64,
    pub max_bytes: nat,
    pub buffer: Seq<u8>,
    pub dropped_bytes: u64,
    pub finished_at_ms: Option<u64>,
    pub exit_code: Option<i32>,
    pub subscribers: nat,
}

impl View for JobRecord {
    type V = JobView;

    closed spec fn view(&self) -> JobView {
        JobView {
            id: self.id@,
            owner: self.owner@,
            action: self.action@,
            command: self.command@,
            started_at_ms: self.started_at_ms,
            max_bytes: self.max_bytes as nat,
            buffer: self.buffer@,
            dropped_bytes: self.dropped_bytes,
            finished_at_ms: self.finished_at_ms,
            exit_code: self.exit_code,
            subscribers: self.subscribers as nat,
        }
    }
}

/// A job is well formed when its buffer respects its bound and it ended
/// exactly when it has an end time.
pub open spec fn job_wf(j: JobView) -> bool {
    &&& j.buffer.len() <= j.max_bytes
    &&& (j.exit_code is Some <==> j.finished_at_ms is Some)
}

/// A job has finished once it holds an exit code.
pub open spec fn finished(j: JobView) -> bool {
    j.exit_code is Some
}

/// The listing row of a job.
pub open spec fn summary_of(j: JobView) -> SummaryView {
    SummaryView {
        id: j.id,
        owner: j.owner,
        action: j.action,
        command: j.command,
        started_at_ms: j.started_at_ms,
        finished_at_ms: j.finished_at_ms,
        exit_code: j.exit_code,
        running: j.exit_code is None,
        dropped_bytes: j.dropped_bytes,
        subscribers: j.subscribers,
    }
}

/// A user sees a job when the user is an administrator or owns the job.
pub open spec fn visible_to(j: JobView, user: Seq<char>, is_admin: bool) -> bool {
    is_admin || j.owner == user
}

/// How many bytes leave the buffer when `incoming` more bytes arrive at a buffer
/// holding `held` bytes with room for `max`.
pub open spec fn overflow(held: nat, incoming: nat, max: nat) -> nat {
    if held + incoming > max {
        (held + incoming - max) as nat
    } else {
        0
    }
}

/// `a + b`, saturating at `u64::MAX`.
pub open spec fn saturating_add_u64(a: u64, b: nat) -> u64 {
    if a + b > u64::MAX {
        u64::MAX
    } else {
        (a + b) as u64
    }
}

/// The job after `bytes` were appended to its output: the buffer keeps the
/// newest `max_bytes` bytes and the dropped ones are counted.
pub open spec fn appended(j: JobView, bytes: Seq<u8>) -> JobView {
    if bytes.len() == 0 {
        j
    } else {
        let all = j.buffer + bytes;
        let over = overflow(j.buffer.len(), bytes.len(), j.max_bytes);
        JobView {
            buffer: all.skip(over as int),
            dropped_bytes: saturating_add_u64(j.dropped_bytes, over),
            ..j
        }
    }
}

/// The job after it was reported finished at `now` with `code`: only the first
/// report counts.
pub open spec fn finished_with(j: JobView, code: i32, now: u64) -> JobView {
    if j.exit_code is None {
        JobView { exit_code: Some(code), finished_at_ms: Some(now), ..j }
    } else {
        j
    }
}

/// The identifier given to the job started at `started` with sequence number `seq`:
/// `job-<started in hex>-<seq in hex>`.
pub open spec fn job_id(started: u64, seq: u64) -> Seq<char> {
    seq!['j', 'o', 'b', '-'] + hex(started as nat) + seq!['-'] + hex(seq as nat)
}

/// A fresh job, with an empty buffer and no subscriber.
pub open spec fn new_job(
    id: Seq<char>,
    owner: Seq<char>,
    action: Seq<char>,
    command: Seq<char>,
    started: u64,
    max_bytes: nat,
) -> JobView {
    JobView {
        id,
        owner,
        action,
        command,
        started_at_ms: started,
        max_bytes,
        buffer: Seq::empty(),
        dropped_bytes: 0,
        finished_at_ms: None,
        exit_code: None,
        subscribers: 0,
    }
}

impl JobRecord {
    /// The record is well formed.
    pub open spec fn wf(&self) -> bool {
        job_wf(self@)
    }

    /// A fresh job.
    pub fn new(
        id: String,
        owner: String,
        action: String,
        command: String,
        started_at_ms: u64,
        max_bytes: usize,
    ) -> (r: JobRecord)
        ensures
            r@ == new_job(id@, owner@, action@, command@, started_at_ms, max_bytes as nat),
            r.wf(),
    {
        JobRecord {
            id,
            owner,
            action,
            command,
            started_at_ms,
            max_bytes,
            buffer: VecDeque::new(),
            dropped_bytes: 0,
            finished_at_ms: None,
            exit_code: None,
            subscribers: 0,
        }
    }

    /// The job's identifier.
    pub fn id(&self) -> (r: &str)
        ensures
            r@ == self@.id,
    {
        self.id.as_str()
    }

    /// The user who started the job.
    pub fn owner(&self) -> (r: &str)
        ensures
            r@ == self@.owner,
    {
        self.owner.as_str()
    }

    /// When the job started, in milliseconds since the Unix epoch.
    pub fn started_at_ms(&self) -> (r: u64)
        ensures
            r == self@.started_at_ms,
    {
        self.started_at_ms
    }

    /// Whether the job has ended.
    pub fn is_finished(&self) -> (r: bool)
        ensures
            r == finished(self@),
    {
        self.exit_code.is_some()
    }

    /// Records one more client attached to the job's events.
    pub fn subscribe(&mut self)
        requires
            old(self).wf(),
        ensures
            final(self).wf(),
            final(self)@ == (JobView {
                subscribers: if old(self)@.subscribers < usize::MAX {
                    old(self)@.subscribers + 1
                } else {
                    old(self)@.subscribers
                },
                ..old(self)@
            }),
    {
        self.subscribers = self.subscribers.saturating_add(1);
    }

    /// Records that a client detached from the job's events.
    pub fn unsubscribe(&mut self)
        requires
            old(self).wf(),
        ensures
            final(self).wf(),
            final(self)@ == (JobView {
                subscribers: if old(self)@.subscribers > 0 {
                    (old(self)@.subscribers - 1) as nat
                } else {
                    0
                },
                ..old(self)@
            }),
    {
        self.subscribers = self.subscribers.saturating_sub(1);
    }

    /// Appends output to the job: the buffer keeps the newest bytes up to the
    /// job's bound and counts the bytes that fall out. Returns the event to
    /// broadcast, none for empty output.
    pub fn append_output(&mut self, bytes: &[u8]) -> (ev: Option<JobEvent>)
        requires
            old(self).wf(),
            old(self)@.buffer.len() + bytes@.len() <= usize::MAX,
        ensures
            final(self).wf(),
            final(self)@ == appended(old(self)@, bytes@),
            bytes@.len() == 0 ==> ev is None,
            bytes@.len() > 0 ==> (ev matches Some(JobEvent::Output(out)) && out@ == bytes@),
    {
        if bytes.len() == 0 {
            return None;
        }
        let ghost all = self.buffer@ + bytes@;
        let held = self.buffer.len();
        let total: usize = held + bytes.len();
        let over: usize = if total > self.max_bytes {
            total - self.max_bytes
        } else {
            0
        };
        let from_buffer: usize = if over < held {
            over
        } else {
            held
        };
        let mut k: usize = 0;
        while k < from_buffer
            invariant
                k <= from_buffer <= held,
                held == old(self)@.buffer.len(),
                self.buffer@ == old(self)@.buffer.skip(k as int),
                self@ == (JobView { buffer: self.buffer@, ..old(self)@ }),
            decreases from_buffer - k,
        {
            let _ = self.buffer.pop_front();
            k = k + 1;
            assert(old(self)@.buffer.skip(k as int) =~= old(self)@.buffer.skip(k - 1).subrange(
                1,
                old(self)@.buffer.skip(k - 1).len() as int,
            ));
        }
        let skip: usize = over - from_buffer;
        let mut i: usize = skip;
        proof {
            assert(skip == 0 || from_buffer == held);
            assert(self.buffer@ + bytes@.skip(skip as int) =~= all.skip(over as int));
        }
        while i < bytes.len()
            invariant
                skip <= i <= bytes.len(),
                self.buffer@ + bytes@.skip(i as int) == all.skip(over as int),
                self@ == (JobView { buffer: self.buffer@, ..old(self)@ }),
            decreases bytes.len() - i,
        {
            let ghost before = self.buffer@;
            self.buffer.push_back(bytes[i]);
            proof {
                assert(bytes@.skip(i as int) =~= seq![bytes@[i as int]] + bytes@.skip(i + 1));
                assert(before + bytes@.skip(i as int) =~= before.push(bytes@[i as int])
                    + bytes@.skip(i + 1));
            }
            i = i + 1;
        }
        proof {
            assert(bytes@.skip(bytes.len() as int) =~= Seq::<u8>::empty());
            assert(self.buffer@ + Seq::<u8>::empty() =~= self.buffer@);
        }
        self.dropped_bytes = self.dropped_bytes.saturating_add(over as u64);
        Some(JobEvent::Output(slice_to_vec(bytes)))
    }

    /// Reports the job finished at `now_ms` with `exit_code`. Only the first
    /// report counts; it returns the event to broadcast, later ones none.
    pub fn finish_at(&mut self, exit_code: i32, now_ms: u64) -> (ev: Option<JobEvent>)
        requires
            old(self).wf(),
        ensures
            final(self).wf(),
            final(self)@ == finished_with(old(self)@, exit_code, now_ms),
            old(self)@.exit_code is None ==> ev == Some(JobEvent::Done(exit_code)),
            old(self)@.exit_code is Some ==> ev is None,
    {
        if self.exit_code.is_none() {
            self.exit_code = Some(exit_code);
            self.finished_at_ms = Some(now_ms);
            Some(JobEvent::Done(exit_code))
        } else {
            None
        }
    }

    /// Reports the job finished now with `exit_code`; see `finish_at`.
    pub fn finish(&mut self, exit_code: i32) -> (ev: Option<JobEvent>)
        requires
            old(self).wf(),
        ensures
            final(self).wf(),
            exists|now: u64| final(self)@ == finished_with(old(self)@, exit_code, now),
            old(self)@.exit_code is None ==> ev == Some(JobEvent::Done(exit_code)),
            old(self)@.exit_code is Some ==> ev is None,
    {
        let now = now_ms();
        self.finish_at(exit_code, now)
    }

    /// The buffered output, the exit code, the end time and the count of
    /// dropped bytes.
    pub fn snapshot(&self) -> (r: (Vec<u8>, Option<i32>, Option<u64>, u64))
        ensures
            r.0@ == self@.buffer,
            r.1 == self@.exit_code,
            r.2 == self@.finished_at_ms,
            r.3 == self@.dropped_bytes,
    {
        let mut out: Vec<u8> = Vec::new();
        let mut i: usize = 0;
        while i < self.buffer.len()
            invariant
                i <= self.buffer@.len(),
                out@ == self.buffer@.take(i as int),
            decreases self.buffer@.len() - i,
        {
            out.push(self.buffer[i]);
            i = i + 1;
            assert(self.buffer@.take(i as int) =~= self.buffer@.take(i - 1).push(
                self.buffer@[i - 1],
            ));
        }
        assert(self.buffer@.take(self.buffer@.len() as int) =~= self.buffer@);
        (out, self.exit_code, self.finished_at_ms, self.dropped_bytes)
    }

    /// The listing row of the job.
    pub fn summary(&self) -> (r: JobSummary)
        ensures
            r@ == summary_of(self@),
    {
        JobSummary {
            id: self.id.clone(),
            owner: self.owner.clone(),
            action: self.action.clone(),
            command: self.command.clone(),
            started_at_ms: self.started_at_ms,
            finished_at_ms: self.finished_at_ms,
            exit_code: self.exit_code,
            running: self.exit_code.is_none(),
            dropped_bytes: self.dropped_bytes,
            subscribers: self.subscribers,
        }
    }
}

/// All jobs of a server, with bounds on how many are kept and how much output
/// each keeps.
pub struct JobRegistry {
    seq: u64,
    jobs: Vec<JobRecord>,
    max_jobs: usize,
    max_bytes_per_job: usize,
    /// Whether the counter has gone past `u64::MAX` and started again at 0.
    wrapped: Ghost<bool>,
    /// Every identifier the registry has handed out.
    issued: Ghost<Set<Seq<char>>>,
}

/// The mathematical content of a registry: jobs in the order they were created.
pub struct RegistryView {
    pub seq: u64,
    pub jobs: Seq<JobView>,
    pub max_jobs: nat,
    pub max_bytes_per_job: nat,
    /// The counter has wrapped around.
    pub wrapped: bool,
    /// Every identifier handed out so far.
    pub issued: Set<Seq<char>>,
}

impl View for JobRegistry {
    type V = RegistryView;

    closed spec fn view(&self) -> RegistryView {
        RegistryView {
            seq: self.seq,
            jobs: self.jobs@.map_values(|r: JobRecord| r@),
            max_jobs: self.max_jobs as nat,
            max_bytes_per_job: self.max_bytes_per_job as nat,
            wrapped: self.wrapped@,
            issued: self.issued@,
        }
    }
}

/// No two jobs share an identifier.
pub open spec fn ids_unique(jobs: Seq<JobView>) -> bool {
    forall|i: int, j: int|
        0 <= i < jobs.len() && 0 <= j < jobs.len() && i != j ==> #[trigger] jobs[i].id
            != #[trigger] jobs[j].id
}

/// The shape of a registry: well-formed jobs, all with the registry's output
/// bound, and distinct identifiers.
pub open spec fn registry_shape(v: RegistryView) -> bool {
    &&& forall|i: int|
        0 <= i < v.jobs.len() ==> job_wf(#[trigger] v.jobs[i]) && v.jobs[i].max_bytes
            == v.max_bytes_per_job
    &&& ids_unique(v.jobs)
}

/// Every identifier of the form `job-<time>-<n>` in `issued` has `n` below
/// `seq`.
pub open spec fn issued_below(issued: Set<Seq<char>>, seq: u64) -> bool {
    forall|id: Seq<char>, ms: u64, s: u64| #[trigger] issued.contains(id) && id == #[trigger] job_id(ms, s) ==> s < seq
}

/// Until the counter wraps around, every identifier held or handed out was
/// numbered below it.
pub open spec fn ids_fresh(v: RegistryView) -> bool {
    !v.wrapped ==> ids_below(v.jobs, v.seq) && issued_below(v.issued, v.seq)
}

/// The registry invariant: its shape, and identifiers numbered below the
/// counter until it wraps around.
pub open spec fn registry_wf(v: RegistryView) -> bool {
    registry_shape(v) && ids_fresh(v)
}

/// Whether some job has the identifier `id`.
pub open spec fn contains_id(jobs: Seq<JobView>, id: Seq<char>) -> bool {
    exists|k: int| 0 <= k < jobs.len() && #[trigger] jobs[k].id == id
}

/// The position of the job with identifier `id`.
pub open spec fn index_of_id(jobs: Seq<JobView>, id: Seq<char>) -> int {
    choose|k: int| 0 <= k < jobs.len() && #[trigger] jobs[k].id == id
}

/// The jobs after `j` was stored: a job with the same identifier is replaced.
pub open spec fn with_job(jobs: Seq<JobView>, j: JobView) -> Seq<JobView> {
    if contains_id(jobs, j.id) {
        jobs.remove(index_of_id(jobs, j.id)).push(j)
    } else {
        jobs.push(j)
    }
}

/// Job `i` started no later than job `k`, earlier positions first on ties.
pub open spec fn not_after(jobs: Seq<JobView>, i: int, k: int) -> bool {
    jobs[i].started_at_ms < jobs[k].started_at_ms || (jobs[i].started_at_ms
        == jobs[k].started_at_ms && i <= k)
}

/// Job `i` is the finished job that started first (earliest position on ties).
pub open spec fn is_oldest_finished(jobs: Seq<JobView>, i: int) -> bool {
    &&& 0 <= i < jobs.len()
    &&& finished(jobs[i])
    &&& forall|k: int| 0 <= k < jobs.len() && finished(#[trigger] jobs[k]) ==> not_after(jobs, i, k)
}

/// Some job has finished.
pub open spec fn has_finished(jobs: Seq<JobView>) -> bool {
    exists|k: int| 0 <= k < jobs.len() && finished(#[trigger] jobs[k])
}

/// The finished job that started first.
pub open spec fn oldest_finished(jobs: Seq<JobView>) -> int {
    choose|i: int| is_oldest_finished(jobs, i)
}

/// The jobs kept when at most `max` are allowed: while there are too many,
/// the finished job that started first goes. Running jobs are never removed.
pub open spec fn evict(jobs: Seq<JobView>, max: nat) -> Seq<JobView>
    decreases jobs.len(),
{
    if jobs.len() <= max || !has_finished(jobs) {
        jobs
    } else {
        let i = oldest_finished(jobs);
        if 0 <= i < jobs.len() {
            evict(jobs.remove(i), max)
        } else {
            jobs
        }
    }
}

/// Job `a` is listed before job `b`: it started later, or at the same time
/// but was created later.
pub open spec fn newer(jobs: Seq<JobView>, a: int, b: int) -> bool {
    jobs[a].started_at_ms > jobs[b].started_at_ms || (jobs[a].started_at_ms
        == jobs[b].started_at_ms && a > b)
}

/// `order` lists, newest first, exactly the positions of the jobs that `user`
/// sees.
pub open spec fn listing_order(
    jobs: Seq<JobView>,
    user: Seq<char>,
    is_admin: bool,
    order: Seq<usize>,
) -> bool {
    &&& forall|t: int|
        0 <= t < order.len() ==> #[trigger] order[t] < jobs.len() && visible_to(
            jobs[order[t] as int],
            user,
            is_admin,
        )
    &&& forall|t: int, u: int|
        0 <= t < u < order.len() ==> newer(jobs, #[trigger] order[t] as int, #[trigger] order[u] as int)
    &&& forall|i: int|
        0 <= i < jobs.len() && visible_to(#[trigger] jobs[i], user, is_admin) ==> exists|t: int|
            0 <= t < order.len() && order[t] == i
}

/// The rows listed for `order`.
pub open spec fn listed(jobs: Seq<JobView>, order: Seq<usize>) -> Seq<SummaryView> {
    order.map_values(|t: usize| summary_of(jobs[t as int]))
}

pub proof fn lemma_oldest_unique(jobs: Seq<JobView>, i: int, k: int)
    requires
        is_oldest_finished(jobs, i),
        is_oldest_finished(jobs, k),
    ensures
        i == k,
{
    assert(not_after(jobs, i, k));
    assert(not_after(jobs, k, i));
}

pub proof fn lemma_id_index(jobs: Seq<JobView>, k: int)
    requires
        ids_unique(jobs),
        0 <= k < jobs.len(),
    ensures
        contains_id(jobs, jobs[k].id),
        index_of_id(jobs, jobs[k].id) == k,
{
    let id = jobs[k].id;
    assert(contains_id(jobs, id));
    let c = index_of_id(jobs, id);
    assert(jobs[c].id == id);
}

pub proof fn lemma_remove_keeps(jobs: Seq<JobView>, i: int, max_bytes: nat)
    requires
        0 <= i < jobs.len(),
        ids_unique(jobs),
        forall|k: int|
            0 <= k < jobs.len() ==> job_wf(#[trigger] jobs[k]) && jobs[k].max_bytes == max_bytes,
    ensures
        ids_unique(jobs.remove(i)),
        forall|k: int|
            0 <= k < jobs.remove(i).len() ==> job_wf(#[trigger] jobs.remove(i)[k])
                && jobs.remove(i)[k].max_bytes == max_bytes,
{
    let r = jobs.remove(i);
    assert forall|a: int, b: int| 0 <= a < r.len() && 0 <= b < r.len() && a != b implies #[trigger] r[a].id
        != #[trigger] r[b].id by {
        let a0 = if a < i { a } else { a + 1 };
        let b0 = if b < i { b } else { b + 1 };
        assert(r[a] == jobs[a0]);
        assert(r[b] == jobs[b0]);
    }
    assert forall|k: int| 0 <= k < r.len() implies job_wf(#[trigger] r[k]) && r[k].max_bytes
        == max_bytes by {
        let k0 = if k < i { k } else { k + 1 };
        assert(r[k] == jobs[k0]);
    }
}

pub proof fn lemma_evict_wf(jobs: Seq<JobView>, max: nat, max_bytes: nat)
    requires
        ids_unique(jobs),
        forall|k: int|
            0 <= k < jobs.len() ==> job_wf(#[trigger] jobs[k]) && jobs[k].max_bytes == max_bytes,
    ensures
        ids_unique(evict(jobs, max)),
        forall|k: int|
            0 <= k < evict(jobs, max).len() ==> job_wf(#[trigger] evict(jobs, max)[k]) && evict(
                jobs,
                max,
            )[k].max_bytes == max_bytes,
    decreases jobs.len(),
{
    if jobs.len() <= max || !has_finished(jobs) {
    } else {
        let i = oldest_finished(jobs);
        if 0 <= i < jobs.len() {
            lemma_remove_keeps(jobs, i, max_bytes);
            lemma_evict_wf(jobs.remove(i), max, max_bytes);
        }
    }
}

impl JobRegistry {
    /// The registry is well formed.
    pub open spec fn wf(&self) -> bool {
        registry_wf(self@)
    }

    /// An empty registry that keeps at most `max_jobs` jobs (beyond that,
    /// finished ones are dropped) and `max_bytes_per_job` output bytes per job.
    pub fn new(max_jobs: usize, max_bytes_per_job: usize) -> (r: JobRegistry)
        ensures
            r.wf(),
            r@.seq == 1,
            r@.jobs == Seq::<JobView>::empty(),
            !r@.wrapped,
            r@.issued == Set::<Seq<char>>::empty(),
            r@.max_jobs == max_jobs,
            r@.max_bytes_per_job == max_bytes_per_job,
    {
        let r = JobRegistry {
            seq: 1,
            jobs: Vec::new(),
            max_jobs,
            max_bytes_per_job,
            wrapped: Ghost(false),
            issued: Ghost(Set::empty()),
        };
        assert(r@.jobs =~= Seq::<JobView>::empty());
        r
    }

    /// Number of jobs held.
    pub fn len(&self) -> (r: usize)
        ensures
            r == self@.jobs.len(),
    {
        self.jobs.len()
    }

    /// The position of the job with identifier `id`, if any.
    fn find(&self, id: &str) -> (r: Option<usize>)
        requires
            registry_shape(self@),
        ensures
            r is Some <==> contains_id(self@.jobs, id@),
            r matches Some(k) ==> k < self@.jobs.len() && self@.jobs[k as int].id == id@
                && index_of_id(self@.jobs, id@) == k,
    {
        let ghost jobs = self@.jobs;
        let mut k: usize = 0;
        while k < self.jobs.len()
            invariant
                k <= self.jobs@.len(),
                jobs == self@.jobs,
                registry_shape(self@),
                forall|t: int| 0 <= t < k ==> #[trigger] jobs[t].id != id@,
            decreases self.jobs@.len() - k,
        {
            assert(jobs[k as int] == self.jobs@[k as int]@);
            if str_equals(self.jobs[k].id.as_str(), id) {
                proof {
                    lemma_id_index(jobs, k as int);
                }
                return Some(k);
            }
            k = k + 1;
        }
        None
    }

    /// The position of the finished job that started first, if any job finished.
    fn oldest_finished_position(&self) -> (r: Option<usize>)
        ensures
            r matches Some(i) ==> is_oldest_finished(self@.jobs, i as int),
            r is None ==> !has_finished(self@.jobs),
    {
        let ghost jobs = self@.jobs;
        let mut best: Option<usize> = None;
        let mut k: usize = 0;
        while k < self.jobs.len()
            invariant
                k <= self.jobs@.len(),
                jobs == self@.jobs,
                best matches Some(b) ==> b < k && finished(jobs[b as int]) && forall|t: int|
                    0 <= t < k && finished(#[trigger] jobs[t]) ==> not_after(jobs, b as int, t),
                best is None ==> forall|t: int| 0 <= t < k ==> !finished(#[trigger] jobs[t]),
            decreases self.jobs@.len() - k,
        {
            assert(jobs[k as int] == self.jobs@[k as int]@);
            if self.jobs[k].is_finished() {
                match best {
                    None => {
                        best = Some(k);
                    },
                    Some(b) => {
                        assert(jobs[b as int] == self.jobs@[b as int]@);
                        if self.jobs[k].started_at_ms() < self.jobs[b].started_at_ms() {
                            best = Some(k);
                        }
                    },
                }
            }
            k = k + 1;
        }
        best
    }

    /// Stores a job started at `started_at_ms` and returns its identifier. When
    /// more than `max_jobs` jobs are held, finished jobs are dropped, those that
    /// started first first, until the bound holds or none is finished.
    pub fn create_job_at(&mut self, owner: &str, action: &str, command: &str, started_at_ms: u64) -> (id: String)
        requires
            old(self).wf(),
        ensures
            final(self).wf(),
            id@ == job_id(started_at_ms, old(self)@.seq),
            final(self)@.seq == (if old(self)@.seq == u64::MAX { 0 } else { (old(self)@.seq + 1) as u64 }),
            final(self)@.max_jobs == old(self)@.max_jobs,
            final(self)@.max_bytes_per_job == old(self)@.max_bytes_per_job,
            final(self)@.jobs == evict(
                with_job(
                    old(self)@.jobs,
                    new_job(id@, owner@, action@, command@, started_at_ms, old(self)@.max_bytes_per_job),
                ),
                old(self)@.max_jobs,
            ),
            final(self)@.wrapped == (old(self)@.wrapped || old(self)@.seq == u64::MAX),
            final(self)@.issued == old(self)@.issued.insert(id@),
            !old(self)@.wrapped ==> !old(self)@.issued.contains(id@) && !contains_id(old(self)@.jobs, id@),
    {
        let ghost o = self@;
        let seq = self.seq;
        self.seq = self.seq.wrapping_add(1);
        let mut idc = chars_of("job-");
        proof { reveal_strlit("job-"); }
        let h1 = hex_u128(started_at_ms as u128);
        let h2 = hex_u128(seq as u128);
        let mut id = string_of(&idc);
        push_chars(&mut id, &h1);
        id.push('-');
        push_chars(&mut id, &h2);
        assert(id@ =~= job_id(started_at_ms, seq));
        let rec = JobRecord::new(
            id.clone(),
            String::from_str(owner),
            String::from_str(action),
            String::from_str(command),
            started_at_ms,
            self.max_bytes_per_job,
        );
        let ghost j = rec@;
        let ghost before = self@.jobs;
        match self.find(id.as_str()) {
            Some(k) => {
                self.jobs.remove(k);
                proof {
                    lemma_remove_keeps(before, k as int, self.max_bytes_per_job as nat);
                }
            },
            None => {},
        }
        self.jobs.push(rec);
        proof {
            assert(self@.jobs =~= with_job(before, j));
            let w = self@.jobs;
            assert forall|a: int, b: int| 0 <= a < w.len() && 0 <= b < w.len() && a != b implies #[trigger] w[a].id
                != #[trigger] w[b].id by {
                if a == w.len() - 1 {
                    assert(!contains_id(w.drop_last(), j.id) || false) by {
                        if contains_id(w.drop_last(), j.id) {
                            let c = choose|c: int| 0 <= c < w.drop_last().len() && #[trigger] w.drop_last()[c].id == j.id;
                            if contains_id(before, j.id) {
                                let k = index_of_id(before, j.id);
                                let c0 = if c < k { c } else { c + 1 };
                                assert(w.drop_last()[c] == before[c0]);
                            } else {
                                assert(w.drop_last()[c] == before[c]);
                            }
                        }
                    }
                    assert(w[b] == w.drop_last()[b]);
                } else if b == w.len() - 1 {
                    assert(!contains_id(w.drop_last(), j.id)) by {
                        if contains_id(w.drop_last(), j.id) {
                            let c = choose|c: int| 0 <= c < w.drop_last().len() && #[trigger] w.drop_last()[c].id == j.id;
                            if contains_id(before, j.id) {
                                let k = index_of_id(before, j.id);
                                let c0 = if c < k { c } else { c + 1 };
                                assert(w.drop_last()[c] == before[c0]);
                            } else {
                                assert(w.drop_last()[c] == before[c]);
                            }
                        }
                    }
                    assert(w[a] == w.drop_last()[a]);
                } else {
                    assert(w[a] == w.drop_last()[a]);
                    assert(w[b] == w.drop_last()[b]);
                    if contains_id(before, j.id) {
                        let k = index_of_id(before, j.id);
                        let a0 = if a < k { a } else { a + 1 };
                        let b0 = if b < k { b } else { b + 1 };
                        assert(w.drop_last()[a] == before[a0]);
                        assert(w.drop_last()[b] == before[b0]);
                    } else {
                        assert(w.drop_last()[a] == before[a]);
                        assert(w.drop_last()[b] == before[b]);
                    }
                }
            }
            assert forall|k: int| 0 <= k < w.len() implies job_wf(#[trigger] w[k]) && w[k].max_bytes
                == self.max_bytes_per_job by {
                if k < w.len() - 1 {
                    assert(w[k] == w.drop_last()[k]);
                    if contains_id(before, j.id) {
                        let c = index_of_id(before, j.id);
                        let k0 = if k < c { k } else { k + 1 };
                        assert(w.drop_last()[k] == before[k0]);
                    } else {
                        assert(w.drop_last()[k] == before[k]);
                    }
                }
            }
        }
        let ghost target = evict(self@.jobs, self.max_jobs as nat);
        let mut done = false;
        while !done && self.jobs.len() > self.max_jobs
            invariant
                done ==> !has_finished(self@.jobs),
                registry_shape(self@),
                evict(self@.jobs, self.max_jobs as nat) == target,
                self@.wrapped == o.wrapped,
                self@.issued == o.issued,
                self@.seq == old(self)@.seq.wrapping_add(1),
                self@.max_jobs == old(self)@.max_jobs,
                self@.max_bytes_per_job == old(self)@.max_bytes_per_job,
            decreases self.jobs@.len() + (if done { 0int } else { 1int }),
        {
            match self.oldest_finished_position() {
                None => {
                    done = true;
                },
                Some(i) => {
                    let ghost cur = self@.jobs;
                    proof {
                        let c = oldest_finished(cur);
                        lemma_oldest_unique(cur, c, i as int);
                        lemma_remove_keeps(cur, i as int, self.max_bytes_per_job as nat);
                    }
                    self.jobs.remove(i);
                    assert(self@.jobs =~= cur.remove(i as int));
                },
            }
        }
        assert(target == self@.jobs);
        let ghost now_wrapped = o.wrapped || o.seq == u64::MAX;
        let ghost now_issued = o.issued.insert(id@);
        self.wrapped = Ghost(now_wrapped);
        self.issued = Ghost(now_issued);
        proof {
            if !o.wrapped {
                law_create_job(o, owner@, action@, command@, started_at_ms);
            }
        }
        id
    }

    /// Stores a job started now; see `create_job_at`.
    pub fn create_job(&mut self, owner: &str, action: &str, command: &str) -> (id: String)
        requires
            old(self).wf(),
        ensures
            final(self).wf(),
            exists|started: u64|
                id@ == job_id(started, old(self)@.seq) && final(self)@.jobs == evict(
                    with_job(
                        old(self)@.jobs,
                        new_job(id@, owner@, action@, command@, started, old(self)@.max_bytes_per_job),
                    ),
                    old(self)@.max_jobs,
                ),
            final(self)@.seq == (if old(self)@.seq == u64::MAX { 0 } else { (old(self)@.seq + 1) as u64 }),
            final(self)@.max_jobs == old(self)@.max_jobs,
            final(self)@.max_bytes_per_job == old(self)@.max_bytes_per_job,
            final(self)@.wrapped == (old(self)@.wrapped || old(self)@.seq == u64::MAX),
            exists|started: u64| final(self)@.issued == old(self)@.issued.insert(#[trigger] job_id(started, old(self)@.seq)) && id@ == job_id(started, old(self)@.seq),
            !old(self)@.wrapped ==> !old(self)@.issued.contains(id@) && !contains_id(old(self)@.jobs, id@),
    {
        let now = now_ms();
        self.create_job_at(owner, action, command, now)
    }

    /// The job with identifier `id`, when `user` may see it: administrators see
    /// every job, other users their own.
    pub fn get_visible(&self, id: &str, user: &str, is_admin: bool) -> (r: Option<&JobRecord>)
        requires
            self.wf(),
        ensures
            r is Some <==> (contains_id(self@.jobs, id@) && visible_to(
                self@.jobs[index_of_id(self@.jobs, id@)],
                user@,
                is_admin,
            )),
            r matches Some(rec) ==> rec@ == self@.jobs[index_of_id(self@.jobs, id@)],
    {
        match self.find(id) {
            None => None,
            Some(k) => {
                let rec = &self.jobs[k];
                assert(rec@ == self@.jobs[k as int]);
                if is_admin || str_equals(rec.owner(), user) {
                    Some(rec)
                } else {
                    None
                }
            },
        }
    }

    /// Appends output to the job with identifier `id`; see
    /// `JobRecord::append_output`. Other jobs, and a registry without such a
    /// job, are left unchanged.
    pub fn append_output(&mut self, id: &str, bytes: &[u8]) -> (ev: Option<JobEvent>)
        requires
            old(self).wf(),
            old(self)@.max_bytes_per_job + bytes@.len() <= usize::MAX,
        ensures
            final(self).wf(),
            final(self)@.seq == old(self)@.seq,
            final(self)@.max_jobs == old(self)@.max_jobs,
            final(self)@.max_bytes_per_job == old(self)@.max_bytes_per_job,
            contains_id(old(self)@.jobs, id@) ==> {
                let k = index_of_id(old(self)@.jobs, id@);
                &&& final(self)@.jobs == old(self)@.jobs.update(k, appended(old(self)@.jobs[k], bytes@))
                &&& (bytes@.len() == 0 ==> ev is None)
                &&& (bytes@.len() > 0 ==> (ev matches Some(JobEvent::Output(out)) && out@ == bytes@))
            },
            !contains_id(old(self)@.jobs, id@) ==> final(self)@ == old(self)@ && ev is None,
    {
        match self.find(id) {
            None => None,
            Some(k) => {
                let ghost before = self@.jobs;
                let mut rec = self.jobs.remove(k);
                assert(rec@ == before[k as int]);
                let ev = rec.append_output(bytes);
                let ghost j = rec@;
                self.jobs.insert(k, rec);
                proof {
                    assert(self@.jobs =~= before.update(k as int, j));
                    self.lemma_update_keeps(before, k as int, j);
                }
                ev
            },
        }
    }

    /// Reports the job with identifier `id` finished at `now_ms` with
    /// `exit_code`; see `JobRecord::finish_at`.
    pub fn finish_at(&mut self, id: &str, exit_code: i32, now_ms: u64) -> (ev: Option<JobEvent>)
        requires
            old(self).wf(),
        ensures
            final(self).wf(),
            final(self)@.seq == old(self)@.seq,
            final(self)@.max_jobs == old(self)@.max_jobs,
            final(self)@.max_bytes_per_job == old(self)@.max_bytes_per_job,
            contains_id(old(self)@.jobs, id@) ==> {
                let k = index_of_id(old(self)@.jobs, id@);
                &&& final(self)@.jobs == old(self)@.jobs.update(
                    k,
                    finished_with(old(self)@.jobs[k], exit_code, now_ms),
                )
                &&& (old(self)@.jobs[k].exit_code is None ==> ev == Some(JobEvent::Done(exit_code)))
                &&& (old(self)@.jobs[k].exit_code is Some ==> ev is None)
            },
            !contains_id(old(self)@.jobs, id@) ==> final(self)@ == old(self)@ && ev is None,
    {
        match self.find(id) {
            None => None,
            Some(k) => {
                let ghost before = self@.jobs;
                let mut rec = self.jobs.remove(k);
                assert(rec@ == before[k as int]);
                let ev = rec.finish_at(exit_code, now_ms);
                let ghost j = rec@;
                self.jobs.insert(k, rec);
                proof {
                    assert(self@.jobs =~= before.update(k as int, j));
                    self.lemma_update_keeps(before, k as int, j);
                }
                ev
            },
        }
    }

    /// Reports the job with identifier `id` finished now; see `finish_at`.
    pub fn finish(&mut self, id: &str, exit_code: i32) -> (ev: Option<JobEvent>)
        requires
            old(self).wf(),
        ensures
            final(self).wf(),
            final(self)@.seq == old(self)@.seq,
            final(self)@.max_jobs == old(self)@.max_jobs,
            final(self)@.max_bytes_per_job == old(self)@.max_bytes_per_job,
            contains_id(old(self)@.jobs, id@) ==> exists|now: u64|
                final(self)@.jobs == old(self)@.jobs.update(
                    index_of_id(old(self)@.jobs, id@),
                    #[trigger] finished_with(old(self)@.jobs[index_of_id(old(self)@.jobs, id@)], exit_code, now),
                ),
            contains_id(old(self)@.jobs, id@) ==> {
                let k = index_of_id(old(self)@.jobs, id@);
                &&& (old(self)@.jobs[k].exit_code is None ==> ev == Some(JobEvent::Done(exit_code)))
                &&& (old(self)@.jobs[k].exit_code is Some ==> ev is None)
            },
            !contains_id(old(self)@.jobs, id@) ==> final(self)@ == old(self)@ && ev is None,
    {
        let now = now_ms();
        self.finish_at(id, exit_code, now)
    }

    /// Records one more client attached to the job with identifier `id`.
    pub fn subscribe(&mut self, id: &str)
        requires
            old(self).wf(),
        ensures
            final(self).wf(),
            final(self)@.seq == old(self)@.seq,
            final(self)@.max_jobs == old(self)@.max_jobs,
            final(self)@.max_bytes_per_job == old(self)@.max_bytes_per_job,
            contains_id(old(self)@.jobs, id@) ==> {
                let k = index_of_id(old(self)@.jobs, id@);
                let j = old(self)@.jobs[k];
                final(self)@.jobs == old(self)@.jobs.update(
                    k,
                    JobView {
                        subscribers: if j.subscribers < usize::MAX { j.subscribers + 1 } else { j.subscribers },
                        ..j
                    },
                )
            },
            !contains_id(old(self)@.jobs, id@) ==> final(self)@ == old(self)@,
    {
        match self.find(id) {
            None => {},
            Some(k) => {
                let ghost before = self@.jobs;
                let mut rec = self.jobs.remove(k);
                assert(rec@ == before[k as int]);
                rec.subscribe();
                let ghost j = rec@;
                self.jobs.insert(k, rec);
                proof {
                    assert(self@.jobs =~= before.update(k as int, j));
                    self.lemma_update_keeps(before, k as int, j);
                }
            },
        }
    }

    /// Records that a client detached from the job with identifier `id`.
    pub fn unsubscribe(&mut self, id: &str)
        requires
            old(self).wf(),
        ensures
            final(self).wf(),
            final(self)@.seq == old(self)@.seq,
            final(self)@.max_jobs == old(self)@.max_jobs,
            final(self)@.max_bytes_per_job == old(self)@.max_bytes_per_job,
            contains_id(old(self)@.jobs, id@) ==> {
                let k = index_of_id(old(self)@.jobs, id@);
                let j = old(self)@.jobs[k];
                final(self)@.jobs == old(self)@.jobs.update(
                    k,
                    JobView { subscribers: if j.subscribers > 0 { (j.subscribers - 1) as nat } else { 0 }, ..j },
                )
            },
            !contains_id(old(self)@.jobs, id@) ==> final(self)@ == old(self)@,
    {
        match self.find(id) {
            None => {},
            Some(k) => {
                let ghost before = self@.jobs;
                let mut rec = self.jobs.remove(k);
                assert(rec@ == before[k as int]);
                rec.unsubscribe();
                let ghost j = rec@;
                self.jobs.insert(k, rec);
                proof {
                    assert(self@.jobs =~= before.update(k as int, j));
                    self.lemma_update_keeps(before, k as int, j);
                }
            },
        }
    }

    proof fn lemma_update_keeps(&self, before: Seq<JobView>, k: int, j: JobView)
        requires
            registry_wf(RegistryView { jobs: before, ..self@ }),
            0 <= k < before.len(),
            self@.jobs == before.update(k, j),
            j.id == before[k].id,
            j.max_bytes == before[k].max_bytes,
            job_wf(j),
        ensures
            self.wf(),
    {
        let w = self@.jobs;
        assert forall|a: int, b: int| 0 <= a < w.len() && 0 <= b < w.len() && a != b implies #[trigger] w[a].id
            != #[trigger] w[b].id by {
            assert(w[a].id == before[a].id);
            assert(w[b].id == before[b].id);
        }
        if !self@.wrapped {
            assert forall|i: int, ms: u64, s: u64|
                0 <= i < w.len() && (#[trigger] w[i]).id == #[trigger] job_id(ms, s) implies s < self@.seq by {
                assert(w[i].id == before[i].id);
            }
        }
        assert forall|i: int| 0 <= i < w.len() implies job_wf(#[trigger] w[i]) && w[i].max_bytes
            == self@.max_bytes_per_job by {
            if i != k {
                assert(w[i] == before[i]);
            }
        }
    }

    /// The listing rows of the jobs `user` may see, newest first (on equal start
    /// times, the job created later first).
    pub fn list_visible(&self, user: &str, is_admin: bool) -> (r: Vec<JobSummary>)
        requires
            self.wf(),
        ensures
            exists|order: Seq<usize>|
                listing_order(self@.jobs, user@, is_admin, order) && r@.map_values(
                    |s: JobSummary| s@,
                ) == listed(self@.jobs, order),
    {
        let ghost jobs = self@.jobs;
        let mut order: Vec<usize> = Vec::new();
        let mut k: usize = 0;
        while k < self.jobs.len()
            invariant
                k <= self.jobs@.len(),
                jobs == self@.jobs,
                forall|t: int|
                    0 <= t < order@.len() ==> #[trigger] order@[t] < k && visible_to(
                        jobs[order@[t] as int],
                        user@,
                        is_admin,
                    ),
                forall|t: int, u: int|
                    0 <= t < u < order@.len() ==> newer(
                        jobs,
                        #[trigger] order@[t] as int,
                        #[trigger] order@[u] as int,
                    ),
                forall|i: int|
                    0 <= i < k && visible_to(#[trigger] jobs[i], user@, is_admin) ==> exists|t: int|
                        0 <= t < order@.len() && order@[t] == i,
            decreases self.jobs@.len() - k,
        {
            assert(jobs[k as int] == self.jobs@[k as int]@);
            if is_admin || str_equals(self.jobs[k].owner(), user) {
                let started = self.jobs[k].started_at_ms();
                let mut p: usize = 0;
                while p < order.len() && self.jobs[order[p]].started_at_ms() > started
                    invariant
                        p <= order@.len(),
                        jobs == self@.jobs,
                        forall|t: int| 0 <= t < order@.len() ==> #[trigger] order@[t] < k,
                        k < jobs.len(),
                        started == jobs[k as int].started_at_ms,
                        forall|t: int|
                            0 <= t < p ==> jobs[#[trigger] order@[t] as int].started_at_ms
                                > started,
                    decreases order@.len() - p,
                {
                    assert(jobs[order@[p as int] as int] == self.jobs@[order@[p as int] as int]@);
                    p = p + 1;
                }
                let ghost old_order = order@;
                proof {
                    if p < old_order.len() {
                        assert(jobs[old_order[p as int] as int] == self.jobs@[old_order[p as int] as int]@);
                        assert(jobs[old_order[p as int] as int].started_at_ms <= started);
                    }
                }
                order.insert(p, k);
                proof {
                    let o = order@;
                    assert(o == old_order.insert(p as int, k));
                    assert forall|t: int| 0 <= t < o.len() implies #[trigger] o[t] < k + 1 && visible_to(
                        jobs[o[t] as int],
                        user@,
                        is_admin,
                    ) by {
                        if t < p {
                            assert(o[t] == old_order[t]);
                        } else if t > p {
                            assert(o[t] == old_order[t - 1]);
                        }
                    }
                    assert forall|t: int, u: int| 0 <= t < u < o.len() implies newer(
                        jobs,
                        #[trigger] o[t] as int,
                        #[trigger] o[u] as int,
                    ) by {
                        if u < p {
                            assert(o[t] == old_order[t]);
                            assert(o[u] == old_order[u]);
                        } else if u == p {
                            assert(o[t] == old_order[t]);
                            assert(jobs[old_order[t] as int].started_at_ms > started);
                        } else if t == p {
                            assert(o[u] == old_order[u - 1]);
                            if p < u - 1 {
                                assert(newer(jobs, old_order[p as int] as int, old_order[u - 1] as int));
                            }
                            assert(jobs[old_order[u - 1] as int].started_at_ms <= started);
                            assert(old_order[u - 1] < k);
                        } else if t < p {
                            assert(o[t] == old_order[t]);
                            assert(o[u] == old_order[u - 1]);
                        } else {
                            assert(o[t] == old_order[t - 1]);
                            assert(o[u] == old_order[u - 1]);
                        }
                    }
                    assert forall|i: int| 0 <= i < k + 1 && visible_to(#[trigger] jobs[i], user@, is_admin) implies exists|t: int|
                        0 <= t < o.len() && o[t] == i by {
                        if i == k {
                            assert(o[p as int] == k);
                        } else {
                            let t0 = choose|t: int| 0 <= t < old_order.len() && old_order[t] == i;
                            if t0 < p {
                                assert(o[t0] == i);
                            } else {
                                assert(o[t0 + 1] == i);
                            }
                        }
                    }
                }
            }
            k = k + 1;
        }
        let mut out: Vec<JobSummary> = Vec::new();
        let mut t: usize = 0;
        while t < order.len()
            invariant
                t <= order@.len(),
                jobs == self@.jobs,
                forall|u: int| 0 <= u < order@.len() ==> #[trigger] order@[u] < jobs.len(),
                out@.map_values(|s: JobSummary| s@) == listed(jobs, order@.take(t as int)),
            decreases order@.len() - t,
        {
            let row = self.jobs[order[t]].summary();
            assert(jobs[order@[t as int] as int] == self.jobs@[order@[t as int] as int]@);
            let ghost before = out@;
            out.push(row);
            proof {
                assert(out@.map_values(|s: JobSummary| s@) =~= before.map_values(|s: JobSummary| s@).push(row@));
                assert(listed(jobs, order@.take(t + 1)) =~= listed(jobs, order@.take(t as int)).push(
                    summary_of(jobs[order@[t as int] as int]),
                ));
            }
            t = t + 1;
        }
        assert(order@.take(order@.len() as int) =~= order@);
        out
    }
}

impl Default for JobRegistry {
    /// A registry keeping 256 jobs of at most 4 MiB of output each.
    fn default() -> (r: JobRegistry)
        ensures
            r.wf(),
            r@.seq == 1,
            r@.jobs == Seq::<JobView>::empty(),
            r@.max_jobs == DEFAULT_MAX_JOBS,
            r@.max_bytes_per_job == DEFAULT_MAX_BYTES_PER_JOB,
    {
        JobRegistry::new(DEFAULT_MAX_JOBS, DEFAULT_MAX_BYTES_PER_JOB)
    }
}

pub proof fn lemma_oldest_witness(jobs: Seq<JobView>) -> (i: int)
    requires
        has_finished(jobs),
    ensures
        is_oldest_finished(jobs, i),
    decreases jobs.len(),
{
    let n = jobs.len() as int;
    let p = jobs.drop_last();
    if has_finished(p) {
        let b = lemma_oldest_witness(p);
        assert(jobs[b] == p[b]);
        if finished(jobs[n - 1]) && jobs[n - 1].started_at_ms < jobs[b].started_at_ms {
            assert forall|k: int| 0 <= k < n && finished(#[trigger] jobs[k]) implies not_after(jobs, n - 1, k) by {
                if k < n - 1 {
                    assert(jobs[k] == p[k]);
                    assert(not_after(p, b, k));
                }
            }
            n - 1
        } else {
            assert forall|k: int| 0 <= k < n && finished(#[trigger] jobs[k]) implies not_after(jobs, b, k) by {
                if k < n - 1 {
                    assert(jobs[k] == p[k]);
                    assert(not_after(p, b, k));
                }
            }
            b
        }
    } else {
        let k0 = choose|k: int| 0 <= k < jobs.len() && finished(#[trigger] jobs[k]);
        if k0 < n - 1 {
            assert(p[k0] == jobs[k0]);
        }
        assert forall|k: int| 0 <= k < n && finished(#[trigger] jobs[k]) implies not_after(jobs, n - 1, k) by {
            if k < n - 1 {
                assert(p[k] == jobs[k]);
            }
        }
        n - 1
    }
}

pub proof fn lemma_oldest_exists(jobs: Seq<JobView>)
    requires
        has_finished(jobs),
    ensures
        is_oldest_finished(jobs, oldest_finished(jobs)),
{
    let w = lemma_oldest_witness(jobs);
    assert(is_oldest_finished(jobs, w));
}

/// Law: once eviction is done, the registry is within its bound, or every job
/// it still holds is running.
pub proof fn law_eviction_bound(jobs: Seq<JobView>, max: nat)
    ensures
        evict(jobs, max).len() <= max || !has_finished(evict(jobs, max)),
    decreases jobs.len(),
{
    if jobs.len() <= max || !has_finished(jobs) {
    } else {
        lemma_oldest_exists(jobs);
        law_eviction_bound(jobs.remove(oldest_finished(jobs)), max);
    }
}

/// Law: eviction drops only finished jobs: every running job stays, and every
/// job kept was there before.
pub proof fn law_eviction_keeps_running(jobs: Seq<JobView>, max: nat)
    ensures
        forall|i: int|
            0 <= i < jobs.len() && !finished(#[trigger] jobs[i]) ==> evict(jobs, max).contains(jobs[i]),
        forall|x: JobView| evict(jobs, max).contains(x) ==> jobs.contains(x),
    decreases jobs.len(),
{
    if jobs.len() <= max || !has_finished(jobs) {
    } else {
        lemma_oldest_exists(jobs);
        let o = oldest_finished(jobs);
        let r = jobs.remove(o);
        law_eviction_keeps_running(r, max);
        assert(evict(jobs, max) == evict(r, max));
        assert forall|i: int| 0 <= i < jobs.len() && !finished(#[trigger] jobs[i]) implies evict(jobs, max).contains(jobs[i]) by {
            let i0 = if i < o { i } else { i - 1 };
            assert(i != o);
            assert(r[i0] == jobs[i]);
        }
        assert forall|x: JobView| evict(jobs, max).contains(x) implies jobs.contains(x) by {
            assert(r.contains(x));
            let t = choose|t: int| 0 <= t < r.len() && r[t] == x;
            let t0 = if t < o { t } else { t + 1 };
            assert(jobs[t0] == x);
        }
    }
}

/// How many of `jobs` have finished.
pub open spec fn finished_count(jobs: Seq<JobView>) -> nat
    decreases jobs.len(),
{
    if jobs.len() == 0 {
        0
    } else {
        finished_count(jobs.drop_last()) + if finished(jobs.last()) { 1nat } else { 0nat }
    }
}

pub proof fn lemma_finished_count_bound(jobs: Seq<JobView>)
    ensures
        finished_count(jobs) <= jobs.len(),
        has_finished(jobs) <==> finished_count(jobs) > 0,
    decreases jobs.len(),
{
    if jobs.len() > 0 {
        let p = jobs.drop_last();
        lemma_finished_count_bound(p);
        if has_finished(p) {
            let k = choose|k: int| 0 <= k < p.len() && finished(#[trigger] p[k]);
            assert(jobs[k] == p[k]);
        }
        if has_finished(jobs) && !finished(jobs.last()) {
            let k = choose|k: int| 0 <= k < jobs.len() && finished(#[trigger] jobs[k]);
            assert(k != jobs.len() - 1);
            assert(p[k] == jobs[k]);
        }
        if finished(jobs.last()) {
            assert(finished(jobs[jobs.len() - 1]));
        }
    }
}

/// Removing a finished job lowers the count by one.
pub proof fn lemma_finished_count_remove(jobs: Seq<JobView>, i: int)
    requires
        0 <= i < jobs.len(),
        finished(jobs[i]),
    ensures
        finished_count(jobs.remove(i)) + 1 == finished_count(jobs),
    decreases jobs.len(),
{
    if i == jobs.len() - 1 {
        assert(jobs.remove(i) =~= jobs.drop_last());
    } else {
        let r = jobs.remove(i);
        lemma_finished_count_remove(jobs.drop_last(), i);
        assert(r.drop_last() =~= jobs.drop_last().remove(i));
        assert(r.last() == jobs.last());
    }
}

/// Law: how many jobs eviction keeps: all of them when they are within the
/// bound; else the bound, or more when too few have finished to get down to
/// it, since running jobs are never dropped.
pub proof fn law_eviction_count(jobs: Seq<JobView>, max: nat)
    ensures
        evict(jobs, max).len() == if jobs.len() <= max {
            jobs.len()
        } else if jobs.len() - finished_count(jobs) <= max {
            max
        } else {
            (jobs.len() - finished_count(jobs)) as nat
        },
    decreases jobs.len(),
{
    lemma_finished_count_bound(jobs);
    if jobs.len() <= max || !has_finished(jobs) {
    } else {
        lemma_oldest_exists(jobs);
        let o = oldest_finished(jobs);
        lemma_finished_count_remove(jobs, o);
        law_eviction_count(jobs.remove(o), max);
    }
}

/// Law: eviction drops the oldest finished jobs first: a job it drops had
/// finished, and started no later than any finished job it keeps.
pub proof fn law_eviction_oldest_first(jobs: Seq<JobView>, max: nat)
    ensures
        forall|x: JobView|
            #[trigger] jobs.contains(x) && !evict(jobs, max).contains(x) ==> finished(x),
        forall|x: JobView, y: JobView|
            #[trigger] jobs.contains(x) && !evict(jobs, max).contains(x) && #[trigger] evict(jobs, max).contains(y)
                && finished(y) ==> x.started_at_ms <= y.started_at_ms,
    decreases jobs.len(),
{
    law_eviction_keeps_running(jobs, max);
    assert forall|x: JobView| #[trigger] jobs.contains(x) && !evict(jobs, max).contains(x) implies finished(x) by {
        let i = choose|i: int| 0 <= i < jobs.len() && jobs[i] == x;
        if !finished(jobs[i]) {
            assert(evict(jobs, max).contains(jobs[i]));
        }
    }
    if jobs.len() <= max || !has_finished(jobs) {
    } else {
        lemma_oldest_exists(jobs);
        let o = oldest_finished(jobs);
        let r = jobs.remove(o);
        law_eviction_oldest_first(r, max);
        law_eviction_keeps_running(r, max);
        assert(evict(jobs, max) == evict(r, max));
        assert forall|x: JobView, y: JobView|
            #[trigger] jobs.contains(x) && !evict(jobs, max).contains(x) && #[trigger] evict(jobs, max).contains(y)
                && finished(y) implies x.started_at_ms <= y.started_at_ms by {
            assert(r.contains(y));
            let t = choose|t: int| 0 <= t < r.len() && r[t] == y;
            let t0 = if t < o { t } else { t + 1 };
            assert(jobs[t0] == y);
            if x == jobs[o] {
                assert(not_after(jobs, o, t0));
            } else {
                let i = choose|i: int| 0 <= i < jobs.len() && jobs[i] == x;
                assert(i != o);
                let i0 = if i < o { i } else { i - 1 };
                assert(r[i0] == x);
                assert(r.contains(x));
            }
        }
    }
}

/// Law: a job just stored is held by the registry, whatever was evicted.
pub proof fn law_new_job_kept(jobs: Seq<JobView>, j: JobView, max: nat)
    requires
        !finished(j),
    ensures
        evict(with_job(jobs, j), max).contains(j),
{
    let w = with_job(jobs, j);
    assert(w[w.len() - 1] == j);
    law_eviction_keeps_running(w, max);
}

/// Law: no output byte goes unaccounted: after an append, the bytes held plus
/// the bytes dropped grow by exactly the bytes appended (unless the dropped
/// counter saturates), and the buffer stays within its bound.
pub proof fn law_output_accounting(j: JobView, bytes: Seq<u8>)
    requires
        job_wf(j),
        j.dropped_bytes + overflow(j.buffer.len(), bytes.len(), j.max_bytes) <= u64::MAX,
    ensures
        job_wf(appended(j, bytes)),
        appended(j, bytes).dropped_bytes + appended(j, bytes).buffer.len() == j.dropped_bytes
            + j.buffer.len() + bytes.len(),
        appended(j, bytes).buffer.len() == if j.buffer.len() + bytes.len() <= j.max_bytes {
            j.buffer.len() + bytes.len()
        } else {
            j.max_bytes
        },
{
}

/// Law: identifiers made with different sequence numbers differ, whatever
/// the start times. A registry numbers the jobs it creates one after the
/// other (see `create_job_at`), so it never hands out an identifier twice
/// before its counter wraps around.
pub proof fn law_job_ids_distinct(started1: u64, seq1: u64, started2: u64, seq2: u64)
    requires
        seq1 != seq2,
    ensures
        job_id(started1, seq1) != job_id(started2, seq2),
{
    let a = job_id(started1, seq1);
    let b = job_id(started2, seq2);
    let h1 = hex(seq1 as nat);
    let h2 = hex(seq2 as nat);
    lemma_hex_digits(seq1 as nat);
    lemma_hex_digits(seq2 as nat);
    lemma_hex_injective(seq1 as nat, seq2 as nat);
    if a == b {
        let p1 = a.len() - h1.len();
        let p2 = b.len() - h2.len();
        assert forall|i: int| 0 <= i < h1.len() implies a[p1 + i] == h1[i] by {}
        assert forall|i: int| 0 <= i < h2.len() implies b[p2 + i] == h2[i] by {}
        assert(a[p1 - 1] == '-');
        assert(b[p2 - 1] == '-');
        if h1.len() == h2.len() {
            assert(h1 =~= h2);
        } else if h1.len() < h2.len() {
            assert(is_hex_char(h2[p1 - 1 - p2]));
        } else {
            assert(is_hex_char(h1[p2 - 1 - p1]));
        }
    }
}

/// Every held identifier of the form `job-<time>-<n>` has `n` below `seq`:
/// the jobs were numbered before the counter reached `seq`.
pub open spec fn ids_below(jobs: Seq<JobView>, seq: u64) -> bool {
    forall|i: int, ms: u64, s: u64|
        0 <= i < jobs.len() && (#[trigger] jobs[i]).id == #[trigger] job_id(ms, s) ==> s < seq
}

/// The job `create_job_at` stores for a registry `old`.
pub open spec fn created_job(old: RegistryView, owner: Seq<char>, action: Seq<char>, command: Seq<char>, started: u64) -> JobView {
    new_job(job_id(started, old.seq), owner, action, command, started, old.max_bytes_per_job)
}

/// Law: what creating a job does to a registry whose counter has not wrapped
/// around. The new identifier is `job-<time>-<counter>`, differs from every
/// identifier handed out before and is held by no job,
/// so the job is simply added; it is kept and its owner sees it; every job
/// kept was there before; no running job is dropped; the number kept is all
/// of them within the bound, else the bound, or more when too few have
/// finished; a job dropped had finished and started no later than any
/// finished job kept; and the next counter is above every identifier held.
pub proof fn law_create_job(old: RegistryView, owner: Seq<char>, action: Seq<char>, command: Seq<char>, started: u64)
    requires
        registry_wf(old),
        !old.wrapped,
    ensures
        ({
            let j = created_job(old, owner, action, command, started);
            let after = evict(with_job(old.jobs, j), old.max_jobs);
            let n = old.jobs.len() + 1;
            let f = finished_count(old.jobs);
            &&& j.id == job_id(started, old.seq)
            &&& !contains_id(old.jobs, j.id)
            &&& with_job(old.jobs, j) == old.jobs.push(j)
            &&& contains_id(after, j.id) && after[index_of_id(after, j.id)] == j
            &&& visible_to(j, owner, false)
            &&& forall|x: JobView| #[trigger] after.contains(x) ==> old.jobs.contains(x) || x == j
            &&& forall|x: JobView| #[trigger] old.jobs.contains(x) && !finished(x) ==> after.contains(x)
            &&& after.len() == (if n <= old.max_jobs {
                n
            } else if n - f <= old.max_jobs {
                old.max_jobs
            } else {
                (n - f) as nat
            })
            &&& forall|x: JobView| #[trigger] old.jobs.contains(x) && !after.contains(x) ==> finished(x)
            &&& forall|x: JobView, y: JobView|
                #[trigger] old.jobs.contains(x) && !after.contains(x) && #[trigger] after.contains(y) && finished(y)
                    ==> x.started_at_ms <= y.started_at_ms
            &&& !old.issued.contains(j.id)
            &&& (old.seq < u64::MAX ==> ids_below(after, (old.seq + 1) as u64) && issued_below(
                old.issued.insert(j.id),
                (old.seq + 1) as u64,
            ))
        }),
{
    let j = created_job(old, owner, action, command, started);
    let w = old.jobs.push(j);
    let after = evict(with_job(old.jobs, j), old.max_jobs);
    if contains_id(old.jobs, j.id) {
        let k = choose|k: int| 0 <= k < old.jobs.len() && #[trigger] old.jobs[k].id == j.id;
        assert(old.jobs[k].id == job_id(started, old.seq));
    }
    assert(with_job(old.jobs, j) == w);
    assert(w.drop_last() =~= old.jobs);
    assert(w.last() == j);
    assert(finished_count(w) == finished_count(old.jobs));
    assert forall|a: int, b: int| 0 <= a < w.len() && 0 <= b < w.len() && a != b implies #[trigger] w[a].id
        != #[trigger] w[b].id by {
        if a == w.len() - 1 {
            assert(w[b] == old.jobs[b]);
        } else if b == w.len() - 1 {
            assert(w[a] == old.jobs[a]);
        } else {
            assert(w[a] == old.jobs[a]);
            assert(w[b] == old.jobs[b]);
        }
    }
    assert forall|k: int| 0 <= k < w.len() implies job_wf(#[trigger] w[k]) && w[k].max_bytes
        == old.max_bytes_per_job by {
        if k < w.len() - 1 {
            assert(w[k] == old.jobs[k]);
        }
    }
    lemma_evict_wf(w, old.max_jobs, old.max_bytes_per_job);
    law_new_job_kept(old.jobs, j, old.max_jobs);
    law_eviction_keeps_running(w, old.max_jobs);
    law_eviction_count(w, old.max_jobs);
    law_eviction_oldest_first(w, old.max_jobs);
    let c = choose|c: int| 0 <= c < after.len() && after[c] == j;
    lemma_id_index(after, c);
    assert forall|x: JobView| #[trigger] after.contains(x) implies old.jobs.contains(x) || x == j by {
        assert(w.contains(x));
        let t = choose|t: int| 0 <= t < w.len() && w[t] == x;
        if t < w.len() - 1 {
            assert(old.jobs[t] == x);
        }
    }
    assert forall|x: JobView| #[trigger] old.jobs.contains(x) && !finished(x) implies after.contains(x) by {
        let t = choose|t: int| 0 <= t < old.jobs.len() && old.jobs[t] == x;
        assert(w[t] == x);
    }
    assert forall|x: JobView| #[trigger] old.jobs.contains(x) && !after.contains(x) implies finished(x) by {
        let t = choose|t: int| 0 <= t < old.jobs.len() && old.jobs[t] == x;
        assert(w[t] == x);
        assert(w.contains(x));
    }
    assert forall|x: JobView, y: JobView|
        #[trigger] old.jobs.contains(x) && !after.contains(x) && #[trigger] after.contains(y) && finished(y)
            implies x.started_at_ms <= y.started_at_ms by {
        let t = choose|t: int| 0 <= t < old.jobs.len() && old.jobs[t] == x;
        assert(w[t] == x);
        assert(w.contains(x));
    }
    if old.issued.contains(j.id) {
        assert(old.issued.contains(j.id) && j.id == job_id(started, old.seq));
    }
    if old.seq < u64::MAX {
        assert forall|id: Seq<char>, ms: u64, s: u64|
            #[trigger] old.issued.insert(j.id).contains(id) && id == #[trigger] job_id(ms, s) implies s < (old.seq + 1) as u64 by {
            if id == j.id {
                if s != old.seq {
                    law_job_ids_distinct(started, old.seq, ms, s);
                }
            } else {
                assert(old.issued.contains(id));
            }
        }
    }
    assert forall|i: int, ms: u64, s: u64|
        0 <= i < after.len() && (#[trigger] after[i]).id == #[trigger] job_id(ms, s) && old.seq < u64::MAX implies s < (old.seq + 1) as u64 by {
        let x = after[i];
        assert(after.contains(x));
        if x == j {
            if s != old.seq {
                law_job_ids_distinct(started, old.seq, ms, s);
            }
        } else {
            let t = choose|t: int| 0 <= t < old.jobs.len() && old.jobs[t] == x;
            assert(old.jobs[t].id == job_id(ms, s));
        }
    }
}

/// Law: only the first report of a job's end counts.
pub proof fn law_finish_once(j: JobView, first: i32, at: u64, second: i32, later: u64)
    requires
        j.exit_code is None,
    ensures
        finished_with(finished_with(j, first, at), second, later) == finished_with(j, first, at),
        finished_with(j, first, at).exit_code == Some(first),
        finished_with(j, first, at).finished_at_ms == Some(at),
{
}

/// Two position sequences strictly ordered newest first, with the same
/// members, are equal.
pub proof fn lemma_sorted_unique(jobs: Seq<JobView>, a: Seq<usize>, b: Seq<usize>)
    requires
        forall|t: int, u: int| 0 <= t < u < a.len() ==> newer(jobs, #[trigger] a[t] as int, #[trigger] a[u] as int),
        forall|t: int, u: int| 0 <= t < u < b.len() ==> newer(jobs, #[trigger] b[t] as int, #[trigger] b[u] as int),
        forall|x: usize| a.contains(x) <==> b.contains(x),
    ensures
        a == b,
    decreases a.len(),
{
    if a.len() == 0 {
        if b.len() > 0 {
            assert(b.contains(b[0]));
        }
        assert(b.len() == 0);
    } else {
        assert(a.contains(a[0]));
        let t = choose|t: int| 0 <= t < b.len() && b[t] == a[0];
        assert(b.len() > 0);
        assert(b.contains(b[0]));
        let u = choose|u: int| 0 <= u < a.len() && a[u] == b[0];
        if t > 0 {
            assert(newer(jobs, b[0] as int, b[t] as int));
            if u > 0 {
                assert(newer(jobs, a[0] as int, a[u] as int));
            }
        }
        assert(a[0] == b[0]);
        let a1 = a.drop_first();
        let b1 = b.drop_first();
        assert forall|x: usize| a1.contains(x) <==> b1.contains(x) by {
            if a1.contains(x) {
                let i = choose|i: int| 0 <= i < a1.len() && a1[i] == x;
                assert(newer(jobs, a[0] as int, a[i + 1] as int));
                assert(x != a[0]);
                assert(a.contains(x));
                let j = choose|j: int| 0 <= j < b.len() && b[j] == x;
                assert(j != 0);
                assert(b1[j - 1] == x);
            }
            if b1.contains(x) {
                let i = choose|i: int| 0 <= i < b1.len() && b1[i] == x;
                assert(newer(jobs, b[0] as int, b[i + 1] as int));
                assert(x != b[0]);
                assert(b.contains(x));
                let j = choose|j: int| 0 <= j < a.len() && a[j] == x;
                assert(j != 0);
                assert(a1[j - 1] == x);
            }
        }
        assert forall|t: int, u: int| 0 <= t < u < a1.len() implies newer(jobs, #[trigger] a1[t] as int, #[trigger] a1[u] as int) by {
            assert(a1[t] == a[t + 1]);
            assert(a1[u] == a[u + 1]);
        }
        assert forall|t: int, u: int| 0 <= t < u < b1.len() implies newer(jobs, #[trigger] b1[t] as int, #[trigger] b1[u] as int) by {
            assert(b1[t] == b[t + 1]);
            assert(b1[u] == b[u + 1]);
        }
        lemma_sorted_unique(jobs, a1, b1);
        assert(a =~= seq![a[0]] + a1);
        assert(b =~= seq![b[0]] + b1);
    }
}

/// Law: the listing of the jobs a user sees is fully determined: newest first,
/// ties broken by creation order, nothing left out and nothing repeated.
pub proof fn law_listing_determined(
    jobs: Seq<JobView>,
    user: Seq<char>,
    is_admin: bool,
    a: Seq<usize>,
    b: Seq<usize>,
)
    requires
        listing_order(jobs, user, is_admin, a),
        listing_order(jobs, user, is_admin, b),
    ensures
        a == b,
{
    assert forall|x: usize| a.contains(x) <==> b.contains(x) by {
        if a.contains(x) {
            let t = choose|t: int| 0 <= t < a.len() && a[t] == x;
            assert(visible_to(jobs[a[t] as int], user, is_admin));
            let i = x as int;
            assert(visible_to(jobs[i], user, is_admin));
            let u = choose|u: int| 0 <= u < b.len() && b[u] == i;
            assert(b[u] == x);
        }
        if b.contains(x) {
            let t = choose|t: int| 0 <= t < b.len() && b[t] == x;
            assert(visible_to(jobs[b[t] as int], user, is_admin));
            let i = x as int;
            assert(visible_to(jobs[i], user, is_admin));
            let u = choose|u: int| 0 <= u < a.len() && a[u] == i;
            assert(a[u] == x);
        }
    }
    lemma_sorted_unique(jobs, a, b);
}

/// `std::time::SystemTime`, a reading of the machine's clock.
#[verifier::external_type_specification]
#[verifier::external_body]
pub struct ExSystemTime(std::time::SystemTime);

/// `SystemTime::now`: the machine's clock. Nothing is stated of it.
#[verifier::external_body]
fn clock_now() -> (r: std::time::SystemTime) {
    std::time::SystemTime::now()
}

/// `SystemTime::duration_since` with `UNIX_EPOCH`: how long after the epoch
/// `t` lies, none when it lies before. Nothing is stated of the duration: it
/// comes from the clock.
#[verifier::external_body]
fn since_epoch(t: &std::time::SystemTime) -> (r: Option<std::time::Duration>) {
    t.duration_since(std::time::UNIX_EPOCH).ok()
}

/// `Duration::as_millis`: the whole milliseconds of `d`. `Duration` is opaque
/// here, so nothing is stated of the number.
#[verifier::external_body]
fn whole_millis(d: &std::time::Duration) -> (r: u128) {
    d.as_millis()
}

/// The milliseconds a clock reading gives: the whole milliseconds since the
/// epoch truncated to 64 bits, 0 for a reading before the epoch.
pub fn epoch_ms(ms: Option<u128>) -> (r: u64)
    ensures
        ms matches Some(m) ==> r == m as u64,
        ms is None ==> r == 0,
{
    match ms {
        Some(m) => {
            #[verifier::truncate]
            let r = m as u64;
            r
        },
        None => 0,
    }
}

/// Milliseconds since the Unix epoch, truncated to 64 bits; 0 when the clock
/// is before the epoch (see [`epoch_ms`]). Nothing is stated of the clock.
pub fn now_ms() -> (r: u64) {
    let now = clock_now();
    let ms = match since_epoch(&now) {
        Some(d) => Some(whole_millis(&d)),
        None => None,
    };
    epoch_ms(ms)
}

/// A copy of a byte slice.
fn slice_to_vec(bytes: &[u8]) -> (v: Vec<u8>)
    ensures
        v@ == bytes@,
{
    let mut v: Vec<u8> = Vec::new();
    let mut i: usize = 0;
    while i < bytes.len()
        invariant
            i <= bytes.len(),
            v@ == bytes@.take(i as int),
        decreases bytes.len() - i,
    {
        v.push(bytes[i]);
        i = i + 1;
        assert(bytes@.take(i as int) =~= bytes@.take(i - 1).push(bytes@[i - 1]));
    }
    assert(bytes@.take(bytes.len() as int) =~= bytes@);
    v
}

} // verus!
