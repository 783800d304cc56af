//! The server's in-memory log: the latest lines of its log output, kept in a
//! bounded queue that drops the oldest line when full, and read back by the
//! `logs` action.
use vstd::prelude::*;
use std::sync::Arc;
use atomicring::AtomicRingQueue;

verus! {

/// `atomicring::AtomicRingQueue`, a bounded lock-free queue shared between
/// threads.
#[verifier::external_type_specification]
#[verifier::external_body]
#[verifier::reject_recursive_types(T)]
pub struct ExAtomicRingQueue<T>(atomicring::AtomicRingQueue<T>);

/// The largest capacity `AtomicRingQueue::with_capacity` accepts.
pub open spec fn max_ring_capacity() -> int {
    (usize::MAX >> 16u32) + 1
}

/// The capacity of a queue (`AtomicRingQueue::capacity`): the number of slots
/// it was made with, fixed for its whole life; one of them always stays free.
pub uninterp spec fn queue_capacity(q: AtomicRingQueue<Vec<u8>>) -> nat;

/// The capacity a queue made for `n` items gets: the smallest power of two
/// that is at least `n`.
pub open spec fn rounded_capacity(n: nat, c: nat) -> bool {
    &&& vstd::arithmetic::power2::is_pow2(c as int)
    &&& n <= c < 2 * n
}

/// A power of two no smaller than three is at least four.
pub proof fn lemma_rounded_at_least_four(n: nat, c: nat)
    requires
        3 <= n,
        rounded_capacity(n, c),
    ensures
        c >= 4,
{
    if c == 3 {
        assert(!vstd::arithmetic::power2::is_pow2(3)) by {
            reveal(vstd::arithmetic::power2::is_pow2);
        }
    }
}

/// `AtomicRingQueue::with_capacity`, shared: an empty queue whose capacity
/// is `capacity` rounded up to a power of two (`usize::next_power_of_two`),
/// of which one slot stays free.
/// It panics above [`max_ring_capacity`]; below 3, the queue holds at most one
/// item, and `push_overwrite` on a full queue then never returns (it cannot
/// remove the last item), so such capacities are left out. Since the queue is
/// shared between threads, nothing is claimed of its contents.
#[verifier::external_body]
fn new_queue(capacity: usize) -> (r: Arc<AtomicRingQueue<Vec<u8>>>)
    requires
        3 <= capacity <= max_ring_capacity(),
    ensures
        rounded_capacity(capacity as nat, queue_capacity(*r)),
{
    Arc::new(AtomicRingQueue::with_capacity(capacity))
}

/// `AtomicRingQueue::push_overwrite`: adds the line, dropping the oldest one
/// when the queue is full. To make room it never removes the last item, so
/// on a full queue with fewer than four slots (room for one item or none) it
/// never returns: such queues are left out. Nothing is claimed of the
/// contents (shared).
#[verifier::external_body]
fn push_overwrite(queue: &AtomicRingQueue<Vec<u8>>, line: Vec<u8>)
    requires
        queue_capacity(*queue) >= 4,
{
    queue.push_overwrite(line)
}

/// `AtomicRingQueue::capacity`: the queue's slot count.
#[verifier::external_body]
fn queue_slots(queue: &AtomicRingQueue<Vec<u8>>) -> (r: usize)
    ensures
        r == queue_capacity(*queue),
{
    queue.capacity()
}

/// `Arc::clone`: another handle on the same queue, so of the same capacity.
#[verifier::external_body]
fn share_queue(queue: &Arc<AtomicRingQueue<Vec<u8>>>) -> (r: Arc<AtomicRingQueue<Vec<u8>>>)
    ensures
        queue_capacity(*r) == queue_capacity(**queue),
{
    Arc::clone(queue)
}

/// `AtomicRingQueue::try_pop`: the oldest line, none when the queue is empty.
/// Nothing is claimed of the result: other threads share the queue.
#[verifier::external_body]
fn try_pop(queue: &AtomicRingQueue<Vec<u8>>) -> (r: Option<Vec<u8>>) {
    queue.try_pop()
}

/// Length of the first line of `buf`: the bytes before its first line break.
pub open spec fn first_line_len(buf: Seq<u8>) -> int
    decreases buf.len(),
{
    if buf.len() == 0 || buf[0] == 10u8 {
        0
    } else {
        1 + first_line_len(buf.drop_first())
    }
}

pub proof fn lemma_first_line_len(buf: Seq<u8>, i: int)
    requires
        0 <= i <= buf.len(),
        forall|j: int| 0 <= j < i ==> buf[j] != 10u8,
        i == buf.len() || buf[i] == 10u8,
    ensures
        first_line_len(buf) == i,
    decreases i,
{
    if i > 0 {
        let t = buf.drop_first();
        assert forall|j: int| 0 <= j < i - 1 implies t[j] != 10u8 by {
            assert(t[j] == buf[j + 1]);
        }
        assert(i - 1 == t.len() || t[i - 1] == buf[i]);
        lemma_first_line_len(t, i - 1);
    }
}

/// The entry a write of `buf` puts in the log: its first line, ended by a
/// line break; none when that line is empty.
pub open spec fn log_entry_of(buf: Seq<u8>) -> Option<Seq<u8>> {
    let n = first_line_len(buf);
    if n == 0 {
        None
    } else {
        Some(buf.take(n).push(10u8))
    }
}

/// How many bytes a write of `buf` consumes: none of an empty buffer, the
/// line break alone when the first line is empty, else the first line.
pub open spec fn consumed(buf: Seq<u8>) -> int {
    if buf.len() == 0 {
        0
    } else if first_line_len(buf) == 0 {
        1
    } else {
        first_line_len(buf)
    }
}

/// The entry a write of `buf` puts in the log (see [`log_entry_of`]), and how
/// many bytes it consumes (see [`consumed`]).
pub fn log_entry(buf: &[u8]) -> (r: (usize, Option<Vec<u8>>))
    ensures
        r.0 == consumed(buf@),
        r.1 matches Some(e) ==> log_entry_of(buf@) == Some(e@),
        r.1 is None ==> log_entry_of(buf@) is None,
{
    let mut line: Vec<u8> = Vec::new();
    let mut i: usize = 0;
    while i < buf.len() && buf[i] != 10u8
        invariant
            i <= buf@.len(),
            line@ == buf@.take(i as int),
            forall|j: int| 0 <= j < i ==> buf@[j] != 10u8,
        decreases buf@.len() - i,
    {
        line.push(buf[i]);
        i = i + 1;
        assert(line@ =~= buf@.take(i as int));
    }
    proof {
        lemma_first_line_len(buf@, i as int);
    }
    if buf.len() == 0 {
        return (0, None);
    }
    if i == 0 {
        return (1, None);
    }
    line.push(10u8);
    (i, Some(line))
}

/// The lines kept after a take: a non-empty line is added, an empty one or
/// an empty queue (none) adds nothing.
pub open spec fn after_take(out: Seq<Seq<u8>>, take: Option<Seq<u8>>) -> Seq<Seq<u8>> {
    match take {
        Some(l) => if l.len() > 0 {
            out.push(l)
        } else {
            out
        },
        None => out,
    }
}

/// The lines kept of a run of takes, in order.
pub open spec fn kept_lines(takes: Seq<Option<Seq<u8>>>) -> Seq<Seq<u8>>
    decreases takes.len(),
{
    if takes.len() == 0 {
        seq![]
    } else {
        after_take(kept_lines(takes.drop_last()), takes.last())
    }
}

/// What a take found, as bytes.
pub open spec fn take_view(popped: Option<Vec<u8>>) -> Option<Seq<u8>> {
    match popped {
        Some(l) => Some(l@),
        None => None,
    }
}

/// A run of takes that `drain` makes: at most `max`, every one but the last
/// found a line, and it stops early only when the queue was empty.
pub open spec fn drain_run(takes: Seq<Option<Seq<u8>>>, max: nat) -> bool {
    &&& takes.len() <= max
    &&& forall|i: int| 0 <= i < takes.len() - 1 ==> #[trigger] takes[i] is Some
    &&& (takes.len() < max ==> takes.len() > 0 && takes.last() is None)
}

/// One take of `drain`: `popped` is what the queue handed out; a non-empty
/// line is kept, and the run goes on unless the queue was empty.
pub fn drain_step(out: &mut Vec<Vec<u8>>, popped: Option<Vec<u8>>) -> (go_on: bool)
    ensures
        go_on == (popped is Some),
        final(out)@ == match popped {
            Some(l) => if l@.len() > 0 {
                old(out)@.push(l)
            } else {
                old(out)@
            },
            None => old(out)@,
        },
{
    match popped {
        Some(line) => {
            if line.len() > 0 {
                out.push(line);
            }
            true
        },
        None => false,
    }
}

/// The writer that the server's log output goes through into the queue.
pub struct RingWriter {
    queue: Arc<AtomicRingQueue<Vec<u8>>>,
    /// The entries this writer has handed to the queue, oldest first.
    handed: Ghost<Seq<Seq<u8>>>,
}

impl RingWriter {
    /// Its queue has room for at least three lines, so that a push to it
    /// returns.
    #[verifier::type_invariant]
    spec fn has_room(self) -> bool {
        queue_capacity(*self.queue) >= 4
    }

    /// The capacity of the writer's queue.
    pub closed spec fn capacity_of(self) -> nat {
        queue_capacity(*self.queue)
    }

    /// The entries this writer has handed to its queue, oldest first (the
    /// queue drops the oldest when full, and other writers share it).
    pub closed spec fn handed(self) -> Seq<Seq<u8>> {
        self.handed@
    }

    /// A writer into a new queue of the given capacity, rounded up to a power
    /// of two (see `new_queue` for the bounds).
    pub fn new(capacity: usize) -> (r: RingWriter)
        requires
            3 <= capacity <= max_ring_capacity(),
        ensures
            rounded_capacity(capacity as nat, r.capacity_of()),
            r.capacity_of() >= 4,
            r.handed() == Seq::<Seq<u8>>::empty(),
    {
        let queue = new_queue(capacity);
        assert(queue_capacity(*queue) >= 4) by {
            lemma_rounded_at_least_four(capacity as nat, queue_capacity(*queue));
        }
        RingWriter { queue, handed: Ghost(Seq::empty()) }
    }

    /// The capacity of the writer's queue (see [`rounded_capacity`]).
    pub fn capacity(&self) -> (r: usize)
        ensures
            r == self.capacity_of(),
    {
        queue_slots(&self.queue)
    }

    /// Writes the first line of `buf` into the log (see [`log_entry`]) and
    /// tells how many bytes it consumed.
    pub fn write(&mut self, buf: &[u8]) -> (r: usize)
        ensures
            r == consumed(buf@),
            final(self).capacity_of() == old(self).capacity_of(),
            final(self).handed() == old(self).handed() + match log_entry_of(buf@) {
                Some(e) => seq![e],
                None => Seq::<Seq<u8>>::empty(),
            },
    {
        proof {
            use_type_invariant(&*self);
        }
        let (n, entry) = log_entry(buf);
        match entry {
            Some(e) => {
                let ghost line = e@;
                push_overwrite(&self.queue, e);
                self.handed = Ghost(self.handed@.push(line));
                assert(self.handed@ =~= old(self).handed@ + seq![line]);
            },
            None => {
                assert(self.handed@ =~= old(self).handed@ + Seq::<Seq<u8>>::empty());
            },
        }
        n
    }

    /// Another writer into the same queue.
    pub fn share(&self) -> (r: RingWriter)
        ensures
            r.capacity_of() == self.capacity_of(),
            r.handed() == Seq::<Seq<u8>>::empty(),
    {
        proof {
            use_type_invariant(self);
        }
        RingWriter { queue: share_queue(&self.queue), handed: Ghost(Seq::empty()) }
    }

    /// Nothing is buffered.
    pub fn flush(&mut self) {
    }

    /// Takes up to `max` lines out of the log, oldest first, passing over
    /// empty ones; it stops early when the log is empty. What the queue
    /// hands out depends on the other writers and readers; whatever it is,
    /// the lines returned are those [`drain_step`] keeps of a run of at most
    /// `max` takes that stops at the first empty take.
    pub fn drain(&self, max: usize) -> (r: Vec<Vec<u8>>)
        ensures
            r@.len() <= max,
            forall|i: int| 0 <= i < r@.len() ==> #[trigger] r@[i]@.len() > 0,
            exists|takes: Seq<Option<Seq<u8>>>| #[trigger] drain_run(takes, max as nat) && r@.map_values(
                |l: Vec<u8>| l@,
            ) == kept_lines(takes),
    {
        let mut out: Vec<Vec<u8>> = Vec::new();
        let mut taken: usize = 0;
        let ghost mut takes: Seq<Option<Seq<u8>>> = Seq::empty();
        let mut going = true;
        while going && taken < max
            invariant
                taken <= max,
                takes.len() == taken,
                out@.len() <= taken,
                forall|i: int| 0 <= i < out@.len() ==> #[trigger] out@[i]@.len() > 0,
                out@.map_values(|l: Vec<u8>| l@) == kept_lines(takes),
                forall|i: int| 0 <= i < takes.len() - 1 ==> #[trigger] takes[i] is Some,
                going <==> (takes.len() == 0 || takes.last() is Some),
            decreases max - taken,
        {
            let popped = try_pop(&self.queue);
            let ghost p = take_view(popped);
            let ghost before = out@;
            going = drain_step(&mut out, popped);
            proof {
                let prev = takes;
                takes = takes.push(p);
                assert(takes.drop_last() =~= prev);
                assert(takes.last() == p);
                assert(out@.map_values(|l: Vec<u8>| l@) =~= after_take(
                    before.map_values(|l: Vec<u8>| l@),
                    p,
                ));
                assert(kept_lines(takes) == after_take(kept_lines(prev), p));
                assert forall|i: int| 0 <= i < takes.len() - 1 implies #[trigger] takes[i] is Some by {
                    assert(takes[i] == prev[i]);
                }
            }
            taken = taken + 1;
        }
        proof {
            assert(drain_run(takes, max as nat));
        }
        out
    }
}

impl Clone for RingWriter {
    /// Another writer into the same queue (see [`RingWriter::share`]).
    fn clone(&self) -> (r: RingWriter)
        ensures
            r.capacity_of() == self.capacity_of(),
    {
        self.share()
    }
}

} // verus!
