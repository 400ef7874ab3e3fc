//! The early job queue: work submitted before the scheduler can spawn
//! threads is queued here, and one server thread later spawns a thread for
//! each job, oldest first. A job is the handle of a boxed closure kept by
//! the caller.
use vstd::prelude::*;

verus! {

#[verifier::external_type_specification]
#[verifier::external_body]
#[verifier::reject_recursive_types(T)]
pub struct ExHeaplessDeque<T, const N: usize>(heapless::Deque<T, N>);

/// Most jobs pending at once.
pub const QUEUE_CAPACITY: usize = 64;

/// Largest closure (in bytes) a job can carry.
pub const SLOT_SIZE: usize = 128;

/// The jobs a `heapless::Deque` of job handles holds, front first.
pub uninterp spec fn job_entries(q: heapless::Deque<u64, 64>) -> Seq<u64>;

/// `heapless::Deque::new`: an empty queue.
#[verifier::external_body]
fn job_queue_new() -> (q: heapless::Deque<u64, 64>)
    ensures
        job_entries(q) == Seq::<u64>::empty(),
{
    heapless::Deque::new()
}

/// `heapless::Deque::push_back`: appends the job unless the queue is full
/// (64 jobs), and answers whether it did.
#[verifier::external_body]
fn job_queue_push_back(q: &mut heapless::Deque<u64, 64>, job: u64) -> (ok: bool)
    ensures
        ok == (job_entries(*old(q)).len() < 64),
        job_entries(*final(q)) == if ok {
            job_entries(*old(q)).push(job)
        } else {
            job_entries(*old(q))
        },
{
    q.push_back(job).is_ok()
}

/// `heapless::Deque::pop_front`: removes and returns the oldest job, if any.
#[verifier::external_body]
fn job_queue_pop_front(q: &mut heapless::Deque<u64, 64>) -> (r: Option<u64>)
    ensures
        job_entries(*old(q)).len() == 0 ==> r is None && job_entries(*final(q)) == job_entries(*old(q)),
        job_entries(*old(q)).len() > 0 ==> r == Some(job_entries(*old(q))[0]) && job_entries(*final(q))
            == job_entries(*old(q)).drop_first(),
{
    q.pop_front()
}

/// The queue and whether the server thread has been started.
pub struct ExecQueue {
    queue: heapless::Deque<u64, 64>,
    started: bool,
}

impl ExecQueue {
    /// The pending jobs, oldest first.
    pub closed spec fn jobs(&self) -> Seq<u64> {
        job_entries(self.queue)
    }

    /// Whether the server thread has been started.
    pub closed spec fn started_spec(&self) -> bool {
        self.started
    }

    /// The queue's invariant: it never holds more than `QUEUE_CAPACITY`
    /// jobs.
    pub open spec fn wf(&self) -> bool {
        self.jobs().len() <= QUEUE_CAPACITY
    }

    /// An empty queue, no server yet.
    pub fn new() -> (q: ExecQueue)
        ensures
            q.wf(),
            q.jobs() == Seq::<u64>::empty(),
            !q.started_spec(),
    {
        ExecQueue { queue: job_queue_new(), started: false }
    }
}

/// Starts the server once: `true` on the first call, when the caller spawns
/// the server thread; `false` afterwards.
pub fn init(q: &mut ExecQueue) -> (spawn_server: bool)
    ensures
        spawn_server == !old(q).started_spec(),
        final(q).started_spec(),
        final(q).jobs() == old(q).jobs(),
{
    if q.started {
        return false;
    }
    q.started = true;
    true
}

/// Queues job `job`, whose closure takes `closure_size` bytes. `Err`
/// exactly when the closure does not fit a slot or the queue already holds
/// `QUEUE_CAPACITY` jobs; the queue is then unchanged. Otherwise the job
/// goes to the back of the queue.
pub fn submit(q: &mut ExecQueue, closure_size: usize, job: u64) -> (r: Result<(), ()>)
    requires
        old(q).wf(),
    ensures
        final(q).wf(),
        final(q).started_spec() == old(q).started_spec(),
        r is Err <==> (closure_size > SLOT_SIZE || old(q).jobs().len() == QUEUE_CAPACITY),
        r is Err ==> final(q).jobs() == old(q).jobs(),
        r is Ok ==> final(q).jobs() == old(q).jobs().push(job),
{
    if closure_size > SLOT_SIZE {
        return Err(());
    }
    if !job_queue_push_back(&mut q.queue, job) {
        return Err(());
    }
    Ok(())
}

/// The server's next job, oldest first.
pub fn next_job(q: &mut ExecQueue) -> (r: Option<u64>)
    requires
        old(q).wf(),
    ensures
        final(q).wf(),
        final(q).started_spec() == old(q).started_spec(),
        old(q).jobs().len() == 0 ==> r is None && final(q).jobs() == old(q).jobs(),
        old(q).jobs().len() > 0 ==> r == Some(old(q).jobs()[0]) && final(q).jobs() == old(q).jobs().drop_first(),
{
    job_queue_pop_front(&mut q.queue)
}

/// Jobs leave the queue in the order they were submitted: after a job is
/// queued behind `pending`, the server takes the pending ones first and then
/// that job.
pub proof fn lemma_fifo(pending: Seq<u64>, job: u64)
    ensures
        ({
            let q = pending.push(job);
            &&& q[0] == if pending.len() > 0 {
                pending[0]
            } else {
                job
            }
            &&& q.subrange(0, pending.len() as int) == pending
            &&& q[pending.len() as int] == job
        }),
{
    assert(pending.push(job).subrange(0, pending.len() as int) =~= pending);
}

} // verus!
