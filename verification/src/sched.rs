//! The preemptive round-robin run queue: task states and time slices, the
//! choice of the next task, what a timer tick switches to, spawning, exit
//! and the reaping of dead tasks.
//!
//! The machine work around these decisions (saving and restoring the SIMD
//! areas, carving stacks, writing the first stack frame) is done by the
//! caller with the values these functions hand back.
use vstd::prelude::*;
use crate::regs::TrapFrame;

verus! {

/// Where a task is in its life.
#[derive(Clone, Copy, Debug, PartialEq, Eq, Structural)]
pub enum TaskState {
    Ready,
    Running,
    Dead,
}

/// Task identifiers are handed out in increasing order.
pub type TaskId = u64;

/// Timer ticks a task runs before it is preempted.
pub const DEFAULT_SLICE: u32 = 5;

/// The slice of the idle task: it is never preempted by its slice running out.
pub const IDLE_SLICE: u32 = 0xFFFF_FFFF;

/// One task: its identity, state, remaining slice and saved registers.
#[derive(Clone, Copy, Debug)]
pub struct Task {
    pub id: TaskId,
    pub state: TaskState,
    pub time_slice: u32,
    pub tf: TrapFrame,
}

/// The run queue: tasks by index, the index of the running one, the next
/// identifier and whether a reschedule is pending.
pub struct RunQueue {
    pub tasks: Vec<Task>,
    pub current: Option<usize>,
    pub next_id: TaskId,
    pub need_resched: bool,
}

/// The abstract state of a run queue.
#[verifier::ext_equal]
pub struct RqState {
    pub tasks: Seq<Task>,
    pub current: Option<usize>,
    pub next_id: TaskId,
    pub need_resched: bool,
}

impl View for RunQueue {
    type V = RqState;

    open spec fn view(&self) -> RqState {
        RqState {
            tasks: self.tasks@,
            current: self.current,
            next_id: self.next_id,
            need_resched: self.need_resched,
        }
    }
}

/// The current index, where there is one, names a task.
pub open spec fn current_ok(s: RqState) -> bool {
    s.current matches Some(c) ==> c < s.tasks.len()
}

/// Only the current task is marked running.
pub open spec fn running_ok(s: RqState) -> bool {
    forall|i: int|
        0 <= i < s.tasks.len() && (#[trigger] s.tasks[i]).state is Running ==> (s.current matches Some(
            c) && c == i)
}

/// Identifiers are distinct and all below the next one to be handed out.
pub open spec fn ids_ok(s: RqState) -> bool {
    &&& forall|i: int| 0 <= i < s.tasks.len() ==> (#[trigger] s.tasks[i]).id < s.next_id
    &&& forall|i: int, j: int|
        0 <= i < s.tasks.len() && 0 <= j < s.tasks.len() && i != j ==> (#[trigger] s.tasks[i]).id
            != (#[trigger] s.tasks[j]).id
}

/// The `k`-th index of the round that starts just after `c`, wrapping at `n`.
pub open spec fn round_index(c: int, k: int, n: int) -> int {
    if c + 1 + k < n {
        c + 1 + k
    } else {
        c + 1 + k - n
    }
}

/// The first ready task other than `c` among the candidates `k..` of the
/// round after `c`.
pub open spec fn scan_after(tasks: Seq<Task>, c: int, k: int) -> Option<int>
    decreases tasks.len() - k,
{
    if k >= tasks.len() {
        None
    } else {
        let j = round_index(c, k, tasks.len() as int);
        if j != c && tasks[j].state is Ready {
            Some(j)
        } else {
            scan_after(tasks, c, k + 1)
        }
    }
}

/// The first ready task at index `k` or later.
pub open spec fn first_ready(tasks: Seq<Task>, k: int) -> Option<int>
    decreases tasks.len() - k,
{
    if k >= tasks.len() {
        None
    } else if tasks[k].state is Ready {
        Some(k)
    } else {
        first_ready(tasks, k + 1)
    }
}

/// The task to run next: the first ready one in the round after the current
/// task (or from the start when none is current); else task 0 if it is ready.
pub open spec fn pick_spec(tasks: Seq<Task>, current: Option<usize>) -> Option<int> {
    if tasks.len() == 0 {
        None
    } else {
        let scanned = match current {
            Some(c) => scan_after(tasks, c as int, 0),
            None => first_ready(tasks, 0),
        };
        match scanned {
            Some(j) => Some(j),
            None => if tasks[0].state is Ready {
                Some(0)
            } else {
                None
            },
        }
    }
}

/// An index option as an integer option.
pub open spec fn as_int(o: Option<usize>) -> Option<int> {
    match o {
        Some(i) => Some(i as int),
        None => None,
    }
}

/// The current task's slice after one tick: the idle slice never moves; any
/// other counts down and is refilled when it reaches zero.
pub open spec fn slice_after_tick(s: u32) -> u32 {
    if s != IDLE_SLICE && s > 0 {
        if s == 1 {
            DEFAULT_SLICE
        } else {
            (s - 1) as u32
        }
    } else {
        s
    }
}

/// Whether this tick uses up the slice.
pub open spec fn slice_expires(s: u32) -> bool {
    s != IDLE_SLICE && s == 1
}

/// Whether some task other than `c` is ready.
pub open spec fn other_ready(tasks: Seq<Task>, c: int) -> bool {
    exists|i: int| 0 <= i < tasks.len() && i != c && (#[trigger] tasks[i]).state is Ready
}

/// The state after the slice accounting of a tick, and whether the tick must
/// switch even without a pending reschedule (idle runs while work is ready).
pub open spec fn tick_account(s: RqState) -> (RqState, bool) {
    match s.current {
        Some(c) => {
            let t = s.tasks[c as int];
            let ns = slice_after_tick(t.time_slice);
            (
                RqState {
                    tasks: s.tasks.update(c as int, Task { time_slice: ns, ..t }),
                    need_resched: s.need_resched || slice_expires(t.time_slice),
                    ..s
                },
                ns == IDLE_SLICE && other_ready(s.tasks, c as int),
            )
        },
        None => (RqState { need_resched: true, ..s }, true),
    }
}

/// Switching from the current task (which keeps `tf`, goes back to ready and
/// gets a fresh slice unless it is idle) to task `nx`, which becomes running.
pub open spec fn switch_to(s: RqState, nx: int, tf: TrapFrame) -> RqState {
    let tasks2 = match s.current {
        Some(c) => {
            let t = s.tasks[c as int];
            s.tasks.update(
                c as int,
                Task {
                    state: TaskState::Ready,
                    time_slice: if t.time_slice != IDLE_SLICE {
                        DEFAULT_SLICE
                    } else {
                        t.time_slice
                    },
                    tf: tf,
                    ..t
                },
            )
        },
        None => s.tasks,
    };
    RqState {
        tasks: tasks2.update(nx, Task { state: TaskState::Running, ..tasks2[nx] }),
        current: Some(nx as usize),
        need_resched: false,
        ..s
    }
}

/// One timer tick taken with the interrupted frame `tf`: the new state and
/// the frame to return to.
pub open spec fn tick_spec(s: RqState, tf: TrapFrame) -> (RqState, TrapFrame) {
    let (s1, extra) = tick_account(s);
    if !(s1.need_resched || extra) {
        (s1, tf)
    } else {
        match pick_spec(s1.tasks, s1.current) {
            None => (s1, tf),
            Some(nx) => {
                let s2 = switch_to(s1, nx, tf);
                (s2, s2.tasks[nx].tf)
            },
        }
    }
}

/// Inserting a new task at the front: the current index moves with the task
/// it names.
pub open spec fn spawn_spec(s: RqState, tf: TrapFrame) -> RqState {
    RqState {
        tasks: seq![
            Task { id: s.next_id, state: TaskState::Ready, time_slice: DEFAULT_SLICE, tf: tf },
        ] + s.tasks,
        current: match s.current {
            Some(c) => Some((c + 1) as usize),
            None => None,
        },
        next_id: (s.next_id + 1) as u64,
        ..s
    }
}

/// Marking the current task dead; it is reaped after two slices' worth of
/// reaper rounds.
pub open spec fn kill_spec(s: RqState) -> RqState {
    match s.current {
        Some(c) => RqState {
            tasks: s.tasks.update(
                c as int,
                Task {
                    state: TaskState::Dead,
                    time_slice: (DEFAULT_SLICE * 2) as u32,
                    ..s.tasks[c as int]
                },
            ),
            ..s
        },
        None => s,
    }
}

impl RunQueue {
    /// An empty queue, as the first use of the scheduler creates it.
    pub fn new() -> (rq: RunQueue)
        ensures
            rq@.tasks.len() == 0,
            rq@.current is None,
            rq@.next_id == 0,
            rq@.need_resched,
    {
        RunQueue { tasks: Vec::new(), current: None, next_id: 0, need_resched: true }
    }

    /// The next task to run (see `pick_spec`).
    pub fn pick_next(&self) -> (r: Option<usize>)
        requires
            current_ok(self@),
        ensures
            as_int(r) == pick_spec(self@.tasks, self@.current),
    {
        let n = self.tasks.len();
        if n == 0 {
            return None;
        }
        match self.current {
            Some(c) => {
                let rem = n - 1 - c;
                let mut k: usize = 0;
                while k < n
                    invariant
                        k <= n,
                        n == self.tasks.len(),
                        c < n,
                        rem == n - 1 - c,
                        self.current == Some(c),
                        scan_after(self@.tasks, c as int, 0) == scan_after(
                            self@.tasks,
                            c as int,
                            k as int,
                        ),
                    decreases n - k,
                {
                    let j = if k < rem {
                        c + 1 + k
                    } else {
                        k - rem
                    };
                    if j != c && matches!(self.tasks[j].state, TaskState::Ready) {
                        return Some(j);
                    }
                    k += 1;
                }
            },
            None => {
                let mut i: usize = 0;
                while i < n
                    invariant
                        i <= n,
                        n == self.tasks.len(),
                        self.current is None,
                        first_ready(self@.tasks, 0) == first_ready(self@.tasks, i as int),
                    decreases n - i,
                {
                    if matches!(self.tasks[i].state, TaskState::Ready) {
                        return Some(i);
                    }
                    i += 1;
                }
            },
        }
        if matches!(self.tasks[0].state, TaskState::Ready) {
            Some(0)
        } else {
            None
        }
    }

    /// Whether some task other than `c` is ready.
    fn any_other_ready(&self, c: usize) -> (r: bool)
        ensures
            r == other_ready(self@.tasks, c as int),
    {
        let n = self.tasks.len();
        let mut i: usize = 0;
        while i < n
            invariant
                i <= n,
                n == self.tasks.len(),
                forall|j: int| 0 <= j < i && j != c ==> (#[trigger] self@.tasks[j]).state !is Ready,
            decreases n - i,
        {
            if i != c && matches!(self.tasks[i].state, TaskState::Ready) {
                assert(self@.tasks[i as int].state is Ready);
                return true;
            }
            i += 1;
        }
        false
    }

    /// One timer tick taken with the interrupted frame `tf`: accounts the
    /// current slice and, where a reschedule is due, switches to the next
    /// ready task. Returns the frame to resume and, when it switched, the
    /// previous task's index (if any) and the new one, whose SIMD areas the
    /// caller saves and restores.
    pub fn tick(&mut self, tf: TrapFrame) -> (r: (TrapFrame, Option<(Option<usize>, usize)>))
        requires
            current_ok(old(self)@),
        ensures
            (final(self)@, r.0) == tick_spec(old(self)@, tf),
            match r.1 {
                None => final(self)@.current == old(self)@.current,
                Some((prev, nx)) => prev == old(self)@.current && final(self)@.current == Some(nx)
                    && nx < final(self)@.tasks.len(),
            },
            final(self)@.tasks.len() == old(self)@.tasks.len(),
            current_ok(final(self)@),
    {
        let ghost s0 = self@;
        let extra: bool;
        match self.current {
            Some(c) => {
                let mut t = self.tasks[c];
                if t.time_slice != IDLE_SLICE && t.time_slice > 0 {
                    t.time_slice = t.time_slice - 1;
                    if t.time_slice == 0 {
                        t.time_slice = DEFAULT_SLICE;
                        self.need_resched = true;
                    }
                }
                self.tasks.set(c, t);
                let cur_is_idle = t.time_slice == IDLE_SLICE;
                let some_ready = self.any_other_ready(c);
                proof {
                    assert forall|i: int| 0 <= i < self@.tasks.len() && i != c implies (
                    #[trigger] self@.tasks[i]).state == s0.tasks[i].state by {}
                    if other_ready(self@.tasks, c as int) {
                        let i = choose|i: int|
                            0 <= i < self@.tasks.len() && i != c && (
                            #[trigger] self@.tasks[i]).state is Ready;
                        assert(s0.tasks[i].state is Ready);
                    }
                    if other_ready(s0.tasks, c as int) {
                        let i = choose|i: int|
                            0 <= i < s0.tasks.len() && i != c && (
                            #[trigger] s0.tasks[i]).state is Ready;
                        assert(self@.tasks[i].state is Ready);
                    }
                }
                extra = cur_is_idle && some_ready;
            },
            None => {
                self.need_resched = true;
                extra = true;
            },
        }
        let ghost s1 = self@;
        assert(s1 =~= tick_account(s0).0);
        assert(extra == tick_account(s0).1);
        if !(self.need_resched || extra) {
            return (tf, None);
        }
        let picked = self.pick_next();
        proof {
            lemma_pick_is_ready(self@.tasks, self@.current);
        }
        let next_idx = match picked {
            None => {
                return (tf, None);
            },
            Some(i) => i,
        };
        let prev = self.current;
        if let Some(c) = self.current {
            let mut t = self.tasks[c];
            t.state = TaskState::Ready;
            if t.time_slice != IDLE_SLICE {
                t.time_slice = DEFAULT_SLICE;
            }
            t.tf = tf;
            self.tasks.set(c, t);
        }
        self.need_resched = false;
        let mut nt = self.tasks[next_idx];
        nt.state = TaskState::Running;
        self.tasks.set(next_idx, nt);
        self.current = Some(next_idx);
        assert(self@ =~= switch_to(s1, next_idx as int, tf));
        (self.tasks[next_idx].tf, Some((prev, next_idx)))
    }

    /// Puts a new ready task with saved frame `tf` at the front of the queue
    /// and returns its identifier.
    pub fn spawn_task(&mut self, tf: TrapFrame) -> (id: TaskId)
        requires
            old(self)@.next_id < u64::MAX,
            old(self)@.current matches Some(c) ==> c < usize::MAX,
        ensures
            id == old(self)@.next_id,
            final(self)@ == spawn_spec(old(self)@, tf),
    {
        let id = self.next_id;
        self.next_id = self.next_id + 1;
        let task = Task { id, state: TaskState::Ready, time_slice: DEFAULT_SLICE, tf };
        self.tasks.insert(0, task);
        if let Some(c) = self.current {
            self.current = Some(c + 1);
        }
        assert(self@ =~= spawn_spec(old(self)@, tf));
        id
    }

    /// Marks the current task dead; it stays in the queue until the reaper
    /// has seen it for two slices' worth of rounds.
    pub fn kill_current(&mut self)
        requires
            current_ok(old(self)@),
        ensures
            final(self)@ == kill_spec(old(self)@),
    {
        if let Some(c) = self.current {
            let mut t = self.tasks[c];
            t.state = TaskState::Dead;
            t.time_slice = DEFAULT_SLICE * 2;
            self.tasks.set(c, t);
        }
        assert(self@ =~= kill_spec(old(self)@));
    }
}

/// The reaper ages a dead task whose grace period has not run out.
pub open spec fn aged(t: Task) -> Task {
    if t.state is Dead && t.time_slice != 0 {
        Task { time_slice: (t.time_slice - 1) as u32, ..t }
    } else {
        t
    }
}

/// A dead task whose grace period has run out.
pub open spec fn doomed(t: Task) -> bool {
    t.state is Dead && t.time_slice == 0
}

/// The identifiers of the doomed tasks among the first `k`, the last first.
pub open spec fn doomed_rev(tasks: Seq<Task>, k: int) -> Seq<u64>
    decreases k,
{
    if k <= 0 {
        seq![]
    } else if doomed(tasks[k - 1]) {
        seq![tasks[k - 1].id] + doomed_rev(tasks, k - 1)
    } else {
        doomed_rev(tasks, k - 1)
    }
}

/// The first index at or after `i` whose task does not carry `id`.
pub open spec fn first_other(tasks: Seq<Task>, id: u64, i: int) -> int
    decreases tasks.len() - i,
{
    if i >= tasks.len() {
        i
    } else if tasks[i].id == id {
        first_other(tasks, id, i + 1)
    } else {
        i
    }
}

/// The removals of a reaper round: for each identifier in turn, the task at
/// the first index that does not carry it is taken out of the queue. `None`
/// where such an index runs past the end.
pub open spec fn reap_steps(tasks: Seq<Task>, ids: Seq<u64>) -> Option<Seq<Task>>
    decreases ids.len(),
{
    if ids.len() == 0 {
        Some(tasks)
    } else {
        let i = first_other(tasks, ids[0], 0);
        if i >= tasks.len() {
            None
        } else {
            reap_steps(tasks.remove(i), ids.drop_first())
        }
    }
}

/// One reaper round over `tasks`: age the dead, then remove as above.
pub open spec fn reap_spec(tasks: Seq<Task>) -> Option<Seq<Task>> {
    reap_steps(tasks.map_values(|t: Task| aged(t)), doomed_rev(tasks, tasks.len() as int))
}

/// Where a new kernel thread starts: its saved frame, the address of its
/// first stack frame and the five words written there (trampoline, code
/// selector, flags, argument, entry).
pub struct ThreadStart {
    pub tf: TrapFrame,
    pub frame_addr: u64,
    pub words: [u64; 5],
}

/// The 16-byte aligned top of a stack whose last byte is at `last`, and the
/// frame six words below it.
pub open spec fn start_frame(last: u64) -> u64 {
    ((last & !0xFu64) - 0x30) as u64
}

/// The saved frame of a new thread: it resumes in the trampoline on its
/// first frame with interrupts enabled.
pub open spec fn start_tf(frame: u64, trampoline: u64, cs: u64, ss: u64) -> TrapFrame {
    TrapFrame { rip: trampoline, rsp: frame, cs: cs, rflags: 0x202, ss: ss, ..TrapFrame::zero_spec() }
}

/// Builds the start of a kernel thread on the stack whose last byte is at
/// `stack_last`; `cs` is the frame's code selector.
pub fn thread_start(stack_last: u64, trampoline: u64, entry: u64, arg: u64, words_cs: u64, cs: u64, ss: u64) -> (r: ThreadStart)
    requires
        stack_last >= 0x30,
    ensures
        r.frame_addr == start_frame(stack_last),
        r.frame_addr % 16 == 0,
        r.words@ == seq![trampoline, words_cs, 0x202u64, arg, entry],
        r.tf == start_tf(r.frame_addr, trampoline, cs, ss),
{
    let top = stack_last & !0xFu64;
    assert(stack_last >= 0x30 ==> (stack_last & !0xFu64) >= 0x30) by (bit_vector);
    assert((stack_last & !0xFu64) % 16 == 0) by (bit_vector);
    let frame = top - 0x30;
    let mut tf = TrapFrame::zeroed();
    tf.rip = trampoline;
    tf.rsp = frame;
    tf.cs = cs;
    tf.rflags = 0x202;
    tf.ss = ss;
    ThreadStart { tf, frame_addr: frame, words: [trampoline, words_cs, 0x202u64, arg, entry] }
}

/// Installs the idle task (slot 0, never preempted by its slice) whose stack
/// ends at `stack_last`; it enters `idle_main` through the trampoline. The
/// current index is left as it is. Returns the idle task's start.
pub fn init(rq: &mut RunQueue, stack_last: u64, trampoline: u64, idle_main: u64, kernel_cs: u16, kernel_ds: u16) -> (r: ThreadStart)
    requires
        stack_last >= 0x30,
        old(rq)@.next_id < u64::MAX,
    ensures
        r.frame_addr == start_frame(stack_last),
        r.words@ == seq![trampoline, kernel_cs as u64, 0x202u64, 0u64, idle_main],
        r.tf == start_tf(r.frame_addr, trampoline, (kernel_cs as u64) & !3u64, kernel_ds as u64),
        final(rq)@ == (RqState {
            tasks: seq![Task { id: old(rq)@.next_id, state: TaskState::Ready, time_slice: IDLE_SLICE, tf: r.tf }]
                + old(rq)@.tasks,
            next_id: (old(rq)@.next_id + 1) as u64,
            ..old(rq)@
        }),
{
    let start = thread_start(stack_last, trampoline, idle_main, 0, kernel_cs as u64, (kernel_cs as u64) & !3u64, kernel_ds as u64);
    let id = rq.next_id;
    rq.next_id = rq.next_id + 1;
    rq.tasks.insert(0, Task { id, state: TaskState::Ready, time_slice: IDLE_SLICE, tf: start.tf });
    start
}

/// Spawns a kernel thread running `entry(arg)` on the stack whose last byte
/// is at `stack_last`: returns its identifier and where it starts.
pub fn spawn(rq: &mut RunQueue, stack_last: u64, trampoline: u64, entry: u64, arg: u64, kernel_cs: u16, kernel_ds: u16) -> (r: (TaskId, ThreadStart))
    requires
        stack_last >= 0x30,
        old(rq)@.next_id < u64::MAX,
        old(rq)@.current matches Some(c) ==> c < usize::MAX,
    ensures
        r.0 == old(rq)@.next_id,
        r.1.frame_addr == start_frame(stack_last),
        r.1.words@ == seq![trampoline, kernel_cs as u64, 0x202u64, arg, entry],
        r.1.tf == start_tf(r.1.frame_addr, trampoline, kernel_cs as u64, kernel_ds as u64),
        final(rq)@ == spawn_spec(old(rq)@, r.1.tf),
{
    let start = thread_start(stack_last, trampoline, entry, arg, kernel_cs as u64, kernel_cs as u64, kernel_ds as u64);
    let id = rq.spawn_task(start.tf);
    (id, start)
}

/// Nothing to do: preemption happens on the timer tick.
pub fn yield_now() {
}

/// Marks the current task dead; the caller then parks the CPU until the next
/// tick switches away.
pub fn exit_current(rq: &mut RunQueue)
    requires
        current_ok(old(rq)@),
    ensures
        final(rq)@ == kill_spec(old(rq)@),
{
    rq.kill_current()
}

impl RunQueue {
    /// One reaper round: every dead task's grace count goes down by one, and
    /// for each dead task whose count was already zero (the last such first)
    /// the first task not carrying its identifier is removed. The current
    /// index is not adjusted. `Err` where no such task is left to remove (the
    /// round stops there, and the caller panics).
    pub fn reap(&mut self) -> (r: Result<(), ()>)
        ensures
            r is Ok <==> reap_spec(old(self)@.tasks) is Some,
            r is Ok ==> final(self)@ == (RqState { tasks: reap_spec(old(self)@.tasks)->Some_0, ..old(self)@ }),
    {
        let ghost t0 = self@.tasks;
        let n = self.tasks.len();
        let mut deads: Vec<u64> = Vec::new();
        let mut k: usize = 0;
        while k < n
            invariant
                k <= n,
                n == t0.len(),
                self.tasks@.len() == n,
                forall|j: int| 0 <= j < k ==> self.tasks@[j] == aged(#[trigger] t0[j]),
                forall|j: int| k <= j < n ==> self.tasks@[j] == t0[j],
                deads@ == doomed_rev(t0, k as int),
                self.current == old(self).current,
                self.next_id == old(self).next_id,
                self.need_resched == old(self).need_resched,
            decreases n - k,
        {
            let mut t = self.tasks[k];
            if matches!(t.state, TaskState::Dead) {
                if t.time_slice == 0 {
                    deads.insert(0, t.id);
                } else {
                    t.time_slice = t.time_slice - 1;
                    self.tasks.set(k, t);
                }
            }
            k += 1;
        }
        assert(self.tasks@ =~= t0.map_values(|t: Task| aged(t)));
        let m = deads.len();
        assert(deads@.subrange(0, m as int) =~= deads@);
        let mut d: usize = 0;
        while d < m
            invariant
                d <= m,
                m == deads@.len(),
                reap_steps(self.tasks@, deads@.subrange(d as int, m as int)) == reap_spec(t0),
                t0 == old(self)@.tasks,
                self.current == old(self).current,
                self.next_id == old(self).next_id,
                self.need_resched == old(self).need_resched,
            decreases m - d,
        {
            let id = deads[d];
            assert(deads@.subrange(d as int, m as int)[0] == id);
            assert(deads@.subrange(d as int, m as int).drop_first() =~= deads@.subrange(d + 1, m as int));
            let mut i: usize = 0;
            let cur_len = self.tasks.len();
            proof {
                lemma_first_other_from(self.tasks@, id, 0);
            }
            while i < cur_len && self.tasks[i].id == id
                invariant
                    cur_len == self.tasks@.len(),
                    first_other(self.tasks@, id, 0) == first_other(self.tasks@, id, i as int),
                    i <= first_other(self.tasks@, id, i as int),
                    i <= cur_len,
                decreases self.tasks@.len() - i,
            {
                assert(first_other(self.tasks@, id, i as int) == first_other(self.tasks@, id, i + 1));
                proof {
                    lemma_first_other_from(self.tasks@, id, i + 1);
                }
                i += 1;
            }
            if i >= cur_len {
                assert(first_other(self.tasks@, id, i as int) == i);
                return Err(());
            }
            self.tasks.remove(i);
            d += 1;
        }
        assert(deads@.subrange(m as int, m as int) =~= Seq::<u64>::empty());
        assert(reap_steps(self.tasks@, Seq::<u64>::empty()) == Some(self.tasks@));
        assert(self@ =~= (RqState { tasks: reap_spec(old(self)@.tasks)->Some_0, ..old(self)@ }));
        Ok(())
    }
}

proof fn lemma_first_other_from(tasks: Seq<Task>, id: u64, i: int)
    ensures
        first_other(tasks, id, i) >= i,
    decreases tasks.len() - i,
{
    if i < tasks.len() && tasks[i].id == id {
        lemma_first_other_from(tasks, id, i + 1);
    }
}

/// Choosing the next task never picks a task that is not ready.
pub proof fn lemma_pick_is_ready(tasks: Seq<Task>, current: Option<usize>)
    requires
        current matches Some(c) ==> c < tasks.len(),
    ensures
        pick_spec(tasks, current) matches Some(i) ==> 0 <= i < tasks.len() && tasks[i].state is Ready,
{
    if tasks.len() > 0 {
        match current {
            Some(c) => lemma_scan_after_ready(tasks, c as int, 0),
            None => lemma_first_ready_ready(tasks, 0),
        }
    }
}

proof fn lemma_scan_after_ready(tasks: Seq<Task>, c: int, k: int)
    requires
        0 <= c < tasks.len(),
        k >= 0,
    ensures
        scan_after(tasks, c, k) matches Some(j) ==> 0 <= j < tasks.len() && j != c
            && tasks[j].state is Ready,
    decreases tasks.len() - k,
{
    if k < tasks.len() {
        lemma_scan_after_ready(tasks, c, k + 1);
        let j = round_index(c, k, tasks.len() as int);
        if j != c && tasks[j].state is Ready {
            assert(0 <= j < tasks.len());
        }
    }
}

proof fn lemma_first_ready_ready(tasks: Seq<Task>, k: int)
    requires
        k >= 0,
    ensures
        first_ready(tasks, k) matches Some(j) ==> k <= j < tasks.len() && tasks[j].state is Ready,
    decreases tasks.len() - k,
{
    if k < tasks.len() {
        lemma_first_ready_ready(tasks, k + 1);
    }
}


proof fn lemma_scan_none(tasks: Seq<Task>, c: int, k: int)
    requires
        0 <= c < tasks.len(),
        0 <= k,
        scan_after(tasks, c, k) is None,
    ensures
        forall|k2: int|
            k <= k2 < tasks.len() ==> {
                let j = #[trigger] round_index(c, k2, tasks.len() as int);
                j == c || tasks[j].state !is Ready
            },
    decreases tasks.len() - k,
{
    if k < tasks.len() {
        lemma_scan_none(tasks, c, k + 1);
    }
}

/// When some task other than the current one is ready, the choice moves on
/// to a ready task other than the current one.
pub proof fn lemma_pick_moves_on(tasks: Seq<Task>, c: usize)
    requires
        c < tasks.len(),
        other_ready(tasks, c as int),
    ensures
        pick_spec(tasks, Some(c)) matches Some(i) && i != c && 0 <= i < tasks.len()
            && tasks[i].state is Ready,
{
    let n = tasks.len() as int;
    let j = choose|j: int| 0 <= j < n && j != c && (#[trigger] tasks[j]).state is Ready;
    if scan_after(tasks, c as int, 0) is None {
        lemma_scan_none(tasks, c as int, 0);
        let k2 = if j > c {
            j - c - 1
        } else {
            j + n - c - 1
        };
        assert(round_index(c as int, k2, n) == j);
    }
    lemma_scan_after_ready(tasks, c as int, 0);
}

/// A timer tick keeps the run queue's invariants: the current index names a
/// task, only the current task is running, identifiers are distinct and
/// below the next one.
pub proof fn lemma_tick_keeps_invariants(s: RqState, tf: TrapFrame)
    requires
        s.tasks.len() <= usize::MAX,
        current_ok(s),
        running_ok(s),
        ids_ok(s),
    ensures
        current_ok(tick_spec(s, tf).0),
        running_ok(tick_spec(s, tf).0),
        ids_ok(tick_spec(s, tf).0),
{
    let (s1, extra) = tick_account(s);
    assert(s1.tasks.len() == s.tasks.len());
    assert forall|i: int| 0 <= i < s1.tasks.len() implies (#[trigger] s1.tasks[i]).state
        == s.tasks[i].state && s1.tasks[i].id == s.tasks[i].id by {}
    assert(running_ok(s1));
    assert(ids_ok(s1));
    if s1.need_resched || extra {
        lemma_pick_is_ready(s1.tasks, s1.current);
        if let Some(nx) = pick_spec(s1.tasks, s1.current) {
            let s2 = switch_to(s1, nx, tf);
            assert(nx as usize == nx);
            assert forall|i: int| 0 <= i < s2.tasks.len() && (#[trigger] s2.tasks[i]).state is Running
                implies (s2.current matches Some(c) && c == i) by {
                if i != nx {
                    match s1.current {
                        Some(c) => {
                            if i == c {
                                assert(s2.tasks[i].state is Ready);
                            } else {
                                assert(s2.tasks[i] == s1.tasks[i]);
                            }
                        },
                        None => {
                            assert(s2.tasks[i] == s1.tasks[i]);
                        },
                    }
                }
            }
            assert forall|i: int| 0 <= i < s2.tasks.len() implies (#[trigger] s2.tasks[i]).id
                == s.tasks[i].id by {}
        }
    }
}

/// A tick that switches away from the current task keeps the interrupted
/// frame in that task and resumes the frame saved in the task it switches
/// to; a tick that stays resumes the interrupted frame.
pub proof fn lemma_tick_saves_frame(s: RqState, tf: TrapFrame, c: usize)
    requires
        s.tasks.len() <= usize::MAX,
        current_ok(s),
        s.current == Some(c),
    ensures
        ({
            let (s2, out) = tick_spec(s, tf);
            &&& s2.current == Some(c) ==> out == tf
            &&& s2.current != Some(c) ==> s2.tasks[c as int].tf == tf && (s2.current matches Some(
                nx) && nx < s.tasks.len() && out == s.tasks[nx as int].tf)
        }),
{
    let (s1, extra) = tick_account(s);
    lemma_pick_is_ready(s1.tasks, s1.current);
    if s1.need_resched || extra {
        if let Some(nx) = pick_spec(s1.tasks, s1.current) {
            let s2 = switch_to(s1, nx, tf);
            assert(nx as usize == nx);
            assert(s2.tasks[c as int].tf == tf);
            if nx != c {
                assert(s2.tasks[nx].tf == s1.tasks[nx].tf);
                assert(s1.tasks[nx] == s.tasks[nx]);
            }
        }
    }
}

/// Spawning keeps the run queue's invariants.
pub proof fn lemma_spawn_keeps_invariants(s: RqState, tf: TrapFrame)
    requires
        s.tasks.len() <= usize::MAX,
        current_ok(s),
        running_ok(s),
        ids_ok(s),
        s.next_id < u64::MAX,
    ensures
        current_ok(spawn_spec(s, tf)),
        running_ok(spawn_spec(s, tf)),
        ids_ok(spawn_spec(s, tf)),
{
    let s2 = spawn_spec(s, tf);
    assert forall|i: int| 1 <= i < s2.tasks.len() implies #[trigger] s2.tasks[i] == s.tasks[i - 1] by {}
    assert forall|i: int| 0 <= i < s2.tasks.len() && (#[trigger] s2.tasks[i]).state is Running
        implies (s2.current matches Some(c) && c == i) by {
        if i == 0 {
            assert(s2.tasks[0].state is Ready);
        } else {
            assert(s.tasks[i - 1].state is Running);
        }
    }
    assert forall|i: int, j: int|
        0 <= i < s2.tasks.len() && 0 <= j < s2.tasks.len() && i != j implies (#[trigger] s2.tasks[i]).id
        != (#[trigger] s2.tasks[j]).id by {
        if i > 0 && j > 0 {
            assert(s.tasks[i - 1].id != s.tasks[j - 1].id);
        } else if i > 0 {
            assert(s.tasks[i - 1].id < s.next_id);
        } else {
            assert(s.tasks[j - 1].id < s.next_id);
        }
    }
}

/// Killing the current task keeps the run queue's invariants.
pub proof fn lemma_kill_keeps_invariants(s: RqState)
    requires
        current_ok(s),
        running_ok(s),
        ids_ok(s),
    ensures
        current_ok(kill_spec(s)),
        running_ok(kill_spec(s)),
        ids_ok(kill_spec(s)),
{
    let s2 = kill_spec(s);
    assert forall|i: int| 0 <= i < s2.tasks.len() implies (#[trigger] s2.tasks[i]).id == s.tasks[i].id
        && (s2.tasks[i].state is Running ==> s.tasks[i].state is Running) by {}
}

proof fn lemma_reap_steps_ids(tasks: Seq<Task>, ids: Seq<u64>, next_id: u64)
    requires
        ids_ok(RqState { tasks: tasks, current: None, next_id: next_id, need_resched: false }),
        reap_steps(tasks, ids) is Some,
    ensures
        ids_ok(
            RqState {
                tasks: reap_steps(tasks, ids)->Some_0,
                current: None,
                next_id: next_id,
                need_resched: false,
            },
        ),
    decreases ids.len(),
{
    if ids.len() > 0 {
        let i = first_other(tasks, ids[0], 0);
        lemma_first_other_from(tasks, ids[0], 0);
        assert(0 <= i < tasks.len());
        let t2 = tasks.remove(i);
        assert forall|a: int| 0 <= a < t2.len() implies #[trigger] t2[a] == tasks[if a < i {
            a
        } else {
            a + 1
        }] by {}
        assert forall|a: int, b: int|
            0 <= a < t2.len() && 0 <= b < t2.len() && a != b implies (#[trigger] t2[a]).id
            != (#[trigger] t2[b]).id by {
            let a1 = if a < i { a } else { a + 1 };
            let b1 = if b < i { b } else { b + 1 };
            assert(tasks[a1].id != tasks[b1].id);
        }
        assert forall|a: int| 0 <= a < t2.len() implies (#[trigger] t2[a]).id < next_id by {
            let a1 = if a < i { a } else { a + 1 };
            assert(tasks[a1].id < next_id);
        }
        lemma_reap_steps_ids(t2, ids.drop_first(), next_id);
    }
}

/// A reaper round keeps identifiers distinct and below the next one.
pub proof fn lemma_reap_keeps_ids(s: RqState)
    requires
        ids_ok(s),
        reap_spec(s.tasks) is Some,
    ensures
        ids_ok(RqState { tasks: reap_spec(s.tasks)->Some_0, ..s }),
{
    let aged_tasks = s.tasks.map_values(|t: Task| aged(t));
    assert forall|i: int| 0 <= i < aged_tasks.len() implies (#[trigger] aged_tasks[i]).id
        == s.tasks[i].id by {}
    lemma_reap_steps_ids(aged_tasks, doomed_rev(s.tasks, s.tasks.len() as int), s.next_id);
    let r = reap_spec(s.tasks)->Some_0;
    assert(ids_ok(RqState { tasks: r, current: None, next_id: s.next_id, need_resched: false }));
}

} // verus!
