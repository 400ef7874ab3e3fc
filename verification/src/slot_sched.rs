//! The cooperative scheduler over a fixed table of task slots. Slot 0 holds
//! the idle task, which is never preempted; switching hands the caller the
//! two slots whose saved contexts it swaps.
use vstd::prelude::*;
use crate::regs::CpuContext;
use crate::sched::round_index;

verus! {

/// Where a task is in its life.
#[derive(Clone, Copy, Debug, PartialEq, Eq, Structural)]
pub enum TaskState {
    Ready,
    Running,
    Sleeping,
    Dead,
}

pub type TaskId = u64;

/// One task slot's contents.
#[derive(Clone, Copy, Debug)]
pub struct Task {
    pub id: TaskId,
    pub state: TaskState,
    pub ctx: CpuContext,
    pub kstack_top: u64,
    /// Ticks remaining.
    pub time_slice: u32,
}

/// Number of task slots.
pub const MAX_TASKS: usize = 192;

/// Ticks a task runs before it must give way.
pub const DEFAULT_SLICE: u32 = 5;

/// The idle task's slice: never preempted.
pub const IDLE_SLICE: u32 = 0xFFFF_FFFF;

/// Bytes of the idle task's stack.
pub const IDLE_STACK_SIZE: u64 = 16384;

/// The table of slots, the running slot, the next identifier, whether a
/// reschedule is pending and whether the idle task is installed.
pub struct RunQueue {
    pub tasks: Vec<Option<Task>>,
    pub current: Option<usize>,
    pub next_id: TaskId,
    pub need_resched: bool,
    pub idle_ready: bool,
}

/// The table has its fixed size and the current slot, if any, holds a task.
pub open spec fn wf(rq: &RunQueue) -> bool {
    &&& rq.tasks@.len() == MAX_TASKS
    &&& rq.current matches Some(c) ==> c < MAX_TASKS && rq.tasks@[c as int] is Some
}

/// Only the current slot is marked running.
pub open spec fn running_ok(rq: &RunQueue) -> bool {
    forall|i: int|
        0 <= i < rq.tasks@.len() && #[trigger] slot_running(rq.tasks@, i) ==> (rq.current matches Some(
            c) && c == i)
}

/// Whether slot `i` holds a running task.
pub open spec fn slot_running(tasks: Seq<Option<Task>>, i: int) -> bool {
    tasks[i] matches Some(t) && t.state is Running
}

/// Whether the slot holds a task that is ready or running.
pub open spec fn runnable(o: Option<Task>) -> bool {
    o matches Some(t) && (t.state is Ready || t.state is Running)
}

/// Whether slot `i` holds a ready task.
pub open spec fn slot_ready(tasks: Seq<Option<Task>>, i: int) -> bool {
    tasks[i] matches Some(t) && t.state is Ready
}

/// The first slot other than idle, among candidates `k..n-1` of the round
/// after `cur`, that holds a ready task.
pub open spec fn slot_scan(tasks: Seq<Option<Task>>, cur: int, k: int) -> Option<int>
    decreases tasks.len() - 1 - k,
{
    if k >= tasks.len() - 1 {
        None
    } else {
        let i = round_index(cur, k, tasks.len() as int);
        if i != 0 && slot_ready(tasks, i) {
            Some(i)
        } else {
            slot_scan(tasks, cur, k + 1)
        }
    }
}

/// The slot to run after `cur`: the next ready non-idle slot in round order,
/// else the idle slot when it is ready or running.
pub open spec fn pick_spec(tasks: Seq<Option<Task>>, cur: int) -> Option<int> {
    match slot_scan(tasks, cur, 0) {
        Some(i) => Some(i),
        None => if tasks.len() > 0 && runnable(tasks[0]) {
            Some(0)
        } else {
            None
        },
    }
}

/// The slot's task with a new state (and, where given, slice).
pub open spec fn with_state(o: Option<Task>, st: TaskState) -> Option<Task> {
    match o {
        Some(t) => Some(Task { state: st, ..t }),
        None => None,
    }
}

/// The idle task's stack top and the two words below it (argument, entry).
pub open spec fn idle_top(base: u64) -> u64 {
    ((base + IDLE_STACK_SIZE) as u64 & !0xFu64) as u64
}

impl RunQueue {
    /// An empty table with no current task; identifiers start at 1.
    pub fn new() -> (rq: RunQueue)
        ensures
            wf(&rq),
            running_ok(&rq),
            forall|i: int| 0 <= i < MAX_TASKS ==> rq.tasks@[i] is None,
            rq.current is None,
            rq.next_id == 1,
            !rq.need_resched,
            !rq.idle_ready,
    {
        let mut tasks: Vec<Option<Task>> = Vec::new();
        let mut i: usize = 0;
        while i < MAX_TASKS
            invariant
                i <= MAX_TASKS,
                tasks@.len() == i,
                forall|j: int| 0 <= j < i ==> tasks@[j] is None,
            decreases MAX_TASKS - i,
        {
            tasks.push(None);
            i += 1;
        }
        RunQueue { tasks, current: None, next_id: 1, need_resched: false, idle_ready: false }
    }

    /// Installs the idle task in slot 0 (once): it runs `idle_main` through
    /// the trampoline on the idle stack at `stack_base`, whose first two
    /// words (argument 0, entry) the caller writes at the returned address.
    pub fn init(&mut self, stack_base: u64, trampoline: u64, idle_main: u64) -> (r: Option<(u64, [u64; 2])>)
        requires
            wf(old(self)),
            stack_base + IDLE_STACK_SIZE <= u64::MAX,
            stack_base + IDLE_STACK_SIZE >= 32,
            !old(self).idle_ready ==> old(self).next_id < u64::MAX && old(self).current is None,
        ensures
            wf(final(self)),
            old(self).idle_ready ==> r is None && *final(self) == *old(self),
            !old(self).idle_ready ==> {
                let top = idle_top(stack_base);
                &&& r matches Some((rsp, words)) && rsp == top - 16 && words@ == seq![0u64, idle_main]
                &&& final(self).tasks@ == old(self).tasks@.update(
                    0,
                    Some(
                        Task {
                            id: old(self).next_id,
                            state: TaskState::Running,
                            ctx: CpuContext { rip: trampoline, rsp: (top - 16) as u64, ..CpuContext::zero_spec() },
                            kstack_top: top,
                            time_slice: IDLE_SLICE,
                        },
                    ),
                )
                &&& final(self).next_id == old(self).next_id + 1
                &&& final(self).current == Some(0usize)
                &&& final(self).idle_ready
                &&& final(self).need_resched == old(self).need_resched
            },
    {
        if self.idle_ready {
            return None;
        }
        let top = (stack_base + IDLE_STACK_SIZE) & !0xFu64;
        let sum = stack_base + IDLE_STACK_SIZE;
        assert(sum >= 32 ==> (sum & !0xFu64) >= 16) by (bit_vector);
        let rsp = top - 16;
        let mut ctx = CpuContext::zeroed();
        ctx.rip = trampoline;
        ctx.rsp = rsp;
        let id = self.next_id;
        self.tasks.set(
            0,
            Some(Task { id, state: TaskState::Running, ctx, kstack_top: top, time_slice: IDLE_SLICE }),
        );
        self.next_id = self.next_id + 1;
        self.current = Some(0);
        self.idle_ready = true;
        Some((rsp, [0u64, idle_main]))
    }

    /// Whether a free slot remains.
    pub fn has_free_slot(&self) -> (r: bool)
        requires
            wf(self),
        ensures
            r == exists|i: int| 0 <= i < MAX_TASKS && (#[trigger] self.tasks@[i]) is None,
    {
        let mut i: usize = 0;
        while i < MAX_TASKS
            invariant
                wf(self),
                i <= MAX_TASKS,
                forall|j: int| 0 <= j < i ==> (#[trigger] self.tasks@[j]) is Some,
            decreases MAX_TASKS - i,
        {
            if self.tasks[i].is_none() {
                return true;
            }
            i += 1;
        }
        false
    }

    /// Puts a ready task entering `entry(arg)` through the trampoline into
    /// the first free slot; its stack is `stack_len` bytes at `stack_ptr`.
    /// Returns its identifier, its slot, and the address and contents of
    /// the two words (argument, entry) the caller writes below the top.
    pub fn spawn_kthread(
        &mut self,
        trampoline: u64,
        entry: u64,
        arg: u64,
        stack_ptr: u64,
        stack_len: u64,
    ) -> (r: (TaskId, usize, u64, [u64; 2]))
        requires
            wf(old(self)),
            exists|i: int| 0 <= i < MAX_TASKS && (#[trigger] old(self).tasks@[i]) is None,
            stack_ptr + stack_len <= u64::MAX,
            stack_ptr + stack_len >= 32,
            old(self).next_id < u64::MAX,
        ensures
            wf(final(self)),
            ({
                let (id, slot, rsp, words) = r;
                let top = ((stack_ptr + stack_len) as u64 & !0xFu64) as u64;
                &&& id == old(self).next_id
                &&& slot < MAX_TASKS && old(self).tasks@[slot as int] is None
                &&& forall|j: int| 0 <= j < slot ==> (#[trigger] old(self).tasks@[j]) is Some
                &&& rsp == top - 16
                &&& words@ == seq![arg, entry]
                &&& final(self).tasks@ == old(self).tasks@.update(
                    slot as int,
                    Some(
                        Task {
                            id,
                            state: TaskState::Ready,
                            ctx: CpuContext { rip: trampoline, rsp: rsp, ..CpuContext::zero_spec() },
                            kstack_top: top,
                            time_slice: DEFAULT_SLICE,
                        },
                    ),
                )
            }),
            final(self).next_id == old(self).next_id + 1,
            final(self).current == old(self).current,
            final(self).need_resched == old(self).need_resched,
            final(self).idle_ready == old(self).idle_ready,
    {
        let sum = stack_ptr + stack_len;
        let top = sum & !0xFu64;
        assert(sum >= 32 ==> (sum & !0xFu64) >= 16) by (bit_vector);
        let rsp = top - 16;
        let mut ctx = CpuContext::zeroed();
        ctx.rip = trampoline;
        ctx.rsp = rsp;
        let id = self.next_id;
        self.next_id = self.next_id + 1;
        let mut idx: usize = 0;
        while self.tasks[idx].is_some()
            invariant
                wf(old(self)),
                self.tasks == old(self).tasks,
                idx < MAX_TASKS,
                forall|j: int| 0 <= j < idx ==> (#[trigger] self.tasks@[j]) is Some,
                exists|i: int| 0 <= i < MAX_TASKS && (#[trigger] self.tasks@[i]) is None,
            decreases MAX_TASKS - idx,
        {
            idx += 1;
            proof {
                if idx == MAX_TASKS {
                    let w = choose|i: int| 0 <= i < MAX_TASKS && (#[trigger] self.tasks@[i]) is None;
                    assert(self.tasks@[w] is Some);
                }
            }
        }
        self.tasks.set(
            idx,
            Some(Task { id, state: TaskState::Ready, ctx, kstack_top: top, time_slice: DEFAULT_SLICE }),
        );
        (id, idx, rsp, [arg, entry])
    }

    /// One timer tick: the current task's slice counts down (the idle task's
    /// never does); when it runs out the task goes back to ready with a fresh
    /// slice and a reschedule is requested.
    pub fn tick(&mut self)
        requires
            wf(old(self)),
        ensures
            wf(final(self)),
            final(self).current == old(self).current,
            final(self).next_id == old(self).next_id,
            final(self).idle_ready == old(self).idle_ready,
            match old(self).current {
                None => *final(self) == *old(self),
                Some(c) => {
                    let t = old(self).tasks@[c as int]->Some_0;
                    if t.time_slice == IDLE_SLICE {
                        final(self).tasks@ == old(self).tasks@ && final(self).need_resched
                            == old(self).need_resched
                    } else if t.time_slice <= 1 {
                        final(self).tasks@ == old(self).tasks@.update(
                            c as int,
                            Some(Task { state: TaskState::Ready, time_slice: DEFAULT_SLICE, ..t }),
                        ) && final(self).need_resched
                    } else {
                        final(self).tasks@ == old(self).tasks@.update(
                            c as int,
                            Some(Task { time_slice: (t.time_slice - 1) as u32, ..t }),
                        ) && final(self).need_resched == old(self).need_resched
                    }
                },
            },
    {
        let cur = match self.current {
            Some(c) => c,
            None => {
                return ;
            },
        };
        let mut t = match self.tasks[cur] {
            Some(t) => t,
            None => {
                return ;
            },
        };
        if t.time_slice == IDLE_SLICE {
            return ;
        }
        if t.time_slice > 0 {
            t.time_slice = t.time_slice - 1;
        }
        if t.time_slice == 0 {
            t.state = TaskState::Ready;
            t.time_slice = DEFAULT_SLICE;
            self.need_resched = true;
        }
        self.tasks.set(cur, Some(t));
    }

    /// The slot to run after `cur` (see `pick_spec`).
    pub fn pick_next(&self, cur: usize) -> (r: Option<usize>)
        requires
            wf(self),
            cur < MAX_TASKS,
        ensures
            match r {
                Some(i) => pick_spec(self.tasks@, cur as int) == Some(i as int),
                None => pick_spec(self.tasks@, cur as int) is None,
            },
    {
        let n = self.tasks.len();
        let rem = n - 1 - cur;
        let mut k: usize = 0;
        while k < n - 1
            invariant
                wf(self),
                n == MAX_TASKS,
                cur < n,
                rem == n - 1 - cur,
                k <= n - 1,
                slot_scan(self.tasks@, cur as int, 0) == slot_scan(self.tasks@, cur as int, k as int),
            decreases n - 1 - k,
        {
            let i = if k < rem {
                cur + 1 + k
            } else {
                k - rem
            };
            if i != 0 {
                if let Some(t) = self.tasks[i] {
                    if matches!(t.state, TaskState::Ready) {
                        return Some(i);
                    }
                }
            }
            k += 1;
        }
        if let Some(t0) = self.tasks[0] {
            if matches!(t0.state, TaskState::Ready | TaskState::Running) {
                return Some(0);
            }
        }
        None
    }

    /// Gives the CPU to the next task, if another can run: the current one
    /// goes back to ready with a fresh slice. Returns the slots whose
    /// contexts the caller switches (from, to).
    pub fn yield_now(&mut self) -> (r: Option<(usize, usize)>)
        requires
            wf(old(self)),
            old(self).current is Some,
        ensures
            wf(final(self)),
            final(self).next_id == old(self).next_id,
            final(self).idle_ready == old(self).idle_ready,
            ({
                let c = old(self).current->Some_0;
                match pick_spec(old(self).tasks@, c as int) {
                    Some(nx) if nx != c => r == Some((c, nx as usize)) && final(self).current == Some(
                        nx as usize,
                    ) && !final(self).need_resched && final(self).tasks@ == old(self).tasks@.update(
                        c as int,
                        Some(
                            Task {
                                state: TaskState::Ready,
                                time_slice: DEFAULT_SLICE,
                                ..old(self).tasks@[c as int]->Some_0
                            },
                        ),
                    ).update(nx, with_state(old(self).tasks@[nx], TaskState::Running)),
                    _ => r is None && *final(self) == *old(self),
                }
            }),
    {
        let cur = match self.current {
            Some(c) => c,
            None => {
                return None;
            },
        };
        let next_idx = match self.pick_next(cur) {
            Some(i) => i,
            None => {
                return None;
            },
        };
        if next_idx == cur {
            return None;
        }
        proof {
            lemma_pick_in_range(self.tasks@, cur as int);
        }
        let mut t = self.tasks[cur].unwrap();
        t.state = TaskState::Ready;
        t.time_slice = DEFAULT_SLICE;
        self.tasks.set(cur, Some(t));
        let mut nt = self.tasks[next_idx].unwrap();
        nt.state = TaskState::Running;
        self.tasks.set(next_idx, Some(nt));
        self.current = Some(next_idx);
        self.need_resched = false;
        Some((cur, next_idx))
    }

    /// Ends the current task: it is marked dead and, where another task can
    /// run, that one becomes current. Returns the slots whose contexts the
    /// caller switches (from, to); `None` means the CPU parks.
    pub fn exit_current(&mut self) -> (r: Option<(usize, usize)>)
        requires
            wf(old(self)),
            old(self).current is Some,
        ensures
            wf(final(self)),
            final(self).next_id == old(self).next_id,
            final(self).need_resched == old(self).need_resched,
            final(self).idle_ready == old(self).idle_ready,
            ({
                let c = old(self).current->Some_0;
                let dead = old(self).tasks@.update(
                    c as int,
                    with_state(old(self).tasks@[c as int], TaskState::Dead),
                );
                match pick_spec(dead, c as int) {
                    Some(nx) if nx != c => r == Some((c, nx as usize)) && final(self).current == Some(
                        nx as usize,
                    ) && final(self).tasks@ == dead.update(nx, with_state(dead[nx], TaskState::Running)),
                    _ => r is None && final(self).current == old(self).current && final(self).tasks@
                        == dead,
                }
            }),
    {
        let cur = match self.current {
            Some(c) => c,
            None => {
                return None;
            },
        };
        let mut t = self.tasks[cur].unwrap();
        t.state = TaskState::Dead;
        self.tasks.set(cur, Some(t));
        let next_idx = match self.pick_next(cur) {
            Some(i) => i,
            None => {
                return None;
            },
        };
        if next_idx == cur {
            return None;
        }
        proof {
            lemma_pick_in_range(self.tasks@, cur as int);
        }
        let mut nt = self.tasks[next_idx].unwrap();
        nt.state = TaskState::Running;
        self.tasks.set(next_idx, Some(nt));
        self.current = Some(next_idx);
        Some((cur, next_idx))
    }
}

proof fn lemma_slot_scan_in_range(tasks: Seq<Option<Task>>, cur: int, k: int)
    requires
        0 <= cur < tasks.len(),
        0 <= k,
    ensures
        slot_scan(tasks, cur, k) matches Some(i) ==> 0 < i < tasks.len() && i != cur && slot_ready(
            tasks,
            i,
        ),
    decreases tasks.len() - 1 - k,
{
    if k < tasks.len() - 1 {
        lemma_slot_scan_in_range(tasks, cur, k + 1);
    }
}

/// The slot chosen to run next holds a task that can run: a ready task in
/// a slot other than idle and the current one, or the idle task itself.
pub proof fn lemma_pick_in_range(tasks: Seq<Option<Task>>, cur: int)
    requires
        0 <= cur < tasks.len(),
    ensures
        pick_spec(tasks, cur) matches Some(i) ==> 0 <= i < tasks.len() && tasks[i] is Some && (
        i == 0 || (i != cur && slot_ready(tasks, i))),
{
    lemma_slot_scan_in_range(tasks, cur, 0);
}

proof fn lemma_slot_scan_none(tasks: Seq<Option<Task>>, cur: int, k: int)
    requires
        0 <= cur < tasks.len(),
        0 <= k,
        slot_scan(tasks, cur, k) is None,
    ensures
        forall|k2: int|
            k <= k2 < tasks.len() - 1 ==> {
                let i = #[trigger] round_index(cur, k2, tasks.len() as int);
                i == 0 || !slot_ready(tasks, i)
            },
    decreases tasks.len() - 1 - k,
{
    if k < tasks.len() - 1 {
        lemma_slot_scan_none(tasks, cur, k + 1);
    }
}

/// The idle slot is chosen only when no other slot but the current one
/// holds a ready task.
pub proof fn lemma_pick_prefers_work(tasks: Seq<Option<Task>>, cur: int, j: int)
    requires
        0 <= cur < tasks.len(),
        0 < j < tasks.len(),
        j != cur,
        slot_ready(tasks, j),
    ensures
        pick_spec(tasks, cur) matches Some(i) && i != 0 && i != cur,
{
    let n = tasks.len() as int;
    if slot_scan(tasks, cur, 0) is None {
        lemma_slot_scan_none(tasks, cur, 0);
        let k2 = if j > cur {
            j - cur - 1
        } else {
            j + n - cur - 1
        };
        assert(round_index(cur, k2, n) == j);
    }
    lemma_slot_scan_in_range(tasks, cur, 0);
}

/// A tick keeps "only the current slot is running".
pub proof fn lemma_tick_keeps_running(old_rq: RunQueue, new_rq: RunQueue)
    requires
        wf(&old_rq),
        running_ok(&old_rq),
        wf(&new_rq),
        new_rq.current == old_rq.current,
        match old_rq.current {
            None => new_rq.tasks@ == old_rq.tasks@,
            Some(c) => {
                let t = old_rq.tasks@[c as int]->Some_0;
                if t.time_slice == IDLE_SLICE {
                    new_rq.tasks@ == old_rq.tasks@
                } else if t.time_slice <= 1 {
                    new_rq.tasks@ == old_rq.tasks@.update(
                        c as int,
                        Some(Task { state: TaskState::Ready, time_slice: DEFAULT_SLICE, ..t }),
                    )
                } else {
                    new_rq.tasks@ == old_rq.tasks@.update(
                        c as int,
                        Some(Task { time_slice: (t.time_slice - 1) as u32, ..t }),
                    )
                }
            },
        },
    ensures
        running_ok(&new_rq),
{
    assert forall|i: int|
        0 <= i < new_rq.tasks@.len() && #[trigger] slot_running(new_rq.tasks@, i) implies (new_rq.current matches Some(c) && c == i) by {
        if old_rq.current != Some(i as usize) {
            assert(new_rq.tasks@[i] == old_rq.tasks@[i]);
            assert(slot_running(old_rq.tasks@, i));
        }
    }
}

/// Yielding and exiting keep "only the current slot is running".
pub proof fn lemma_switch_keeps_running(old_rq: RunQueue, new_rq: RunQueue, c: usize, nx: int, st: TaskState)
    requires
        wf(&old_rq),
        running_ok(&old_rq),
        old_rq.current == Some(c),
        0 <= nx < MAX_TASKS,
        st !is Running,
        ({
            let left = old_rq.tasks@.update(c as int, with_state(old_rq.tasks@[c as int], st));
            ||| new_rq.current == old_rq.current && new_rq.tasks@ == old_rq.tasks@
            ||| new_rq.current == old_rq.current && new_rq.tasks@ == left
            ||| new_rq.current == Some(nx as usize) && new_rq.tasks@ == left.update(
                nx,
                with_state(left[nx], TaskState::Running),
            )
        }),
    ensures
        running_ok(&new_rq),
{
    let left = old_rq.tasks@.update(c as int, with_state(old_rq.tasks@[c as int], st));
    assert forall|i: int|
        0 <= i < new_rq.tasks@.len() && #[trigger] slot_running(new_rq.tasks@, i) implies (new_rq.current matches Some(k) && k == i) by {
        if new_rq.current == Some(nx as usize) && new_rq.tasks@ == left.update(
            nx,
            with_state(left[nx], TaskState::Running),
        ) {
            if i != nx {
                assert(new_rq.tasks@[i] == left[i]);
                if i != c {
                    assert(left[i] == old_rq.tasks@[i]);
                    assert(slot_running(old_rq.tasks@, i));
                }
            }
        } else if new_rq.tasks@ == left {
            if i != c {
                assert(left[i] == old_rq.tasks@[i]);
                assert(slot_running(old_rq.tasks@, i));
            }
        } else {
            assert(slot_running(old_rq.tasks@, i));
        }
    }
}

} // verus!
