use jotunheim::exec::{init as exec_init, next_job, submit, ExecQueue, SLOT_SIZE};
use jotunheim::faultlog::{FaultLog, TrapFrameView, MAX_CPUS, RING_LEN};
use jotunheim::regs::TrapFrame;
use jotunheim::sched::{self, RunQueue, Task, TaskState, DEFAULT_SLICE, IDLE_SLICE};
use jotunheim::sched_simd::{SimdArea, SIZE};
use jotunheim::slot_sched::{self, MAX_TASKS};

fn tf_with_rip(rip: u64) -> TrapFrame {
    let mut tf = TrapFrame::zeroed();
    tf.rip = rip;
    tf
}

fn task(id: u64, state: TaskState, slice: u32) -> Task {
    Task { id, state, time_slice: slice, tf: tf_with_rip(0x1000 + id) }
}

#[test]
fn pick_next_round_robin() {
    let mut rq = RunQueue::new();
    rq.tasks = vec![
        task(0, TaskState::Ready, IDLE_SLICE),
        task(1, TaskState::Running, DEFAULT_SLICE),
        task(2, TaskState::Dead, 10),
        task(3, TaskState::Ready, DEFAULT_SLICE),
    ];
    rq.current = Some(1);
    assert_eq!(rq.pick_next(), Some(3));
    rq.current = Some(3);
    assert_eq!(rq.pick_next(), Some(0));
    rq.current = None;
    assert_eq!(rq.pick_next(), Some(0));
    let empty = RunQueue::new();
    assert_eq!(empty.pick_next(), None);
}

#[test]
fn pick_next_stays_on_idle_when_alone() {
    let mut rq = RunQueue::new();
    rq.tasks = vec![task(0, TaskState::Ready, IDLE_SLICE), task(1, TaskState::Dead, 0)];
    rq.current = Some(0);
    assert_eq!(rq.pick_next(), Some(0));
    rq.tasks[0].state = TaskState::Running;
    assert_eq!(rq.pick_next(), None);
}

#[test]
fn tick_counts_down_then_switches() {
    let mut rq = RunQueue::new();
    rq.tasks = vec![task(0, TaskState::Running, 2), task(1, TaskState::Ready, DEFAULT_SLICE)];
    rq.current = Some(0);
    rq.need_resched = false;
    let interrupted = tf_with_rip(0xdead);
    let (out, sw) = rq.tick(interrupted);
    assert_eq!(out.rip, 0xdead);
    assert!(sw.is_none());
    assert_eq!(rq.tasks[0].time_slice, 1);
    let (out, sw) = rq.tick(interrupted);
    assert_eq!(sw, Some((Some(0), 1)));
    assert_eq!(out.rip, 0x1001);
    assert_eq!(rq.current, Some(1));
    assert_eq!(rq.tasks[1].state, TaskState::Running);
    assert_eq!(rq.tasks[0].state, TaskState::Ready);
    assert_eq!(rq.tasks[0].time_slice, DEFAULT_SLICE);
    assert_eq!(rq.tasks[0].tf.rip, 0xdead);
    assert!(!rq.need_resched);
}

#[test]
fn tick_with_no_current_picks_first_ready() {
    let mut rq = RunQueue::new();
    rq.tasks = vec![task(7, TaskState::Ready, DEFAULT_SLICE)];
    let (out, sw) = rq.tick(tf_with_rip(1));
    assert_eq!(sw, Some((None, 0)));
    assert_eq!(out.rip, 0x1007);
    assert_eq!(rq.current, Some(0));
}

#[test]
fn idle_yields_to_ready_work() {
    let mut rq = RunQueue::new();
    rq.tasks = vec![task(0, TaskState::Running, IDLE_SLICE), task(1, TaskState::Ready, DEFAULT_SLICE)];
    rq.current = Some(0);
    rq.need_resched = false;
    let (_, sw) = rq.tick(tf_with_rip(5));
    assert_eq!(sw, Some((Some(0), 1)));
    assert_eq!(rq.tasks[0].time_slice, IDLE_SLICE);
}

#[test]
fn spawn_inserts_in_front_and_shifts_current() {
    let mut rq = RunQueue::new();
    rq.tasks = vec![task(0, TaskState::Running, DEFAULT_SLICE)];
    rq.current = Some(0);
    rq.next_id = 4;
    let (id, start) = sched::spawn(&mut rq, 0x1_0000_00ff, 0xaaaa, 0xbbbb, 42, 8, 16);
    assert_eq!(id, 4);
    assert_eq!(rq.next_id, 5);
    assert_eq!(rq.current, Some(1));
    assert_eq!(rq.tasks[0].id, 4);
    assert_eq!(rq.tasks[0].state, TaskState::Ready);
    assert_eq!(start.frame_addr, 0x1_0000_00f0 - 0x30);
    assert_eq!(start.words, [0xaaaa, 8, 0x202, 42, 0xbbbb]);
    assert_eq!(start.tf.rip, 0xaaaa);
    assert_eq!(start.tf.rsp, 0x1_0000_00c0);
    assert_eq!(start.tf.cs, 8);
    assert_eq!(start.tf.ss, 16);
    assert_eq!(start.tf.rflags, 0x202);
}

#[test]
fn idle_init_and_exit_and_reap() {
    let mut rq = RunQueue::new();
    let start = sched::init(&mut rq, 0x8000_0fff, 0x1111, 0x2222, 0xb, 0x10);
    assert_eq!(start.tf.cs, 8);
    assert_eq!(start.words, [0x1111, 0xb, 0x202, 0, 0x2222]);
    assert_eq!(rq.tasks.len(), 1);
    assert_eq!(rq.tasks[0].time_slice, IDLE_SLICE);
    assert_eq!(rq.next_id, 1);
    let (id, _) = sched::spawn(&mut rq, 0x9000_0fff, 0x1111, 0x3333, 0, 8, 16);
    assert_eq!(id, 1);
    // Run the spawned task (index 0), then let it exit.
    let (_, sw) = rq.tick(tf_with_rip(0));
    assert_eq!(sw, Some((None, 0)));
    sched::exit_current(&mut rq);
    assert_eq!(rq.tasks[0].state, TaskState::Dead);
    assert_eq!(rq.tasks[0].time_slice, DEFAULT_SLICE * 2);
    for _ in 0..(DEFAULT_SLICE * 2) {
        assert_eq!(rq.reap(), Ok(()));
        assert_eq!(rq.tasks.len(), 2);
    }
    assert_eq!(rq.tasks[0].time_slice, 0);
    assert_eq!(rq.reap(), Ok(()));
    // The reaper takes out the first task that does not carry the dead id.
    assert_eq!(rq.tasks.len(), 1);
    assert_eq!(rq.tasks[0].id, 1);
    sched::yield_now();
}

#[test]
fn reaper_fails_when_only_the_dead_task_is_left() {
    let mut rq = RunQueue::new();
    rq.tasks = vec![task(3, TaskState::Dead, 0)];
    rq.next_id = 4;
    assert_eq!(rq.reap(), Err(()));
    let mut rq2 = RunQueue::new();
    rq2.tasks = vec![task(3, TaskState::Dead, 2), task(4, TaskState::Ready, DEFAULT_SLICE)];
    assert_eq!(rq2.reap(), Ok(()));
    assert_eq!(rq2.tasks[0].time_slice, 1);
    assert_eq!(rq2.tasks.len(), 2);
}

#[test]
fn slot_scheduler_round() {
    let mut rq = slot_sched::RunQueue::new();
    assert_eq!(rq.tasks.len(), MAX_TASKS);
    let words = rq.init(0x10_0000, 0xaaaa, 0xbbbb).unwrap();
    assert_eq!(words.1, [0, 0xbbbb]);
    assert_eq!(words.0, 0x10_4000 - 16);
    assert!(rq.init(0x10_0000, 0xaaaa, 0xbbbb).is_none());
    assert_eq!(rq.current, Some(0));
    assert!(rq.has_free_slot());
    let (id, slot, rsp, w) = rq.spawn_kthread(0xaaaa, 0xcccc, 7, 0x20_0000, 0x1000);
    assert_eq!((id, slot), (2, 1));
    assert_eq!(rsp, 0x20_1000 - 16);
    assert_eq!(w, [7, 0xcccc]);
    assert_eq!(rq.pick_next(0), Some(1));
    assert_eq!(rq.yield_now(), Some((0, 1)));
    assert_eq!(rq.current, Some(1));
    // The idle slot is never preempted; slot 1's slice runs down.
    for _ in 0..4 {
        rq.tick();
    }
    assert!(!rq.need_resched);
    rq.tick();
    assert!(rq.need_resched);
    assert_eq!(rq.tasks[1].unwrap().state, slot_sched::TaskState::Ready);
    assert_eq!(rq.exit_current(), Some((1, 0)));
    assert_eq!(rq.tasks[1].unwrap().state, slot_sched::TaskState::Dead);
    assert_eq!(rq.current, Some(0));
    assert_eq!(rq.exit_current(), None);
}

#[test]
fn job_queue_order_and_limits() {
    let mut q = ExecQueue::new();
    assert!(exec_init(&mut q));
    assert!(!exec_init(&mut q));
    assert_eq!(submit(&mut q, SLOT_SIZE + 1, 99), Err(()));
    for j in 0..64u64 {
        assert_eq!(submit(&mut q, 16, j), Ok(()));
    }
    assert_eq!(submit(&mut q, 16, 64), Err(()));
    for j in 0..64u64 {
        assert_eq!(next_job(&mut q), Some(j));
    }
    assert_eq!(next_job(&mut q), None);
}

fn view(rip: u64) -> TrapFrameView {
    TrapFrameView { rip, cs: 8, rflags: 0x202, rsp: 0x9000, ss: 16 }
}

#[test]
fn fault_log_snapshot_returns_latest() {
    let mut log = FaultLog::new();
    log.init_smp(4);
    for i in 0..3u64 {
        log.log_from_isr(1, 14, i, true, &view(0x1000 + i), 0xdead, i);
    }
    assert_eq!(log.produced(1), 3);
    let mut out = vec![log_blank(); 2];
    let n = log.snapshot_cpu(1, &mut out);
    assert_eq!(n, 2);
    assert_eq!(out[0].seq, 2);
    assert_eq!(out[1].seq, 3);
    assert_eq!(out[1].rip, 0x1002);
    assert_eq!(out[1].cpu, 1);
    assert_eq!(out[1].has_err, 1);
    let mut out3 = vec![log_blank(); 5];
    assert_eq!(log.snapshot_cpu(1, &mut out3), 3);
    assert_eq!(out3[0].seq, 1);
    assert_eq!(out3[3].seq, 0);
    assert_eq!(log.snapshot_cpu(7, &mut out3), 0);
    let mut none: Vec<jotunheim::faultlog::FaultRecord> = vec![];
    assert_eq!(log.snapshot_cpu(1, &mut none), 0);
}

fn log_blank() -> jotunheim::faultlog::FaultRecord {
    jotunheim::faultlog::FaultRecord {
        cpu: 0,
        vector: 0,
        has_err: 0,
        _pad0: 0,
        error_code: 0,
        rip: 0,
        cs: 0,
        rflags: 0,
        rsp: 0,
        ss: 0,
        cr2: 0,
        tsc: 0,
        seq: 0,
    }
}

#[test]
fn fault_log_clamps_cpu_and_wraps_ring() {
    let mut log = FaultLog::new();
    // One CPU logs: any reported index goes to CPU 0.
    log.log_from_isr(9, 13, 0, false, &view(1), 0, 0);
    assert_eq!(log.produced(0), 1);
    for i in 0..(RING_LEN as u64 + 10) {
        log.log_from_isr(0, 13, 0, false, &view(i), 0, 0);
    }
    let mut out = vec![log_blank(); 200];
    let n = log.snapshot_cpu(0, &mut out);
    assert_eq!(n, RING_LEN);
    assert_eq!(out[0].seq, 12);
    assert_eq!(out[RING_LEN - 1].seq, RING_LEN as u64 + 11);
    let drained = log.drain_records();
    assert_eq!(drained.len(), RING_LEN);
    assert_eq!(drained[0].seq, 12);
    assert!(MAX_CPUS >= 1);
}

#[test]
fn simd_area_is_zeroed() {
    let a = SimdArea::new();
    assert_eq!(a.dump.len(), SIZE);
    assert!(a.dump.iter().all(|&b| b == 0));
}
