use ease::deadline::CYCLES_PER_MS;
use ease::fd::{Error as FdError, Kind};
use ease::percpu::{needs_reschedule, set_online};
use ease::process::{Handle, LoadError, LoadedImage, SpawnError};
use ease::region::{MemRegion, Order, Pool};
use ease::sched::{
    bootstrap, clear_wakeup_signal, close_file_descriptor, current_thread, exit_kernel_thread,
    exit_user_thread_if_needs_exit, open_file_descriptor, current_user_thread_needs_exit, get_current_cycles, get_next_waiter, idle_thread,
    mark_for_preempt, park, park_if_blocked, post_switch_cleanup, schedule, set_needs_wakeup,
    set_next_waiter, set_self_blocked, sleep_with_leeway_ms, spawn, spawn_process, spawn_user,
    stacks, unpark, unpark_by_index, yield_now, Builder, MissReason, PickMiss, Scheduler, SLICE,
};
use ease::threads::{ExitReason, PostSwitch, State, ThreadHandle, PRIORITY_MIN};
use ease::trace::{row_floor, state_text_of, trace_cell, TraceBuf, TRACE_BUFFER_SIZE};
use ease::deadline::Deadline;
use ease::usermem::MemoryMap;

const IDLE0: usize = 0x1000_0000;

/// A scheduler with the idle thread of hart 0 and one kernel thread, which
/// hart 0 has switched to at time 20.
fn running_one_thread() -> (Scheduler, ThreadHandle) {
    let mut s = Scheduler::new();
    bootstrap(&mut s, 0, IDLE0, 0);
    let (h, _) = spawn(&mut s, 0, 10, Some(0x2000_0000), 0x2000_1000);
    let h = h.unwrap();
    let e = schedule(&mut s, 0, 20);
    assert_eq!(e.switch, Some((0, 1)));
    assert!(!post_switch_cleanup(&mut s, 0, 20));
    (s, h)
}

#[test]
fn sched_bootstrap_runs_idle_thread() {
    let mut s = Scheduler::new();
    bootstrap(&mut s, 0, IDLE0, 0);
    assert_eq!(current_thread(&s, 0), ThreadHandle { idx: 0, id: 0 });
    let idle = s.threads.get(0).unwrap();
    assert_eq!(idle.priority, PRIORITY_MIN);
    assert_eq!(idle.kernel_stack, MemRegion { base: IDLE0, order: Order::KB2, dealloc_pool: None });
    assert_eq!(idle.sp, IDLE0 + 2048);
    assert!(idle_thread(&s, 0), "idle waits for an interrupt when nothing is asked");
}

#[test]
fn sched_spawn_then_schedule_switches_to_new_thread() {
    let mut s = Scheduler::new();
    bootstrap(&mut s, 0, IDLE0, 0);
    let (h, e) = spawn(&mut s, 0, 10, Some(0x2000_0000), 0x2000_1000);
    assert_eq!(h, Some(ThreadHandle { idx: 1, id: 1 }));
    assert!(!e.kick_other);
    assert_eq!(e.timer, Some(10 + SLICE));
    assert!(needs_reschedule(&s.cpus, 0));
    assert!(!idle_thread(&s, 0));
    let e = schedule(&mut s, 0, 20);
    assert_eq!(e.switch, Some((0, 1)));
    assert_eq!(e.timer, Some(u64::MAX), "nothing else is ready");
    assert_eq!(e.trap_stack, None, "a kernel thread traps onto the interrupt stack");
    assert_eq!(s.threads.get(0).unwrap().pass, 20 * 254);
    assert_eq!(get_current_cycles(&s, 0), 20);
    assert_eq!(s.threads.get(1).unwrap().state, State::Running);
    assert!(!post_switch_cleanup(&mut s, 0, 20));
    assert_eq!(s.threads.get(0).unwrap().state, State::Ready);
    assert_eq!(current_thread(&s, 0), ThreadHandle { idx: 1, id: 1 });
}

#[test]
fn sched_schedule_without_request_does_nothing() {
    let (mut s, _) = running_one_thread();
    let e = schedule(&mut s, 0, 30);
    assert_eq!(e.switch, None);
    assert_eq!(e.timer, None);
}

#[test]
fn sched_park_and_unpark() {
    let (mut s, h) = running_one_thread();
    let e = park(&mut s, 0, 30);
    assert_eq!(e.switch, Some((1, 0)));
    assert_eq!(s.threads.get(1).unwrap().pass, 10 * 127);
    assert!(!post_switch_cleanup(&mut s, 0, 30));
    assert_eq!(s.threads.get(1).unwrap().state, State::Blocked);
    assert!(!unpark(&mut s, 0, &h));
    assert_eq!(s.threads.get(1).unwrap().state, State::Ready);
    assert!(needs_reschedule(&s.cpus, 0));
}

#[test]
fn sched_park_if_blocked_keeps_running_after_racing_wake() {
    let (mut s, _) = running_one_thread();
    let e = park_if_blocked(&mut s, 0, 30);
    assert_eq!(e.switch, None, "the thread was not blocked");
    assert_eq!(s.threads.get(1).unwrap().state, State::Running);
    set_self_blocked(&mut s, 0);
    assert_eq!(s.threads.get(1).unwrap().state, State::Blocked);
    let e = park_if_blocked(&mut s, 0, 40);
    assert_eq!(e.switch, Some((1, 0)));
}

#[test]
fn sched_yield_does_not_give_way_to_idle() {
    let (mut s, _) = running_one_thread();
    let e = yield_now(&mut s, 0, 30);
    assert_eq!(e.switch, None);
}

#[test]
fn sched_sleep_wakes_when_due() {
    let (mut s, h) = running_one_thread();
    let e = sleep_with_leeway_ms(&mut s, 0, 30, 5, 0);
    assert_eq!(e.switch, Some((1, 0)));
    assert_eq!(e.timer, Some(50_000), "timer set for the wake-up");
    assert!(!post_switch_cleanup(&mut s, 0, 30));
    assert!(matches!(s.threads.get(1).unwrap().state, State::Sleeping(_)));
    assert_eq!(mark_for_preempt(&mut s, 0, 49_000), 49_000 + SLICE);
    let e = schedule(&mut s, 0, 49_000);
    assert_eq!(e.switch, None, "not yet due");
    let _ = mark_for_preempt(&mut s, 0, 50_001);
    let e = schedule(&mut s, 0, 50_001);
    assert_eq!(e.switch, Some((0, h.idx)));
}

#[test]
fn sched_wakeup_flag_wakes_blocked_thread() {
    let (mut s, _) = running_one_thread();
    let _ = park(&mut s, 0, 30);
    let _ = post_switch_cleanup(&mut s, 0, 30);
    set_needs_wakeup(&mut s, 1);
    set_needs_wakeup(&mut s, 99);
    assert!(s.needs_wakeup[1]);
    let _ = mark_for_preempt(&mut s, 0, 40);
    let e = schedule(&mut s, 0, 40);
    assert_eq!(e.switch, Some((0, 1)));
    assert!(!s.needs_wakeup[1]);
    set_needs_wakeup(&mut s, 3);
    clear_wakeup_signal(&mut s, 3);
    assert!(!s.needs_wakeup[3]);
}

#[test]
fn sched_unpark_by_index_only_wakes_blocked() {
    let (mut s, _) = running_one_thread();
    unpark_by_index(&mut s, 0, 1);
    assert_eq!(s.threads.get(1).unwrap().state, State::Running);
    set_self_blocked(&mut s, 0);
    unpark_by_index(&mut s, 0, 1);
    assert_eq!(s.threads.get(1).unwrap().state, State::Ready);
}

#[test]
fn sched_next_waiter_checks_handle() {
    let (mut s, h) = running_one_thread();
    let other = ThreadHandle { idx: 0, id: 0 };
    set_next_waiter(&mut s, &h, Some(other));
    assert_eq!(get_next_waiter(&s, &h), Some(other));
    let stale = ThreadHandle { idx: 1, id: 77 };
    assert_eq!(get_next_waiter(&s, &stale), None);
    set_next_waiter(&mut s, &stale, None);
    assert_eq!(get_next_waiter(&s, &h), Some(other));
}

#[test]
fn sched_builder_affinity_names_a_hart() {
    let mut s = Scheduler::new();
    bootstrap(&mut s, 0, IDLE0, 0);
    let _ = schedule(&mut s, 0, 0);
    let (h, e) = Builder::new().with_affinity(1).with_priority(3).spawn(&mut s, 0, 5, Some(0x2000_0000), 0x2000_0800);
    let h = h.unwrap();
    assert!(e.kick_other, "a thread bound to the other hart interrupts it");
    assert!(!needs_reschedule(&s.cpus, 0));
    let t = s.threads.get(h.idx).unwrap();
    assert_eq!(t.affinity, Some(1));
    assert_eq!(t.priority, 3);
    let (h2, e2) = Builder::new().with_affinity(5).with_stack_class(Order::KB8).spawn(&mut s, 0, 6, Some(0x2100_0000), 0x2100_1000);
    assert!(!e2.kick_other);
    let t2 = s.threads.get(h2.unwrap().idx).unwrap();
    assert_eq!(t2.affinity, None);
    assert_eq!(t2.kernel_stack.order, Order::KB8);
}

#[test]
fn sched_spawn_without_stack_fails() {
    let mut s = Scheduler::new();
    bootstrap(&mut s, 0, IDLE0, 0);
    let (h, e) = spawn(&mut s, 0, 5, None, 0);
    assert!(h.is_none());
    assert_eq!(e.timer, None);
}

#[test]
fn sched_stacks_reports_every_thread() {
    let (s, _) = running_one_thread();
    let r = stacks(&s);
    assert_eq!(r, vec![(0, IDLE0, IDLE0 + 2048), (1, 0x2000_0000, 0x2000_1000)]);
}

fn image() -> LoadedImage {
    LoadedImage { user_mem_map: MemoryMap::new(), entry: 0x100, entry_ra: 0x200 }
}

fn stacks_at(base: usize) -> (Option<MemRegion>, Option<MemRegion>) {
    (
        MemRegion::from_heap(Pool::KernelPd1, Order::KB4, Some(base)),
        MemRegion::from_heap(Pool::UserPd0, Order::KB4, Some(base + 0x1_0000)),
    )
}

#[test]
fn sched_spawn_process_errors() {
    let mut s = Scheduler::new();
    bootstrap(&mut s, 0, IDLE0, 0);
    let (k, u) = stacks_at(0x3000_0000);
    let (r, _) = spawn_process(&mut s, 0, 0, "none", None, k, u, 0);
    assert!(matches!(r, Err(SpawnError::NotFound)));
    let (k, u) = stacks_at(0x3000_0000);
    let (r, _) = spawn_process(&mut s, 0, 0, "bad", Some(Err(LoadError::MismatchedBlobSize)), k, u, 0);
    assert!(matches!(r, Err(SpawnError::Load(LoadError::MismatchedBlobSize))));
    let (_, u) = stacks_at(0x3000_0000);
    let (r, _) = spawn_process(&mut s, 0, 0, "prog", Some(Ok(image())), None, u, 0);
    assert!(matches!(r, Err(SpawnError::NotEnoughMemory)));
    let (k, u) = stacks_at(0x3000_0000);
    let (r, _) = spawn_process(&mut s, 0, 0, "prog", Some(Ok(image())), k, u, 0x3000_0f00);
    assert_eq!(r.unwrap(), Handle { pid: 1, idx: 0 }, "the failed spawn used up a process id");
}

#[test]
fn sched_process_fault_tears_down_siblings() {
    let mut s = Scheduler::new();
    bootstrap(&mut s, 0, IDLE0, 0);
    let (k, u) = stacks_at(0x3000_0000);
    let (r, _) = spawn_process(&mut s, 0, 0, "prog", Some(Ok(image())), k, u, 0x3000_0f00);
    let p = r.unwrap();
    assert_eq!(p, Handle { pid: 0, idx: 0 });
    assert_eq!(s.thread_count(0), 1);
    let (k2, u2) = stacks_at(0x3100_0000);
    let (t2, _) = spawn_user(&mut s, 0, 1, &p, 0x180, k2, u2, 0x3100_0f00);
    assert_eq!(t2, Some(ThreadHandle { idx: 2, id: 2 }));
    assert_eq!(s.thread_count(0), 2);
    let stale = Handle { pid: 9, idx: 0 };
    let (k3, u3) = stacks_at(0x3200_0000);
    let (t3, _) = spawn_user(&mut s, 0, 1, &stale, 0x180, k3, u3, 0x3200_0f00);
    assert!(t3.is_none());
    let e = schedule(&mut s, 0, 5);
    assert_eq!(e.switch, Some((0, 1)));
    assert!(e.pmp.is_some(), "a user thread gets its protection map");
    assert_eq!(e.trap_stack, Some(0x3000_1000), "a user thread traps onto its kernel stack");
    let pmp = e.pmp.unwrap();
    assert_eq!(pmp.last().unwrap().slot, 5);
    assert_eq!(pmp.last().unwrap().base, 0x3001_0000);
    let _ = post_switch_cleanup(&mut s, 0, 5);
    assert!(!current_user_thread_needs_exit(&s, 0), "a running user thread is not condemned");
    let (proc_idx, claimed, _) = s.exit_user_thread(0, ExitReason::Fault);
    assert_eq!(proc_idx, 0);
    assert!(claimed);
    assert!(s.threads.get(2).is_none(), "ready sibling removed");
    assert_eq!(s.thread_count(0), 1);
    assert!(s.await_teardown(0, 0));
    let fds = s.claim_fds(0, 1).expect("last holder takes the descriptors");
    assert_eq!(fds[0], Some(Kind::Keyboard));
    assert_eq!(fds[1], Some(Kind::Console));
    assert_eq!(fds[2], Some(Kind::DebugConsole));
    assert!(fds[3..].iter().all(|f| f.is_none()));
    let e = s.exit(0, 6, ExitReason::Fault);
    assert_eq!(e.switch, Some((1, 0)));
    let _ = post_switch_cleanup(&mut s, 0, 6);
    assert!(s.threads.get(1).is_none());
    assert!(s.procs.get(0).is_none(), "the process is gone with its last thread");
}

#[test]
fn sched_other_hart_online_is_not_stolen_from() {
    let mut s = Scheduler::new();
    bootstrap(&mut s, 0, IDLE0, 0);
    bootstrap(&mut s, 1, 0x1100_0000, 0);
    set_online(&mut s.cpus, 0);
    set_online(&mut s.cpus, 1);
    let (h, _) = spawn(&mut s, 0, 1, Some(0x2000_0000), 0x2000_1000);
    let h = h.unwrap();
    let e = schedule(&mut s, 0, 2);
    assert_eq!(e.switch, Some((0, h.idx)));
    let _ = mark_for_preempt(&mut s, 1, 3);
    let e1 = schedule(&mut s, 1, 3);
    assert_eq!(e1.switch, None, "hart 1 does not take the thread hart 0 runs");
}

#[test]
fn sched_pick_miss_names_the_runner_out_ranked() {
    let (mut s, _) = running_one_thread();
    let (h2, _) = spawn(&mut s, 0, 30, Some(0x2100_0000), 0x2100_1000);
    let idx = h2.unwrap().idx;
    s.threads.get_mut(idx).unwrap().pass = 5;
    s.threads.get_mut(1).unwrap().pass = 100;
    let pm = s.compute_pick_miss(0, 30 + 3 * CYCLES_PER_MS + 7, idx);
    assert_eq!(
        pm,
        PickMiss { starved_id: 2, ready_ms: 3, blocker_id: 1, blocker_hart: 0, local: true, reason: MissReason::LocalPreemptMissed }
    );
    // Higher pass than the local runner, lower than what hart 1 reports.
    let other_pass = s.threads.get(0).unwrap().pass;
    assert!(other_pass > 200);
    s.threads.get_mut(idx).unwrap().pass = 200;
    let pm = s.compute_pick_miss(0, 10, idx);
    assert_eq!(
        pm,
        PickMiss { starved_id: 2, ready_ms: 0, blocker_id: 0, blocker_hart: 1, local: false, reason: MissReason::RemoteNotKicked }
    );
    // Bound to hart 0, where it does not out-rank the runner.
    s.threads.get_mut(idx).unwrap().affinity = Some(0);
    let pm = s.compute_pick_miss(0, 10, idx);
    assert_eq!(
        pm,
        PickMiss { starved_id: 2, ready_ms: 0, blocker_id: 0, blocker_hart: 0, local: false, reason: MissReason::PinnedElsewhere }
    );
    // Out-ranking nobody: waiting its turn.
    s.threads.get_mut(idx).unwrap().affinity = None;
    s.threads.get_mut(idx).unwrap().pass = u64::MAX;
    assert_eq!(s.compute_pick_miss(0, 10, idx).reason, MissReason::WaitingItsTurn);
}

#[test]
fn trace_snapshot_and_cells() {
    let (mut s, _) = running_one_thread();
    let (h2, _) = spawn(&mut s, 0, 30, Some(0x2100_0000), 0x2100_1000);
    let idx = h2.unwrap().idx;
    let tp = s.snapshot("timed sample", 30 + 5 * CYCLES_PER_MS);
    assert_eq!(tp.label, "timed sample");
    assert_eq!(tp.per_cpu[0].current_thread_idx, 1);
    assert_eq!(tp.threads.len(), 16);
    let running = tp.threads[1].unwrap();
    assert_eq!((running.id, running.state), (1, State::Running));
    assert!(tp.threads[3].is_none());
    let floor = row_floor(&tp.threads);
    assert_eq!(floor, tp.threads[1].unwrap().pass.min(tp.threads[idx].unwrap().pass));
    let cell = trace_cell(&tp, idx, floor).unwrap();
    assert_eq!(cell.text, b"Rdy w5ms".to_vec());
    assert_eq!(cell.on_hart, None);
    let cell = trace_cell(&tp, 1, floor).unwrap();
    assert_eq!(cell.text, b"Run".to_vec());
    assert_eq!(cell.on_hart, Some(0), "hart 0 runs slot 1");
    assert!(trace_cell(&tp, 3, floor).is_none());
    let live = s.report_live();
    assert_eq!(live.entries, vec![(1, State::Running), (2, State::Ready)]);
    assert_eq!((live.runnable, live.live), (2, 2));
}

#[test]
fn trace_ring_replays_oldest_first() {
    let (s, _) = running_one_thread();
    let mut buf = TraceBuf::new();
    assert!(buf.replay().is_empty());
    for k in 0..3 {
        buf.record(s.snapshot("x", k));
    }
    assert_eq!(buf.replay(), vec![0, 1, 2]);
    assert_eq!(buf.get(2).unwrap().time_stamp, 2);
    for k in 3..(TRACE_BUFFER_SIZE as u64 + 2) {
        buf.record(s.snapshot("x", k));
    }
    let order = buf.replay();
    assert_eq!(order.len(), TRACE_BUFFER_SIZE);
    assert_eq!(order[0], 2);
    assert_eq!(buf.get(order[0]).unwrap().time_stamp, 2);
    assert_eq!(buf.get(order[TRACE_BUFFER_SIZE - 1]).unwrap().time_stamp, TRACE_BUFFER_SIZE as u64 + 1);
    buf.reset();
    assert!(buf.replay().is_empty());
}

#[test]
fn trace_state_texts() {
    let d = Deadline { at: 25 * CYCLES_PER_MS, leeway: 0 };
    assert_eq!(state_text_of(&State::Sleeping(d)), b"Slp@25".to_vec());
    let never = Deadline { at: u64::MAX, leeway: 0 };
    assert_eq!(state_text_of(&State::BlockedUntil(never)), b"BlkU@MAX".to_vec());
    assert_eq!(state_text_of(&State::Switching(PostSwitch::Dead(ExitReason::Fault))), b"Sw>Fault".to_vec());
    assert_eq!(state_text_of(&State::Switching(PostSwitch::Ready)), b"Sw>Rdy".to_vec());
    assert_eq!(state_text_of(&State::Blocked), b"Blk".to_vec());
}

#[test]
fn trace_ready_stall_carries_diagnosis() {
    let (mut s, _) = running_one_thread();
    let (h2, _) = spawn(&mut s, 0, 30, Some(0x2100_0000), 0x2100_1000);
    let idx = h2.unwrap().idx;
    s.threads.get_mut(idx).unwrap().pass = 5;
    s.threads.get_mut(1).unwrap().pass = 100;
    let tp = s.snapshot_ready_stall(0, 30 + 2 * CYCLES_PER_MS, idx);
    assert_eq!(tp.label, "ready-stall");
    let pm = tp.pick_miss.unwrap();
    assert_eq!((pm.ready_ms, pm.blocker_id, pm.reason), (2, 1, MissReason::LocalPreemptMissed));
}

#[test]
fn sched_descriptors_of_the_running_process() {
    let mut s = Scheduler::new();
    bootstrap(&mut s, 0, IDLE0, 0);
    assert_eq!(open_file_descriptor(&mut s, 0, Kind::Console), Err(FdError::NotAUserProcess));
    assert_eq!(close_file_descriptor(&mut s, 0, 0), Err(FdError::NotAUserProcess));
    let (k, u) = stacks_at(0x3000_0000);
    let (r, _) = spawn_process(&mut s, 0, 0, "prog", Some(Ok(image())), k, u, 0x3000_0f00);
    r.unwrap();
    let e = schedule(&mut s, 0, 5);
    assert_eq!(e.switch, Some((0, 1)));
    let _ = post_switch_cleanup(&mut s, 0, 5);
    assert_eq!(open_file_descriptor(&mut s, 0, Kind::Keyboard), Ok(3), "the standard three are taken");
    assert_eq!(close_file_descriptor(&mut s, 0, 1), Ok(Kind::Console));
    assert_eq!(close_file_descriptor(&mut s, 0, 1), Err(FdError::StaleFileDescriptor));
    assert_eq!(close_file_descriptor(&mut s, 0, 1000), Err(FdError::UnknownFileDescriptor));
    assert_eq!(open_file_descriptor(&mut s, 0, Kind::DebugConsole), Ok(1), "the lowest free slot is reused");
    assert_eq!(exit_user_thread_if_needs_exit(&mut s, 0), None, "a running thread that was not condemned goes on");
}

#[test]
fn sched_exit_kernel_thread_switches_away() {
    let (mut s, h) = running_one_thread();
    let e = exit_kernel_thread(&mut s, 0, 30, ExitReason::Exit);
    assert_eq!(e.switch, Some((h.idx, 0)));
    let _ = post_switch_cleanup(&mut s, 0, 30);
    assert!(s.threads.get(h.idx).is_none(), "the exited thread is freed after the switch");
}

#[test]
fn sched_woken_sleeper_catches_up_to_the_baseline() {
    let mut s = Scheduler::new();
    bootstrap(&mut s, 0, IDLE0, 0);
    let (a, _) = spawn(&mut s, 0, 10, Some(0x2000_0000), 0x2000_1000);
    let (b, _) = spawn(&mut s, 0, 10, Some(0x2100_0000), 0x2100_1000);
    let (a, b) = (a.unwrap(), b.unwrap());
    let e = schedule(&mut s, 0, 20);
    assert_eq!(e.switch, Some((0, a.idx)));
    let _ = post_switch_cleanup(&mut s, 0, 20);
    let e = sleep_with_leeway_ms(&mut s, 0, 30, 1, 0);
    assert_eq!(e.switch, Some((a.idx, b.idx)));
    let _ = post_switch_cleanup(&mut s, 0, 30);
    let slept_pass = s.threads.get(a.idx).unwrap().pass;
    let _ = mark_for_preempt(&mut s, 0, 1_000_000);
    let _ = schedule(&mut s, 0, 1_000_000);
    let b_pass = s.threads.get(b.idx).unwrap().pass;
    assert!(slept_pass < b_pass - 5_000);
    assert_eq!(s.threads.get(a.idx).unwrap().pass, b_pass - 5_000, "raised to the baseline less the bonus");
}
