use ease::completion::{Completion, TimedOut, Wait};
use ease::deadline::{Deadline, Qos};
use ease::ipi::{clear_self, drain, init, send, Ipi, FENCEI, MSIE, RESCHEDULE};
use ease::percpu::{
    current_thread_idx, online, other_online, set_current_thread_idx, set_idle_thread_idx, set_online,
    set_switching_from_thread_idx, take_needs_reschedule, take_switching_from_thread_idx, that_hart_id,
    PerCpus, set_needs_reschedule, needs_reschedule, other_needs_reschedule,
};
use ease::process::{ControlBlock, THREADS_PER_PROC_MAX};
use ease::region::{MemRegion, Order};
use ease::sched::{bootstrap, post_switch_cleanup, schedule, spawn, Scheduler};
use ease::spinlock::{IrqSpinLock, SpinLock};
use ease::sync::{disable, enabled, restore, with_interrupts_disabled, CounterU64, MSTATUS_MIE};
use ease::threads::State;
use ease::timer::{elapsed_ms, elapsed_us, init as timer_init, is_due, set_next_deadline, set_next_deadline_ms, TimerCompare, MTIE};
use ease::usermem::{MemoryMap, Role, UserLayout, PMP_NAPOT};

#[test]
fn percpu_records_are_per_hart() {
    let mut c = PerCpus::new();
    assert_eq!(that_hart_id(0), 1);
    assert_eq!(that_hart_id(1), 0);
    assert!(!online(&c, 0));
    set_online(&mut c, 1);
    assert!(other_online(&c, 0));
    assert!(!other_online(&c, 1));
    set_current_thread_idx(&mut c, 0, 4);
    set_idle_thread_idx(&mut c, 0, 2);
    assert_eq!(current_thread_idx(&c, 0), 4);
    assert_eq!(current_thread_idx(&c, 1), 0);
    set_switching_from_thread_idx(&mut c, 0, Some(3));
    assert_eq!(take_switching_from_thread_idx(&mut c, 0), Some(3));
    assert_eq!(take_switching_from_thread_idx(&mut c, 0), None);
    set_needs_reschedule(&mut c, 1);
    assert!(other_needs_reschedule(&c, 0));
    assert!(!needs_reschedule(&c, 0));
    assert!(take_needs_reschedule(&mut c, 1));
    assert!(!take_needs_reschedule(&mut c, 1));
}

#[test]
fn ipi_reaches_online_hart_only() {
    let mut ipi = Ipi::new();
    let mut cpus = PerCpus::new();
    send(&mut ipi, &cpus, 0, RESCHEDULE);
    assert_eq!(drain(&mut ipi, 1), vec![false, false], "an offline hart is left alone");
    set_online(&mut cpus, 1);
    send(&mut ipi, &cpus, 0, FENCEI);
    assert_eq!(drain(&mut ipi, 1), vec![false, true]);
    assert_eq!(drain(&mut ipi, 1), vec![false, false], "draining clears the mailbox");
    clear_self(&mut ipi, 1);
    assert_eq!(init(0), MSIE);
    assert_eq!(init(1), 1 | MSIE);
}

#[test]
fn completion_signal_before_wait_does_not_block() {
    let mut s = Scheduler::new();
    bootstrap(&mut s, 0, 0x1000_0000, 0);
    let mut c = Completion::new();
    assert!(!c.signal(&mut s, 0));
    assert_eq!(c.wait(&mut s, 0), Wait::Done);
    assert_eq!(s.threads.get(0).unwrap().state, State::Ready);
}

#[test]
fn completion_signal_twice_is_idempotent() {
    let mut s = Scheduler::new();
    bootstrap(&mut s, 0, 0x1000_0000, 0);
    let mut c = Completion::new();
    assert!(!c.signal(&mut s, 0));
    assert!(!c.signal(&mut s, 0));
    assert_eq!(c.wait(&mut s, 0), Wait::Done);
    assert_eq!(c.wait(&mut s, 0), Wait::Park, "two signals are one");
    assert_eq!(s.threads.get(0).unwrap().state, State::Blocked);
}

#[test]
fn completion_wait_then_signal_wakes_waiter() {
    let mut s = Scheduler::new();
    bootstrap(&mut s, 0, 0x1000_0000, 0);
    let _ = spawn(&mut s, 0, 1, Some(0x2000_0000), 0x2000_1000);
    let _ = schedule(&mut s, 0, 2);
    let _ = post_switch_cleanup(&mut s, 0, 2);
    let mut c = Completion::new();
    assert_eq!(c.wait(&mut s, 0), Wait::Park);
    assert_eq!(s.threads.get(1).unwrap().state, State::Blocked);
    assert!(!c.signal(&mut s, 0));
    assert_eq!(s.threads.get(1).unwrap().state, State::Ready);
    c.woken();
    assert_eq!(c.wait(&mut s, 0), Wait::Done);
}

#[test]
fn completion_deadline_and_interrupt() {
    let mut s = Scheduler::new();
    bootstrap(&mut s, 0, 0x1000_0000, 0);
    let mut c = Completion::new();
    let d = Deadline { at: 100, leeway: 0 };
    assert_eq!(c.wait_with_deadline(&mut s, 0, 101, d), Err(TimedOut));
    assert_eq!(c.wait_with_deadline(&mut s, 0, 100, d), Ok(Wait::Park));
    assert!(matches!(s.threads.get(0).unwrap().state, State::BlockedUntil(_)));
    assert!(c.woken_interruptible(true).is_err());
    assert!(c.woken_interruptible(false).is_ok());
    c.reset();
    assert_eq!(c.wait_interruptible(&mut s, 0), Wait::Park);
}

#[test]
fn irq_spinlock_ticket_order() {
    let mut mstatus: usize = MSTATUS_MIE;
    let mut l = IrqSpinLock::new(5u32);
    let g = l.lock(&mut mstatus);
    assert_eq!(g.ticket, 0);
    assert_eq!(mstatus, 0, "interrupts off while held");
    let mut m2 = mstatus;
    assert!(l.try_lock(&mut m2).is_none());
    assert_eq!(*l.get(&g), 5);
    *l.get_mut(&g) = 6;
    l.release(g, &mut mstatus);
    assert_eq!(mstatus, MSTATUS_MIE, "interrupts back on");
    let g2 = l.try_lock(&mut mstatus).expect("free lock");
    assert_eq!(g2.ticket, 1);
    assert_eq!(*l.get(&g2), 6);
    l.release(g2, &mut mstatus);
}

#[test]
fn irq_spinlock_serves_waiters_in_ticket_order() {
    let mut m1: usize = MSTATUS_MIE;
    let mut l = IrqSpinLock::new(0u32);
    let g1 = l.lock(&mut m1);
    let mut m2: usize = MSTATUS_MIE;
    let w2 = l.draw_ticket(&mut m2);
    let mut m3: usize = MSTATUS_MIE;
    let w3 = l.draw_ticket(&mut m3);
    assert_eq!((w2.ticket, w3.ticket), (1, 2));
    assert_eq!(m2, 0, "a waiter spins with interrupts off");
    let w3 = l.served(w3).expect_err("third in line");
    let w2 = l.served(w2).expect_err("the lock is held");
    l.release(g1, &mut m1);
    let w3 = l.served(w3).expect_err("second waiter is not next");
    let g2 = l.served(w2).expect("first waiter is next");
    assert_eq!(g2.ticket, 1);
    l.release(g2, &mut m2);
    assert_eq!(m2, MSTATUS_MIE);
    let g3 = l.served(w3).expect("then the second");
    l.release(g3, &mut m3);
    assert!(l.try_lock(&mut m1).is_some(), "free once all have released");
}

#[test]
fn spinlock_flag() {
    let mut l = SpinLock::new(1u8);
    let g = l.lock();
    assert!(l.try_lock().is_none());
    *l.get_mut(&g) = 2;
    l.release(g);
    let g = l.try_lock().expect("free");
    assert_eq!(*l.get(&g), 2);
}

#[test]
fn interrupt_masking_nests() {
    let mut m: usize = MSTATUS_MIE | 0x1800;
    let prev = disable(&mut m);
    assert!(!enabled(m));
    let inner = disable(&mut m);
    restore(&mut m, inner);
    assert!(!enabled(m), "inner restore keeps interrupts off");
    restore(&mut m, prev);
    assert_eq!(m, MSTATUS_MIE | 0x1800);
    let r = with_interrupts_disabled(&mut m, |_cs| 42);
    assert_eq!(r, 42);
    assert_eq!(m, MSTATUS_MIE | 0x1800);
}

#[test]
fn counter_wraps() {
    let mut c = CounterU64::new();
    assert_eq!(c.add(u64::MAX), 0);
    assert_eq!(c.add(2), u64::MAX);
    assert_eq!(c.get(), 1);
    c.reset();
    assert_eq!(c.get(), 0);
}

#[test]
fn timer_conversions() {
    let mut cmp = TimerCompare { mtimecmp: 0 };
    let mut mie: usize = 8;
    let _t = timer_init(&mut cmp, &mut mie);
    assert_eq!(cmp.mtimecmp, u64::MAX);
    assert_eq!(mie, 8 | MTIE);
    set_next_deadline_ms(&mut cmp, 5);
    assert_eq!(cmp.mtimecmp, 50_000);
    set_next_deadline_ms(&mut cmp, u64::MAX);
    assert_eq!(cmp.mtimecmp, u64::MAX);
    set_next_deadline(&mut cmp, 7);
    assert!(is_due(&cmp, 7));
    assert!(!is_due(&cmp, 6));
    assert_eq!(elapsed_ms(123_456), 12);
    assert_eq!(elapsed_us(123_456), 12_345);
}

#[test]
fn deadline_leeway_and_coalescing() {
    let d = Deadline::from_ms(5, 1);
    assert_eq!((d.at, d.leeway), (50_000, 10_000));
    assert_eq!(d.latest(), 60_000);
    assert!(d.contains(55_000));
    assert!(!d.contains(60_001));
    assert!(!d.has_passed(50_000));
    assert!(d.has_passed(50_001));
    let mut c = d;
    c.coalesce_to(55_000);
    assert_eq!((c.at, c.leeway), (55_000, 5_000));
    assert_eq!(c.latest(), d.latest());
    let a = Deadline::after_ms(3, 0, 25_000);
    assert_eq!(a.at, 50_000);
    assert_eq!(Deadline::system_leeway_cycles(1_000_000, Qos::Low, 0), 125_000);
    assert_eq!(Deadline::system_leeway_cycles(10_000_000_000, Qos::High, 0), 1_000);
    assert_eq!(Deadline::system_leeway_cycles(10, Qos::High, 20), 0);
}

#[test]
fn user_memory_map_protection() {
    let layout = UserLayout { text_start: 0x2000_0000, data_start: 0x2000_1000, bss_start: 0x2000_1800 };
    let mut m = MemoryMap::new();
    assert!(m.add_region(Role::Heap, None).is_err());
    assert!(m.region(Role::Heap).is_none());
    assert!(m.try_for_process(&layout).is_ok());
    assert_eq!(m.region(Role::Text).unwrap().base, 0x2000_0000);
    let stack = MemRegion { base: 0x3000_0000, order: Order::KB4, dealloc_pool: None };
    let p = m.to_pmp(&stack);
    assert_eq!(p.len(), 4);
    assert_eq!((p[0].slot, p[0].base, p[0].size, p[0].permissions), (2, 0x2000_0000, 4096, 5));
    assert_eq!((p[1].slot, p[1].size, p[1].permissions), (3, 2048, 3));
    assert_eq!((p[3].slot, p[3].base, p[3].mode), (5, 0x3000_0000, PMP_NAPOT));
    assert_eq!(Role::BufRW.addr_slot(), 7);
}

#[test]
fn process_thread_count_is_capped() {
    let mut pcb = ControlBlock::new("p", MemoryMap::new(), 0, 3);
    for i in 1..=THREADS_PER_PROC_MAX {
        assert_eq!(pcb.add_thread_count(), Ok(i));
    }
    assert_eq!(pcb.add_thread_count(), Err(()));
    assert_eq!(pcb.dec_thread_count(), THREADS_PER_PROC_MAX - 1);
    assert!(pcb.set_teardown_thread(4));
    assert!(!pcb.set_teardown_thread(5));
    assert_eq!(pcb.teardown_thread, Some(4));
}
