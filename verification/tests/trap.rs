use ease::ipi::{drain, send, Ipi, FENCEI, RESCHEDULE};
use ease::percpu::{needs_reschedule, set_online};
use ease::sched::{bootstrap, Scheduler, SLICE};
use ease::trap::{
    handle_trap, DivertTarget, EcallAction, FaultKind, Frame, TrapChecks, TrapOutcome, ECALL_FROM_M, ECALL_FROM_U,
    EXIT_REASON_FAULT, EXTERNAL, LOAD_ACCESS_FAULT, SOFTWARE, SYS_PUT_CHAR, TIMER,
};

const INTERRUPT: usize = 1 << (usize::BITS - 1);
const MACHINE_MODE: usize = 3 << 11;

fn ok() -> TrapChecks {
    TrapChecks { stop: false, irq_canary_ok: true, kernel_canary_ok: true, user_canary_ok: true }
}

fn frame(mstatus: usize) -> Frame {
    Frame { mepc: 0x100, mstatus, sp: 0x8000, ra: 0, a0: 0, a1: 0, a2: 0, syscall: 0 }
}

fn setup() -> (Scheduler, Ipi) {
    let mut s = Scheduler::new();
    bootstrap(&mut s, 0, 0x1000_0000, 0);
    (s, Ipi::new())
}

#[test]
fn trap_timer_marks_for_preemption_and_diverts() {
    let (mut s, mut ipi) = setup();
    let mut f = frame(MACHINE_MODE);
    let r = handle_trap(&mut s, &mut ipi, 0, 50, INTERRUPT | TIMER, ok(), &mut f);
    match r {
        TrapOutcome::Handled(a) => {
            assert_eq!(a.timer, Some(50 + SLICE));
            assert_eq!(a.divert, Some(DivertTarget::PreemptTrampoline));
        }
        other => panic!("{:?}", other),
    }
    assert!(needs_reschedule(&s.cpus, 0));
    assert_eq!(s.cpus.record(0).resume_mepc, 0x100);
    assert_eq!(s.cpus.record(0).resume_sp, 0x8000);
}

#[test]
fn trap_software_interrupt_drains_the_mailbox() {
    let (mut s, mut ipi) = setup();
    set_online(&mut s.cpus, 0);
    send(&mut ipi, &s.cpus, 1, FENCEI);
    let mut f = frame(MACHINE_MODE);
    let r = handle_trap(&mut s, &mut ipi, 0, 50, INTERRUPT | SOFTWARE, ok(), &mut f);
    match r {
        TrapOutcome::Handled(a) => {
            assert!(a.fence_i);
            assert_eq!(a.timer, None, "no reschedule was asked for");
            assert_eq!(a.divert, None);
        }
        other => panic!("{:?}", other),
    }
    assert_eq!(drain(&mut ipi, 0), vec![false, false], "the mailbox was drained");
    send(&mut ipi, &s.cpus, 1, RESCHEDULE);
    let r = handle_trap(&mut s, &mut ipi, 0, 60, INTERRUPT | SOFTWARE, ok(), &mut f);
    match r {
        TrapOutcome::Handled(a) => {
            assert!(!a.fence_i);
            assert_eq!(a.timer, Some(60 + SLICE));
            assert_eq!(a.divert, Some(DivertTarget::PreemptTrampoline));
        }
        other => panic!("{:?}", other),
    }
}

#[test]
fn trap_external_and_machine_ecall() {
    let (mut s, mut ipi) = setup();
    let mut f = frame(MACHINE_MODE);
    match handle_trap(&mut s, &mut ipi, 0, 1, INTERRUPT | EXTERNAL, ok(), &mut f) {
        TrapOutcome::Handled(a) => assert!(a.external),
        other => panic!("{:?}", other),
    }
    match handle_trap(&mut s, &mut ipi, 0, 1, ECALL_FROM_M, ok(), &mut f) {
        TrapOutcome::Handled(a) => assert!(a.ecall_from_m),
        other => panic!("{:?}", other),
    }
    assert_eq!(f.mepc, 0x104, "a machine-mode call is stepped past");
}

#[test]
fn trap_user_ecall_and_fault() {
    let (mut s, mut ipi) = setup();
    let mut f = frame(0);
    f.syscall = SYS_PUT_CHAR;
    f.a0 = 'A' as usize;
    match handle_trap(&mut s, &mut ipi, 0, 1, ECALL_FROM_U, ok(), &mut f) {
        TrapOutcome::Handled(a) => {
            assert_eq!(a.ecall, Some(EcallAction::Print(65)));
            assert_eq!(a.divert, None);
        }
        other => panic!("{:?}", other),
    }
    assert_eq!((f.mepc, f.a0), (0x104, 0));
    let mut f = frame(0);
    match handle_trap(&mut s, &mut ipi, 0, 1, LOAD_ACCESS_FAULT, ok(), &mut f) {
        TrapOutcome::Handled(a) => {
            assert_eq!(a.user_fault, Some(FaultKind::LoadAccess));
            assert_eq!(a.divert, Some(DivertTarget::UserThreadExit));
        }
        other => panic!("{:?}", other),
    }
    assert_eq!(f.a0, EXIT_REASON_FAULT);
}

#[test]
fn trap_checks_and_kernel_faults() {
    let (mut s, mut ipi) = setup();
    let mut f = frame(MACHINE_MODE);
    let stop = TrapChecks { stop: true, ..ok() };
    assert_eq!(handle_trap(&mut s, &mut ipi, 0, 1, INTERRUPT | TIMER, stop, &mut f), TrapOutcome::Park);
    let bad_irq = TrapChecks { irq_canary_ok: false, ..ok() };
    assert_eq!(handle_trap(&mut s, &mut ipi, 0, 1, INTERRUPT | TIMER, bad_irq, &mut f), TrapOutcome::IrqStackCorrupt);
    let bad_kernel = TrapChecks { kernel_canary_ok: false, ..ok() };
    assert_eq!(handle_trap(&mut s, &mut ipi, 0, 1, INTERRUPT | TIMER, bad_kernel, &mut f), TrapOutcome::KernelStackCorrupt);
    assert_eq!(
        handle_trap(&mut s, &mut ipi, 0, 1, LOAD_ACCESS_FAULT, ok(), &mut f),
        TrapOutcome::KernelFault(FaultKind::LoadAccess)
    );
    assert_eq!(handle_trap(&mut s, &mut ipi, 0, 1, INTERRUPT | 9, ok(), &mut f), TrapOutcome::UnknownInterrupt(9));
    assert!(!needs_reschedule(&s.cpus, 0));
}
