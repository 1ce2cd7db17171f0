//! Trap handling decisions
//!
//! A trap is an interrupt or an exception, as the cause register says. The
//! handler checks the stack canaries, dispatches on the cause, and then,
//! for a trap from user mode, checks the user stack canary; finally a
//! pending reschedule diverts the return into the preemption trampoline.
//! Register and stack access stay with the caller, who hands in what it
//! read and carries out the actions returned.

use vstd::prelude::*;
use crate::ipi::{FENCEI, Ipi, MAILBOX_SIZE, RESCHEDULE, clear_self, drain};
use crate::percpu::{HARTS_MAX, PerCpu, needs_reschedule, set_resume_mepc, set_resume_mstatus, set_resume_sp};
use crate::sched::{SLICE, Scheduler};

verus! {

/// Interrupt cause: machine software interrupt.
pub const SOFTWARE: usize = 3;

/// Interrupt cause: machine timer interrupt.
pub const TIMER: usize = 7;

/// Interrupt cause: machine external interrupt.
pub const EXTERNAL: usize = 11;

/// Exception cause: instruction access fault.
pub const INSTRUCTION_ACCESS_FAULT: usize = 1;

/// Exception cause: illegal instruction.
pub const ILLEGAL_INSTRUCTION: usize = 2;

/// Exception cause: load access fault.
pub const LOAD_ACCESS_FAULT: usize = 5;

/// Exception cause: store access fault.
pub const STORE_ACCESS_FAULT: usize = 7;

/// Exception cause: environment call from user mode.
pub const ECALL_FROM_U: usize = 8;

/// Exception cause: environment call from machine mode.
pub const ECALL_FROM_M: usize = 11;

/// System call: exit the thread.
pub const SYS_EXIT: usize = 0;

/// System call: write a character.
pub const SYS_PUT_CHAR: usize = 1;

/// System call: read a character.
pub const SYS_GET_CHAR: usize = 2;

/// Exit code handed to the thread exit path for a normal exit.
pub const EXIT_REASON_EXIT: usize = 0;

/// Exit code handed to the thread exit path for a fault.
pub const EXIT_REASON_FAULT: usize = 1;

/// What caused a trap.
#[derive(Clone, Copy, Debug, PartialEq, Eq, Structural)]
pub enum Trap {
    Interrupt(usize),
    Exception(usize),
}

/// The cause register value `mcause` read: the top bit tells an interrupt
/// from an exception, the rest is the code.
pub open spec fn spec_decode(mcause: usize) -> Trap {
    if mcause > usize::MAX / 2 {
        Trap::Interrupt((mcause - (usize::MAX / 2 + 1)) as usize)
    } else {
        Trap::Exception(mcause)
    }
}

/// Decodes the cause register.
pub fn decode_mcause(mcause: usize) -> (r: Trap)
    ensures
        r == spec_decode(mcause),
{
    let half = usize::MAX / 2;
    if mcause > half {
        Trap::Interrupt(mcause - (half + 1))
    } else {
        Trap::Exception(mcause)
    }
}

/// Where a trap return is diverted to, in the kernel.
#[derive(Clone, Copy, Debug, PartialEq, Eq, Structural)]
pub enum DivertTarget {
    /// The user thread exit path, with the exit reason in `a0`.
    UserThreadExit,
    /// The user thread blocking path (for `get_char`).
    UserThreadBlock,
    /// The preemption trampoline of the hart.
    PreemptTrampoline,
}

/// Kind of a fault, for the report.
#[derive(Clone, Copy, Debug, PartialEq, Eq, Structural)]
pub enum FaultKind {
    InstructionAccess,
    LoadAccess,
    StoreAccess,
    IllegalInstruction,
    Other(usize),
}

/// The fault kind of exception `code`.
pub open spec fn spec_fault_kind(code: usize) -> FaultKind {
    if code == INSTRUCTION_ACCESS_FAULT {
        FaultKind::InstructionAccess
    } else if code == LOAD_ACCESS_FAULT {
        FaultKind::LoadAccess
    } else if code == STORE_ACCESS_FAULT {
        FaultKind::StoreAccess
    } else if code == ILLEGAL_INSTRUCTION {
        FaultKind::IllegalInstruction
    } else {
        FaultKind::Other(code)
    }
}

/// The fault kind of exception `code`.
pub fn fault_kind(code: usize) -> (r: FaultKind)
    ensures
        r == spec_fault_kind(code),
{
    if code == INSTRUCTION_ACCESS_FAULT {
        FaultKind::InstructionAccess
    } else if code == LOAD_ACCESS_FAULT {
        FaultKind::LoadAccess
    } else if code == STORE_ACCESS_FAULT {
        FaultKind::StoreAccess
    } else if code == ILLEGAL_INSTRUCTION {
        FaultKind::IllegalInstruction
    } else {
        FaultKind::Other(code)
    }
}

/// The registers of a trapped context that the handler reads or changes.
#[derive(Clone, Copy, Debug, PartialEq, Eq, Structural)]
pub struct Frame {
    pub mepc: usize,
    pub mstatus: usize,
    pub sp: usize,
    pub ra: usize,
    pub a0: usize,
    pub a1: usize,
    pub a2: usize,
    /// The system call number register.
    pub syscall: usize,
}

/// The previous-privilege field of a status value: user mode when zero.
pub open spec fn from_user(mstatus: usize) -> bool {
    (mstatus / 2048) % 4 == 0
}

impl Frame {
    /// Whether the trap came from user mode.
    pub fn is_from_user(&self) -> (r: bool)
        ensures
            r == from_user(self.mstatus),
    {
        (self.mstatus / 2048) % 4 == 0
    }
}

/// What a system call asks of the caller besides the frame changes.
#[derive(Clone, Copy, Debug, PartialEq, Eq, Structural)]
pub enum EcallAction {
    /// Divert the return to a kernel path.
    Divert(DivertTarget),
    /// Print the character with this scalar value to the debug console.
    Print(u32),
    /// Nothing to print: the code was not a character.
    Nothing,
    /// An unknown system call: report its number.
    Unknown(usize),
}

/// What a system call from user mode does to the frame `f`, and what it
/// asks of the caller. Exit diverts to the thread exit path with a normal
/// exit reason; `put_char` steps past the call, prints the character in
/// `a0` if it is one and reports success; `get_char` hands the blocking
/// path the return address past the call and the user stack pointer;
/// anything else is stepped past and reported.
pub open spec fn ecall_effect(f: Frame) -> (Frame, EcallAction) {
    if f.syscall == SYS_EXIT {
        (Frame { a0: EXIT_REASON_EXIT, ..f }, EcallAction::Divert(DivertTarget::UserThreadExit))
    } else if f.syscall == SYS_PUT_CHAR {
        (
            Frame { mepc: (f.mepc + 4) as usize, a0: 0, a1: 0, ..f },
            if is_scalar_value(f.a0 as u32) {
                EcallAction::Print(f.a0 as u32)
            } else {
                EcallAction::Nothing
            },
        )
    } else if f.syscall == SYS_GET_CHAR {
        (Frame { a0: (f.mepc + 4) as usize, a1: f.sp, a2: SYS_GET_CHAR, ..f }, EcallAction::Divert(DivertTarget::UserThreadBlock))
    } else {
        (Frame { mepc: (f.mepc + 4) as usize, ..f }, EcallAction::Unknown(f.syscall))
    }
}

/// Handles a system call from user mode: see `ecall_effect`.
pub fn handle_ecall(frame: &mut Frame) -> (r: EcallAction)
    requires
        old(frame).mepc + 4 <= usize::MAX,
    ensures
        (*final(frame), r) == ecall_effect(*old(frame)),
{
    if frame.syscall == SYS_EXIT {
        frame.a0 = EXIT_REASON_EXIT;
        EcallAction::Divert(DivertTarget::UserThreadExit)
    } else if frame.syscall == SYS_PUT_CHAR {
        frame.mepc = frame.mepc + 4;
        let code = frame.a0 as u32;
        frame.a0 = 0;
        frame.a1 = 0;
        if scalar_value(code) {
            EcallAction::Print(code)
        } else {
            EcallAction::Nothing
        }
    } else if frame.syscall == SYS_GET_CHAR {
        frame.a0 = frame.mepc + 4;
        frame.a1 = frame.sp;
        frame.a2 = SYS_GET_CHAR;
        EcallAction::Divert(DivertTarget::UserThreadBlock)
    } else {
        frame.mepc = frame.mepc + 4;
        EcallAction::Unknown(frame.syscall)
    }
}

/// Whether `v` is a Unicode scalar value, the value of a character: at
/// most 0x10FFFF and not a surrogate.
pub open spec fn is_scalar_value(v: u32) -> bool {
    v <= 0x10FFFF && !(0xD800 <= v <= 0xDFFF)
}

/// Whether `v` is the value of a character.
pub fn scalar_value(v: u32) -> (r: bool)
    ensures
        r == is_scalar_value(v),
{
    v <= 0x10FFFF && !(0xD800 <= v && v <= 0xDFFF)
}

/// How a trap ended.
#[derive(Debug, PartialEq, Eq)]
pub enum TrapOutcome {
    /// The other hart has panicked: park this hart for good.
    Park,
    /// The interrupt stack canary is gone: panic.
    IrqStackCorrupt,
    /// The kernel stack canary of the running thread is gone: panic.
    KernelStackCorrupt,
    /// An interrupt with an unknown code: panic.
    UnknownInterrupt(usize),
    /// An exception in kernel mode: panic.
    KernelFault(FaultKind),
    /// Handled; carry out the actions.
    Handled(TrapActions),
}

/// What the caller does after a handled trap.
#[derive(Debug, PartialEq, Eq)]
pub struct TrapActions {
    /// Program the timer.
    pub timer: Option<u64>,
    /// Fence the instruction stream and acknowledge the request.
    pub fence_i: bool,
    /// Service the external interrupt controller.
    pub external: bool,
    /// What a system call asked for.
    pub ecall: Option<EcallAction>,
    /// A user fault to report; the thread is being killed.
    pub user_fault: Option<FaultKind>,
    /// A machine-mode environment call to report.
    pub ecall_from_m: bool,
    /// Divert the trap return.
    pub divert: Option<DivertTarget>,
}

/// What the handler inspects, read by the caller beforehand: whether the
/// other hart has stopped everything, and whether the interrupt stack,
/// kernel stack and (for a trap from user mode) user stack canaries are
/// intact.
#[derive(Clone, Copy, Debug, PartialEq, Eq, Structural)]
pub struct TrapChecks {
    pub stop: bool,
    pub irq_canary_ok: bool,
    pub kernel_canary_ok: bool,
    pub user_canary_ok: bool,
}

/// Actions that ask nothing.
pub open spec fn no_actions() -> TrapActions {
    TrapActions {
        timer: None,
        fence_i: false,
        external: false,
        ecall: None,
        user_fault: None,
        ecall_from_m: false,
        divert: None,
    }
}

/// The per-hart records `c` with `hart` asked to reschedule.
pub open spec fn marked(c: Seq<PerCpu>, hart: usize) -> Seq<PerCpu> {
    c.update(hart as int, PerCpu { needs_reschedule: true, ..c[hart as int] })
}

/// The dispatch on the cause `trap` of a trap on `hart` at `now`, from
/// user mode if `user`, with frame `f` and per-hart records `c`, where
/// `fencei` and `resched` are the flags pending in the hart's mailbox:
/// the actions, frame and records it leaves, or the outcome that ends the
/// trap at once. A timer interrupt, or a software interrupt carrying a
/// reschedule request, marks the hart for preemption and sets the timer a
/// slice ahead; a software interrupt carrying an instruction fence request
/// asks for the fence; an external interrupt asks for the controller to be
/// serviced; a user system call goes to `ecall_effect`, diverting where it
/// asks to; a machine-mode one is stepped past; any other exception from
/// user mode is a fault that sends the thread to its exit; anything else
/// is a panic.
pub open spec fn dispatch(
    c: Seq<PerCpu>,
    fencei: bool,
    resched: bool,
    hart: usize,
    now: u64,
    trap: Trap,
    user: bool,
    f: Frame,
) -> Result<(TrapActions, Frame, Seq<PerCpu>), TrapOutcome> {
    let timer = Some((now + SLICE) as u64);
    match trap {
        Trap::Interrupt(code) => if code == TIMER {
            Ok((TrapActions { timer, ..no_actions() }, f, marked(c, hart)))
        } else if code == SOFTWARE {
            Ok((
                TrapActions { timer: if resched { timer } else { None }, fence_i: fencei, ..no_actions() },
                f,
                if resched { marked(c, hart) } else { c },
            ))
        } else if code == EXTERNAL {
            Ok((TrapActions { external: true, ..no_actions() }, f, c))
        } else {
            Err(TrapOutcome::UnknownInterrupt(code))
        },
        Trap::Exception(code) => if code == ECALL_FROM_U {
            let (g, e) = ecall_effect(f);
            let divert = match e {
                EcallAction::Divert(t) => Some(t),
                _ => None,
            };
            Ok((TrapActions { ecall: Some(e), divert, ..no_actions() }, g, c))
        } else if code == ECALL_FROM_M {
            Ok((TrapActions { ecall_from_m: true, ..no_actions() }, Frame { mepc: (f.mepc + 4) as usize, ..f }, c))
        } else if user {
            Ok((
                TrapActions { user_fault: Some(spec_fault_kind(code)), divert: Some(DivertTarget::UserThreadExit), ..no_actions() },
                Frame { a0: EXIT_REASON_FAULT, ..f },
                c,
            ))
        } else {
            Err(TrapOutcome::KernelFault(spec_fault_kind(code)))
        },
    }
}

/// How a trap with cause `mcause` on `hart` at `now` ends, given the
/// checks read beforehand, the frame `f`, the per-hart records `c` and the
/// hart's pending mailbox flags: the outcome, the frame and the records it
/// leaves. A stop parks the hart and a damaged interrupt or kernel stack
/// canary panics, before anything else; then the cause is dispatched. A
/// trap from user mode with a damaged user stack canary sends the thread
/// to its exit with a fault reason; otherwise, if the hart is marked for
/// preemption, the resume state is saved and the return diverted to the
/// preemption trampoline.
pub open spec fn trap_result(
    c: Seq<PerCpu>,
    fencei: bool,
    resched: bool,
    hart: usize,
    now: u64,
    mcause: usize,
    checks: TrapChecks,
    f: Frame,
) -> (TrapOutcome, Frame, Seq<PerCpu>) {
    if checks.stop {
        (TrapOutcome::Park, f, c)
    } else if !checks.irq_canary_ok {
        (TrapOutcome::IrqStackCorrupt, f, c)
    } else if !checks.kernel_canary_ok {
        (TrapOutcome::KernelStackCorrupt, f, c)
    } else {
        let user = from_user(f.mstatus);
        match dispatch(c, fencei, resched, hart, now, spec_decode(mcause), user, f) {
            Err(o) => (o, f, c),
            Ok((a, g, d)) => if user && !checks.user_canary_ok {
                (
                    TrapOutcome::Handled(TrapActions { divert: Some(DivertTarget::UserThreadExit), ..a }),
                    Frame { a0: EXIT_REASON_FAULT, ..g },
                    d,
                )
            } else if d[hart as int].needs_reschedule {
                (
                    TrapOutcome::Handled(TrapActions { divert: Some(DivertTarget::PreemptTrampoline), ..a }),
                    g,
                    d.update(hart as int, PerCpu { resume_mepc: g.mepc, resume_mstatus: g.mstatus, resume_sp: g.sp, ..d[hart as int] }),
                )
            } else {
                (TrapOutcome::Handled(a), g, d)
            },
        }
    }
}

/// Whether the trap reaches the software interrupt dispatch, which lowers
/// the hart's line and drains its mailbox.
pub open spec fn takes_software(mcause: usize, checks: TrapChecks) -> bool {
    !checks.stop && checks.irq_canary_ok && checks.kernel_canary_ok && spec_decode(mcause) == Trap::Interrupt(SOFTWARE)
}

/// Handles a trap with cause `mcause` on `hart` at time `now`: see the
/// module documentation. Timer and reschedule interrupts mark the hart
/// for preemption; a software interrupt lowers the line and drains the
/// mailbox; a user fault, or a damaged user stack canary, diverts the
/// thread to its exit with a fault reason; a pending reschedule saves the
/// resume state and diverts to the preemption trampoline.
pub fn handle_trap(
    s: &mut Scheduler,
    ipi: &mut Ipi,
    hart: usize,
    now: u64,
    mcause: usize,
    checks: TrapChecks,
    frame: &mut Frame,
) -> (r: TrapOutcome)
    requires
        old(s).wf(),
        old(ipi).wf(),
        hart < HARTS_MAX,
        now + SLICE <= u64::MAX,
        old(frame).mepc + 4 <= usize::MAX,
    ensures
        final(s).wf(),
        final(ipi).wf(),
        (r, *final(frame), final(s).cpus@) == trap_result(
            old(s).cpus@,
            old(ipi).flag(hart as int, FENCEI as int),
            old(ipi).flag(hart as int, RESCHEDULE as int),
            hart,
            now,
            mcause,
            checks,
            *old(frame),
        ),
        final(s).threads@ == old(s).threads@,
        final(s).procs@ == old(s).procs@,
        final(s).needs_wakeup@ == old(s).needs_wakeup@,
        final(s).run_cycles@ == old(s).run_cycles@,
        final(s).next_thread_id == old(s).next_thread_id,
        final(s).next_pid == old(s).next_pid,
        forall|h: int, k: int| 0 <= h < HARTS_MAX && 0 <= k < MAILBOX_SIZE ==> #[trigger] final(ipi).flag(h, k)
            == (old(ipi).flag(h, k) && !(takes_software(mcause, checks) && h == hart)),
        forall|h: int| 0 <= h < HARTS_MAX ==> #[trigger] final(ipi).pending(h)
            == (old(ipi).pending(h) && !(takes_software(mcause, checks) && h == hart)),
{
    if checks.stop {
        return TrapOutcome::Park;
    }
    if !checks.irq_canary_ok {
        return TrapOutcome::IrqStackCorrupt;
    }
    if !checks.kernel_canary_ok {
        return TrapOutcome::KernelStackCorrupt;
    }
    let user = frame.is_from_user();
    let mut actions = TrapActions {
        timer: None,
        fence_i: false,
        external: false,
        ecall: None,
        user_fault: None,
        ecall_from_m: false,
        divert: None,
    };
    match decode_mcause(mcause) {
        Trap::Interrupt(code) => {
            if code == TIMER {
                actions.timer = Some(s.mark_for_preempt(hart, now));
            } else if code == SOFTWARE {
                clear_self(ipi, hart);
                let flags = drain(ipi, hart);
                if flags[FENCEI] {
                    actions.fence_i = true;
                }
                if flags[RESCHEDULE] {
                    actions.timer = Some(s.mark_for_preempt(hart, now));
                }
            } else if code == EXTERNAL {
                actions.external = true;
            } else {
                return TrapOutcome::UnknownInterrupt(code);
            }
        },
        Trap::Exception(code) => {
            if code == ECALL_FROM_U {
                let e = handle_ecall(frame);
                match e {
                    EcallAction::Divert(t) => {
                        actions.divert = Some(t);
                    },
                    _ => {},
                }
                actions.ecall = Some(e);
            } else if code == ECALL_FROM_M {
                frame.mepc = frame.mepc + 4;
                actions.ecall_from_m = true;
            } else if user {
                actions.user_fault = Some(fault_kind(code));
                frame.a0 = EXIT_REASON_FAULT;
                actions.divert = Some(DivertTarget::UserThreadExit);
            } else {
                return TrapOutcome::KernelFault(fault_kind(code));
            }
        },
    }
    if user && !checks.user_canary_ok {
        frame.a0 = EXIT_REASON_FAULT;
        actions.divert = Some(DivertTarget::UserThreadExit);
        return TrapOutcome::Handled(actions);
    }
    if needs_reschedule(&s.cpus, hart) {
        set_resume_mepc(&mut s.cpus, hart, frame.mepc);
        set_resume_mstatus(&mut s.cpus, hart, frame.mstatus);
        set_resume_sp(&mut s.cpus, hart, frame.sp);
        actions.divert = Some(DivertTarget::PreemptTrampoline);
    }
    TrapOutcome::Handled(actions)
}

} // verus!
