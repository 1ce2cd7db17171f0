//! Spinlocks
//!
//! `IrqSpinLock` is a fair ticket lock that disables interrupts while held:
//! acquiring draws the next ticket and waits until it is served; releasing
//! serves the next ticket. The lock is free exactly when the ticket being
//! served is the next one to be drawn, and waiters are served in the order
//! they drew. `SpinLock` leaves interrupts alone and is a single flag.
//!
//! These are the locks' state machines: each operation is one atomic step
//! of the lock. Drawing a ticket and checking whether it is served are
//! separate steps, so a waiter polls `served` until it gets its guard;
//! `lock` is both steps on a free lock, where the first poll succeeds.

use vstd::prelude::*;
use crate::sync::{MSTATUS_MIE, disable, mie_set, restore};

verus! {

/// A ticket lock that disables interrupts while held.
pub struct IrqSpinLock<T> {
    next_ticket: u8,
    now_serving: u8,
    value: T,
}

/// A held `IrqSpinLock`: the ticket it was acquired with and the
/// interrupt state to restore on release.
#[derive(Debug)]
pub struct IrqSpinLockGuard {
    pub ticket: u8,
    pub prev_interrupt_status: usize,
}

/// The ticket after `t`, wrapping.
pub open spec fn next_ticket_after(t: u8) -> u8 {
    if t == u8::MAX {
        0
    } else {
        (t + 1) as u8
    }
}

/// A ticket drawn from an `IrqSpinLock` that has not yet been served, with
/// the interrupt state to restore once the lock is released.
#[derive(Debug)]
pub struct TicketWait {
    pub ticket: u8,
    pub prev_interrupt_status: usize,
}

/// How many tickets are served, from `serving` on, before ticket `t`: the
/// number of releases that must come before `t` is served.
pub open spec fn ticket_distance(serving: u8, t: u8) -> nat {
    ((t as int - serving as int) % 256) as nat
}

/// The ticket served after `n` releases, starting from `serving`.
pub open spec fn served_after(serving: u8, n: nat) -> u8 {
    ((serving as int + n) % 256) as u8
}

/// One release moves the ticket served on by one.
pub proof fn lemma_served_after_step(serving: u8, n: nat)
    ensures
        served_after(serving, n + 1) == next_ticket_after(served_after(serving, n)),
{
}

/// Tickets are served in the order they were drawn. While fewer tickets
/// are out than the counter can tell apart, a ticket `t1` drawn before
/// `t2` (nearer to the ticket served `serving`, and both drawn before the
/// next ticket `next`) is served after `ticket_distance(serving, t1)`
/// releases, and `t2` is not served at or before that point but later,
/// after `ticket_distance(serving, t2)` releases.
pub proof fn law_tickets_served_in_order(serving: u8, next: u8, t1: u8, t2: u8)
    requires
        ticket_distance(serving, t1) < ticket_distance(serving, t2),
        ticket_distance(serving, t2) < ticket_distance(serving, next),
    ensures
        served_after(serving, ticket_distance(serving, t1)) == t1,
        forall|m: nat| m <= ticket_distance(serving, t1) ==> #[trigger] served_after(serving, m) != t2,
        served_after(serving, ticket_distance(serving, t2)) == t2,
{
    assert forall|m: nat| m <= ticket_distance(serving, t1) implies #[trigger] served_after(serving, m) != t2 by {
        if served_after(serving, m) == t2 {
            assert(ticket_distance(serving, t2) == m);
        }
    }
}

impl<T> IrqSpinLock<T> {
    pub closed spec fn spec_next_ticket(&self) -> u8 {
        self.next_ticket
    }

    pub closed spec fn spec_now_serving(&self) -> u8 {
        self.now_serving
    }

    pub closed spec fn spec_value(&self) -> T {
        self.value
    }

    /// Free: the ticket served is the next one to be drawn.
    pub open spec fn is_free(&self) -> bool {
        self.spec_next_ticket() == self.spec_now_serving()
    }

    /// A free lock holding `value`.
    pub fn new(value: T) -> (r: Self)
        ensures
            r.is_free(),
            r.spec_now_serving() == 0,
            r.spec_value() == value,
    {
        IrqSpinLock { next_ticket: 0, now_serving: 0, value }
    }

    /// Draws a ticket: disables interrupts and takes the next ticket, which
    /// waits until it is served.
    pub fn draw_ticket(&mut self, mstatus: &mut usize) -> (w: TicketWait)
        ensures
            w.ticket == old(self).spec_next_ticket(),
            w.prev_interrupt_status == *old(mstatus),
            *final(mstatus) == *old(mstatus) & !MSTATUS_MIE,
            final(self).spec_next_ticket() == next_ticket_after(old(self).spec_next_ticket()),
            final(self).spec_now_serving() == old(self).spec_now_serving(),
            final(self).spec_value() == old(self).spec_value(),
    {
        let prev = disable(mstatus);
        let my_ticket = self.next_ticket;
        self.next_ticket = self.next_ticket.wrapping_add(1);
        TicketWait { ticket: my_ticket, prev_interrupt_status: prev }
    }

    /// One poll of a waiting ticket: the guard, once the ticket is the one
    /// served; otherwise the ticket back, to wait on.
    pub fn served(&self, w: TicketWait) -> (r: Result<IrqSpinLockGuard, TicketWait>)
        ensures
            if self.spec_now_serving() == w.ticket {
                r == Ok::<IrqSpinLockGuard, TicketWait>(
                    IrqSpinLockGuard { ticket: w.ticket, prev_interrupt_status: w.prev_interrupt_status },
                )
            } else {
                r == Err::<IrqSpinLockGuard, TicketWait>(w)
            },
    {
        if self.now_serving == w.ticket {
            Ok(IrqSpinLockGuard { ticket: w.ticket, prev_interrupt_status: w.prev_interrupt_status })
        } else {
            Err(w)
        }
    }

    /// Acquires the lock: draws a ticket, which on a free lock is served at
    /// the first poll. (On a held lock the caller would poll `served` until
    /// the holders before it release.)
    pub fn lock(&mut self, mstatus: &mut usize) -> (g: IrqSpinLockGuard)
        requires
            old(self).is_free(),
        ensures
            g.ticket == old(self).spec_next_ticket(),
            g.prev_interrupt_status == *old(mstatus),
            *final(mstatus) == *old(mstatus) & !MSTATUS_MIE,
            final(self).spec_next_ticket() == next_ticket_after(old(self).spec_next_ticket()),
            final(self).spec_now_serving() == old(self).spec_now_serving(),
            final(self).spec_now_serving() == g.ticket,
            final(self).spec_value() == old(self).spec_value(),
    {
        let w = self.draw_ticket(mstatus);
        match self.served(w) {
            Ok(g) => g,
            Err(w) => IrqSpinLockGuard { ticket: w.ticket, prev_interrupt_status: w.prev_interrupt_status },
        }
    }

    /// Acquires the lock if it is free, else returns `None` and changes
    /// nothing.
    pub fn try_lock(&mut self, mstatus: &mut usize) -> (g: Option<IrqSpinLockGuard>)
        ensures
            if old(self).is_free() {
                &&& g matches Some(h) && h.ticket == old(self).spec_next_ticket() && h.prev_interrupt_status
                    == *old(mstatus)
                &&& *final(mstatus) == *old(mstatus) & !MSTATUS_MIE
                &&& final(self).spec_next_ticket() == next_ticket_after(old(self).spec_next_ticket())
            } else {
                &&& g is None
                &&& *final(mstatus) == *old(mstatus)
                &&& final(self).spec_next_ticket() == old(self).spec_next_ticket()
            },
            final(self).spec_now_serving() == old(self).spec_now_serving(),
            final(self).spec_value() == old(self).spec_value(),
    {
        let my_ticket = self.next_ticket;
        if my_ticket != self.now_serving {
            return None;
        }
        let prev = disable(mstatus);
        self.next_ticket = my_ticket.wrapping_add(1);
        Some(IrqSpinLockGuard { ticket: my_ticket, prev_interrupt_status: prev })
    }

    /// Releases the lock held with `guard`: serves the next ticket and
    /// re-enables interrupts if they were enabled before the acquire.
    pub fn release(&mut self, guard: IrqSpinLockGuard, mstatus: &mut usize)
        requires
            old(self).spec_now_serving() == guard.ticket,
        ensures
            final(self).spec_now_serving() == next_ticket_after(old(self).spec_now_serving()),
            final(self).spec_next_ticket() == old(self).spec_next_ticket(),
            final(self).spec_value() == old(self).spec_value(),
            *final(mstatus) == if mie_set(guard.prev_interrupt_status) {
                *old(mstatus) | MSTATUS_MIE
            } else {
                *old(mstatus)
            },
    {
        self.now_serving = self.now_serving.wrapping_add(1);
        restore(mstatus, guard.prev_interrupt_status);
    }

    /// The protected value.
    pub fn get(&self, guard: &IrqSpinLockGuard) -> (r: &T)
        requires
            self.spec_now_serving() == guard.ticket,
        ensures
            *r == self.spec_value(),
    {
        &self.value
    }

    /// The protected value, to change.
    pub fn get_mut(&mut self, guard: &IrqSpinLockGuard) -> (r: &mut T)
        requires
            old(self).spec_now_serving() == guard.ticket,
        ensures
            *r == old(self).spec_value(),
            final(self).spec_value() == *final(r),
            final(self).spec_now_serving() == old(self).spec_now_serving(),
            final(self).spec_next_ticket() == old(self).spec_next_ticket(),
    {
        &mut self.value
    }
}

/// A spinlock that leaves interrupts enabled.
pub struct SpinLock<T> {
    locked: bool,
    value: T,
}

/// A held `SpinLock`.
#[derive(Debug)]
pub struct SpinLockGuard {
    _private: (),
}

impl<T> SpinLock<T> {
    pub closed spec fn is_locked(&self) -> bool {
        self.locked
    }

    pub closed spec fn spec_value(&self) -> T {
        self.value
    }

    /// An unlocked lock holding `value`.
    pub fn new(value: T) -> (r: Self)
        ensures
            !r.is_locked(),
            r.spec_value() == value,
    {
        SpinLock { locked: false, value }
    }

    /// Acquires the lock, which must be free. (On a held lock it would spin
    /// until released.)
    pub fn lock(&mut self) -> (g: SpinLockGuard)
        requires
            !old(self).is_locked(),
        ensures
            final(self).is_locked(),
            final(self).spec_value() == old(self).spec_value(),
    {
        self.locked = true;
        SpinLockGuard { _private: () }
    }

    /// Acquires the lock if it is free, else returns `None`.
    pub fn try_lock(&mut self) -> (g: Option<SpinLockGuard>)
        ensures
            g is Some <==> !old(self).is_locked(),
            final(self).is_locked(),
            final(self).spec_value() == old(self).spec_value(),
    {
        if self.locked {
            None
        } else {
            self.locked = true;
            Some(SpinLockGuard { _private: () })
        }
    }

    /// Releases the lock.
    pub fn release(&mut self, guard: SpinLockGuard)
        ensures
            !final(self).is_locked(),
            final(self).spec_value() == old(self).spec_value(),
    {
        self.locked = false;
    }

    /// The protected value.
    pub fn get(&self, guard: &SpinLockGuard) -> (r: &T)
        requires
            self.is_locked(),
        ensures
            *r == self.spec_value(),
    {
        &self.value
    }

    /// The protected value, to change.
    pub fn get_mut(&mut self, guard: &SpinLockGuard) -> (r: &mut T)
        requires
            old(self).is_locked(),
        ensures
            *r == old(self).spec_value(),
            final(self).spec_value() == *final(r),
            final(self).is_locked(),
    {
        &mut self.value
    }
}

/// Acquiring a free ticket lock and releasing it leaves the lock free
/// again, one ticket further on.
pub proof fn law_lock_release_frees<T>(a: IrqSpinLock<T>, b: IrqSpinLock<T>, c: IrqSpinLock<T>, g: IrqSpinLockGuard)
    requires
        a.is_free(),
        g.ticket == a.spec_next_ticket(),
        b.spec_next_ticket() == next_ticket_after(a.spec_next_ticket()),
        b.spec_now_serving() == a.spec_now_serving(),
        c.spec_now_serving() == next_ticket_after(b.spec_now_serving()),
        c.spec_next_ticket() == b.spec_next_ticket(),
    ensures
        !b.is_free(),
        c.is_free(),
        c.spec_now_serving() == next_ticket_after(a.spec_now_serving()),
{
}

} // verus!
