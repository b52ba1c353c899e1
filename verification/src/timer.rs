//! Deadline timers: one-time handlers that run when their deadline is reached, unless all
//! their handles were dropped or the timer was canceled.
//!
//! Times are microsecond timestamps of a monotonic clock.
use vstd::prelude::*;

verus! {

/// State of a deadline variable.
#[derive(Clone, Copy, Debug, PartialEq, Eq, Structural)]
pub struct Deadline {
    /// Deadline for the timer to elapse, it does not change.
    pub deadline: u64,
    /// If the timer has elapsed, `false` at first, `true` once the deadline is reached.
    pub elapsed: bool,
}

/// Arguments of a deadline handler call.
#[derive(Clone, Copy, Debug, PartialEq, Eq, Structural)]
pub struct DeadlineArgs {
    /// When the handler was called.
    pub timestamp: u64,
    /// The timer deadline, less or equal to the timestamp.
    pub deadline: u64,
}

/// Shared state of a deadline handler and its handles.
#[derive(Clone, Copy, Debug, PartialEq, Eq, Structural)]
pub struct DeadlineEntry {
    /// The deadline.
    pub deadline: u64,
    /// Number of live handles.
    pub handles: usize,
    /// A handle was made permanent: the handler is kept without handles.
    pub permanent: bool,
    /// A handle canceled the handler.
    pub force_drop: bool,
    /// The handler was called.
    pub executed: bool,
    /// The handler is in the timers list.
    pub active: bool,
    /// The deadline was reached in the last update and the handler must be called.
    pub pending: bool,
}

impl DeadlineEntry {
    /// Canceled, or all handles dropped without being made permanent.
    pub open spec fn is_dropped(self) -> bool {
        self.force_drop || (self.handles == 0 && !self.permanent)
    }
}

/// Sixty hours, the longest wait between timer updates, in microseconds.
pub const MAX_WAIT: u64 = 216_000_000_000u64;

/// App timers: deadline handlers.
pub struct Timers {
    entries: Vec<DeadlineEntry>,
}

/// A handle to a deadline handler. Dropping all handles cancels the handler, unless one was
/// made permanent.
pub struct DeadlineHandle {
    id: usize,
    deadline: u64,
    dummy: bool,
}

impl Timers {
    pub closed spec fn spec_entries(self) -> Seq<DeadlineEntry> {
        self.entries@
    }

    /// No timers.
    pub fn new() -> (r: Timers)
        ensures
            r.spec_entries() == Seq::<DeadlineEntry>::empty(),
    {
        Timers { entries: Vec::new() }
    }

    /// Registers a handler called once when `deadline` is reached; returns its handle.
    pub fn on_deadline(&mut self, deadline: u64) -> (r: DeadlineHandle)
        ensures
            final(self).spec_entries() == old(self).spec_entries().push(
                DeadlineEntry {
                    deadline,
                    handles: 1,
                    permanent: false,
                    force_drop: false,
                    executed: false,
                    active: true,
                    pending: false,
                },
            ),
            r.spec_id() == old(self).spec_entries().len(),
            r.spec_deadline() == deadline,
            !r.spec_dummy(),
    {
        let id = self.entries.len();
        self.entries.push(
            DeadlineEntry {
                deadline,
                handles: 1,
                permanent: false,
                force_drop: false,
                executed: false,
                active: true,
                pending: false,
            },
        );
        DeadlineHandle { id, deadline, dummy: false }
    }

    /// Updates the handlers for the time `now`: canceled handlers leave the list, the others
    /// are flagged pending when their deadline is reached. Returns the earliest deadline not
    /// reached yet, capped at `now` plus sixty hours, or `None` if no handler waits.
    pub fn apply_updates(&mut self, now: u64) -> (r: Option<u64>)
        requires
            now <= u64::MAX - MAX_WAIT,
        ensures
            final(self).spec_entries().len() == old(self).spec_entries().len(),
            forall|i: int|
                0 <= i < old(self).spec_entries().len() ==> #[trigger] final(self).spec_entries()[i] == updated(
                    old(self).spec_entries()[i],
                    now,
                ),
            r is None <==> (forall|i: int|
                0 <= i < old(self).spec_entries().len() ==> !#[trigger] waits(old(self).spec_entries()[i], now)),
            r matches Some(t) ==> {
                &&& t <= now + MAX_WAIT
                &&& forall|i: int|
                    0 <= i < old(self).spec_entries().len() && #[trigger] waits(old(self).spec_entries()[i], now)
                        ==> t <= old(self).spec_entries()[i].deadline
                &&& (t == now + MAX_WAIT || exists|i: int|
                    0 <= i < old(self).spec_entries().len() && #[trigger] waits(old(self).spec_entries()[i], now)
                        && t == old(self).spec_entries()[i].deadline)
            },
    {
        let mut min_next_some = false;
        let mut min_next: u64 = now + MAX_WAIT;
        let ghost old_entries = self.entries@;
        let ghost mut wit: int = 0;
        let ghost mut wit2: int = -1;
        let mut i: usize = 0;
        while i < self.entries.len()
            invariant
                self.entries@.len() == old_entries.len(),
                i <= old_entries.len(),
                forall|k: int| i <= k < old_entries.len() ==> #[trigger] self.entries@[k] == old_entries[k],
                forall|k: int| 0 <= k < i ==> #[trigger] self.entries@[k] == updated(old_entries[k], now),
                min_next_some ==> 0 <= wit < i && waits(old_entries[wit], now),
                !min_next_some ==> forall|k: int| 0 <= k < i ==> !#[trigger] waits(old_entries[k], now),
                min_next <= now + MAX_WAIT,
                forall|k: int| 0 <= k < i && #[trigger] waits(old_entries[k], now) ==> min_next <= old_entries[k].deadline,
                min_next == now + MAX_WAIT || (0 <= wit2 < i && waits(old_entries[wit2], now) && min_next
                    == old_entries[wit2].deadline),
            decreases old_entries.len() - i,
        {
            let mut e = self.entries[i];
            if e.active {
                if e.force_drop || (e.handles == 0 && !e.permanent) {
                    e.active = false;
                } else {
                    e.pending = e.deadline <= now;
                    if !e.pending {
                        min_next_some = true;
                        proof {
                            wit = i as int;
                        }
                        if e.deadline < min_next {
                            min_next = e.deadline;
                            proof {
                                wit2 = i as int;
                            }
                        }
                    }
                }
            }
            self.entries.set(i, e);
            i = i + 1;
        }
        proof {
            if min_next_some {
                assert(waits(old_entries[wit], now));
            }
            if min_next != now + MAX_WAIT {
                assert(waits(old_entries[wit2], now));
            }
        }
        if min_next_some {
            Some(min_next)
        } else {
            None
        }
    }

    /// Calls the pending handlers: each is marked executed and leaves the list. Returns the
    /// handlers to call, in registration order.
    pub fn notify(&mut self) -> (r: Vec<usize>)
        ensures
            final(self).spec_entries().len() == old(self).spec_entries().len(),
            forall|i: int|
                0 <= i < old(self).spec_entries().len() ==> #[trigger] final(self).spec_entries()[i] == notified(
                    old(self).spec_entries()[i],
                ),
            r@ == pending_ids(old(self).spec_entries(), old(self).spec_entries().len() as int),
    {
        let ghost old_entries = self.entries@;
        let mut called: Vec<usize> = Vec::new();
        let mut i: usize = 0;
        while i < self.entries.len()
            invariant
                self.entries@.len() == old_entries.len(),
                i <= old_entries.len(),
                forall|k: int| i <= k < old_entries.len() ==> #[trigger] self.entries@[k] == old_entries[k],
                forall|k: int| 0 <= k < i ==> #[trigger] self.entries@[k] == notified(old_entries[k]),
                called@ == pending_ids(old_entries, i as int),
            decreases old_entries.len() - i,
        {
            let e = self.entries[i];
            if e.active && e.pending {
                called.push(i);
                self.entries.set(i, DeadlineEntry { executed: true, active: false, ..e });
            }
            i = i + 1;
        }
        called
    }
}

/// An entry after a timers update at `now`: a dropped handler leaves the list; a waiting
/// one is pending when its deadline is reached.
pub open spec fn updated(e: DeadlineEntry, now: u64) -> DeadlineEntry {
    if !e.active {
        e
    } else if e.is_dropped() {
        DeadlineEntry { active: false, ..e }
    } else {
        DeadlineEntry { pending: e.deadline <= now, ..e }
    }
}

/// An entry after the pending handlers are called: a pending handler runs and leaves the list.
pub open spec fn notified(e: DeadlineEntry) -> DeadlineEntry {
    if e.active && e.pending {
        DeadlineEntry { executed: true, active: false, ..e }
    } else {
        e
    }
}

/// A canceled handler never runs, whatever the updates.
pub proof fn law_canceled_never_runs(e: DeadlineEntry, now: u64)
    requires
        e.force_drop,
        !e.executed,
        e.active ==> !e.pending,
    ensures
        !notified(updated(e, now)).executed,
        !updated(e, now).active || !updated(e, now).pending,
{
}

/// An entry after a timers update and notification at each of the times `nows`, in turn.
pub open spec fn after_updates(e: DeadlineEntry, nows: Seq<u64>) -> DeadlineEntry
    decreases nows.len(),
{
    if nows.len() == 0 {
        e
    } else {
        notified(updated(after_updates(e, nows.drop_last()), nows.last()))
    }
}

/// A canceled handler that has not run never runs in any later update, whatever their times,
/// even after its deadline is reached; it stays canceled.
pub proof fn law_canceled_never_runs_later(e: DeadlineEntry, nows: Seq<u64>)
    requires
        e.force_drop,
        !e.executed,
        e.active ==> !e.pending,
    ensures
        !after_updates(e, nows).executed,
        after_updates(e, nows).force_drop,
        after_updates(e, nows).active ==> !after_updates(e, nows).pending,
    decreases nows.len(),
{
    if nows.len() > 0 {
        law_canceled_never_runs_later(e, nows.drop_last());
    }
}

/// A handler runs once: after it ran it is out of the list, and later updates and
/// notifications do not run it again.
pub proof fn law_runs_once(e: DeadlineEntry, now: u64)
    requires
        e.active,
        e.pending,
    ensures
        notified(e).executed,
        !notified(e).active,
        notified(updated(notified(e), now)) == notified(e),
{
}

/// A handler whose handle was made permanent runs when its deadline is reached, though no
/// handle is left.
pub proof fn law_permanent_runs_at_deadline(e: DeadlineEntry, now: u64)
    requires
        e.active,
        e.permanent,
        !e.force_drop,
        e.deadline <= now,
    ensures
        notified(updated(e, now)).executed,
{
}

/// A handler does not run before its deadline.
pub proof fn law_not_before_deadline(e: DeadlineEntry, now: u64)
    requires
        !e.executed,
        now < e.deadline,
        e.active ==> !e.pending,
    ensures
        !notified(updated(e, now)).executed,
{
}

/// Indexes of the entries before `n` that are active and pending, in order.
pub open spec fn pending_ids(entries: Seq<DeadlineEntry>, n: int) -> Seq<usize>
    decreases n,
{
    if n <= 0 {
        Seq::empty()
    } else if entries[n - 1].active && entries[n - 1].pending {
        pending_ids(entries, n - 1).push((n - 1) as usize)
    } else {
        pending_ids(entries, n - 1)
    }
}

/// The handler waits for its deadline: active, not dropped, and the deadline is after `now`.
pub open spec fn waits(e: DeadlineEntry, now: u64) -> bool {
    e.active && !e.is_dropped() && !(e.deadline <= now)
}

impl DeadlineHandle {
    pub closed spec fn spec_id(self) -> int {
        self.id as int
    }

    pub closed spec fn spec_deadline(self) -> u64 {
        self.deadline
    }

    /// Not connected to a timer.
    pub closed spec fn spec_dummy(self) -> bool {
        self.dummy
    }

    /// The handle refers to an entry of `timers`.
    pub open spec fn valid_in(self, timers: Timers) -> bool {
        !self.spec_dummy() ==> 0 <= self.spec_id() < timers.spec_entries().len()
    }

    /// A handle to nothing, always in the canceled state.
    pub fn dummy() -> (r: DeadlineHandle)
        ensures
            r.spec_dummy(),
            r.spec_deadline() == 0,
    {
        DeadlineHandle { id: 0, deadline: 0, dummy: true }
    }

    /// Another handle to the same timer: it shares the timer's state, so a cancel or a
    /// permanent drop through either is seen through both; the timer has one more live handle.
    pub fn clone_handle(&self, timers: &mut Timers) -> (r: DeadlineHandle)
        requires
            self.valid_in(*old(timers)),
            !self.spec_dummy() ==> old(timers).spec_entries()[self.spec_id()].handles < usize::MAX,
        ensures
            r.spec_id() == self.spec_id(),
            r.spec_deadline() == self.spec_deadline(),
            r.spec_dummy() == self.spec_dummy(),
            self.spec_dummy() ==> final(timers).spec_entries() == old(timers).spec_entries(),
            !self.spec_dummy() ==> final(timers).spec_entries() == old(timers).spec_entries().update(
                self.spec_id(),
                DeadlineEntry {
                    handles: (old(timers).spec_entries()[self.spec_id()].handles + 1) as usize,
                    ..old(timers).spec_entries()[self.spec_id()]
                },
            ),
    {
        if !self.dummy {
            let e = timers.entries[self.id];
            timers.entries.set(self.id, DeadlineEntry { handles: e.handles + 1, ..e });
        }
        DeadlineHandle { id: self.id, deadline: self.deadline, dummy: self.dummy }
    }

    /// Drops the handle without canceling the timer: the handler is kept until it runs.
    pub fn permanent(self, timers: &mut Timers)
        requires
            self.valid_in(*old(timers)),
            !self.spec_dummy() ==> old(timers).spec_entries()[self.spec_id()].handles > 0,
        ensures
            self.spec_dummy() ==> final(timers).spec_entries() == old(timers).spec_entries(),
            !self.spec_dummy() ==> final(timers).spec_entries() == old(timers).spec_entries().update(
                self.spec_id(),
                DeadlineEntry {
                    permanent: true,
                    handles: (old(timers).spec_entries()[self.spec_id()].handles - 1) as usize,
                    ..old(timers).spec_entries()[self.spec_id()]
                },
            ),
    {
        if !self.dummy {
            let e = timers.entries[self.id];
            timers.entries.set(self.id, DeadlineEntry { permanent: true, handles: e.handles - 1, ..e });
        }
    }

    /// If a handle of this timer was made permanent.
    pub fn is_permanent(&self, timers: &Timers) -> (r: bool)
        requires
            self.valid_in(*timers),
        ensures
            r == (!self.spec_dummy() && timers.spec_entries()[self.spec_id()].permanent),
    {
        if self.dummy {
            false
        } else {
            timers.entries[self.id].permanent
        }
    }

    /// Drops the handle and forces the handler to drop: it will not run.
    pub fn cancel(self, timers: &mut Timers)
        requires
            self.valid_in(*old(timers)),
            !self.spec_dummy() ==> old(timers).spec_entries()[self.spec_id()].handles > 0,
        ensures
            self.spec_dummy() ==> final(timers).spec_entries() == old(timers).spec_entries(),
            !self.spec_dummy() ==> final(timers).spec_entries() == old(timers).spec_entries().update(
                self.spec_id(),
                DeadlineEntry {
                    force_drop: true,
                    handles: (old(timers).spec_entries()[self.spec_id()].handles - 1) as usize,
                    ..old(timers).spec_entries()[self.spec_id()]
                },
            ),
    {
        if !self.dummy {
            let e = timers.entries[self.id];
            timers.entries.set(self.id, DeadlineEntry { force_drop: true, handles: e.handles - 1, ..e });
        }
    }

    /// Drops the handle; the handler is canceled when no handle is left, unless one was made
    /// permanent.
    pub fn release(self, timers: &mut Timers)
        requires
            self.valid_in(*old(timers)),
            !self.spec_dummy() ==> old(timers).spec_entries()[self.spec_id()].handles > 0,
        ensures
            self.spec_dummy() ==> final(timers).spec_entries() == old(timers).spec_entries(),
            !self.spec_dummy() ==> final(timers).spec_entries() == old(timers).spec_entries().update(
                self.spec_id(),
                DeadlineEntry {
                    handles: (old(timers).spec_entries()[self.spec_id()].handles - 1) as usize,
                    ..old(timers).spec_entries()[self.spec_id()]
                },
            ),
    {
        if !self.dummy {
            let e = timers.entries[self.id];
            timers.entries.set(self.id, DeadlineEntry { handles: e.handles - 1, ..e });
        }
    }

    /// The timer deadline.
    pub fn deadline(&self) -> (r: u64)
        ensures
            r == self.spec_deadline(),
    {
        self.deadline
    }

    /// If the handler has run.
    pub fn has_executed(&self, timers: &Timers) -> (r: bool)
        requires
            self.valid_in(*timers),
        ensures
            r == (!self.spec_dummy() && timers.spec_entries()[self.spec_id()].executed),
    {
        if self.dummy {
            false
        } else {
            timers.entries[self.id].executed
        }
    }

    /// If the handler will never run: dropped before it could run.
    pub fn is_canceled(&self, timers: &Timers) -> (r: bool)
        requires
            self.valid_in(*timers),
        ensures
            r == (self.spec_dummy() || (!timers.spec_entries()[self.spec_id()].executed
                && timers.spec_entries()[self.spec_id()].is_dropped())),
    {
        if self.dummy {
            true
        } else {
            let e = timers.entries[self.id];
            !e.executed && (e.force_drop || (e.handles == 0 && !e.permanent))
        }
    }
}

} // verus!
