//! The state word of a task: its lifecycle, whether it has been notified,
//! whether a join handle waits on it, and how many references to it exist.
use vstd::prelude::*;

verus! {

/// The task is being polled.
pub const RUNNING: usize = 0b0001;
/// The task has finished and its output is stored.
pub const COMPLETE: usize = 0b0010;
/// The task has been woken and waits to be polled.
pub const NOTIFIED: usize = 0b100;
/// A join handle still wants the output.
pub const JOIN_INTEREST: usize = 0b1000;
/// A waker of the join handle is stored in the task.
pub const JOIN_WAKER: usize = 0b10000;
/// The bits below this shift hold the flags; the bits above, the reference count.
pub const REF_COUNT_SHIFT: usize = 5;
/// One reference.
pub const REF_ONE: usize = 32;
/// A new task: notified, wanted by its join handle, referred to by the task
/// and by the join handle.
pub const INITIAL_STATE: usize = 0b100_1100;

/// What a state word means.
pub struct TaskFlags {
    pub running: bool,
    pub complete: bool,
    pub notified: bool,
    pub join_interested: bool,
    pub join_waker: bool,
    pub ref_count: nat,
}

/// The flags of a new task.
pub open spec fn initial_flags() -> TaskFlags {
    TaskFlags {
        running: false,
        complete: false,
        notified: true,
        join_interested: true,
        join_waker: false,
        ref_count: 2,
    }
}

/// The largest reference count that a state word can hold: the word's bits
/// above the five flags.
pub open spec fn max_ref_count() -> nat {
    ((!0usize) >> REF_COUNT_SHIFT) as nat
}

/// What `transition_to_idle` reports.
#[derive(PartialEq, Eq, Structural, Clone, Copy, Debug)]
pub enum TransitionToIdle {
    /// The task went idle.
    OkIdle,
    /// The task went idle but was woken while it ran: poll it again.
    OkNotified,
}

/// What `transition_to_notified` reports.
#[derive(PartialEq, Eq, Structural, Clone, Copy, Debug)]
pub enum TransitionToNotified {
    /// The task must be put on the run queue.
    Submit,
    /// Nothing more to do.
    DoNothing,
}

proof fn lemma_set_flag(x: usize, b: usize, c: usize)
    by (bit_vector)
    requires
        b == 1 || b == 2 || b == 4 || b == 8 || b == 16,
        c == 1 || c == 2 || c == 4 || c == 8 || c == 16,
    ensures
        (x | b) & b != 0,
        b != c ==> ((x | b) & c != 0) == (x & c != 0),
        (x | b) >> 5usize == x >> 5usize,
{
}

proof fn lemma_clear_flag(x: usize, b: usize, c: usize)
    by (bit_vector)
    requires
        b == 1 || b == 2 || b == 4 || b == 8 || b == 16,
        c == 1 || c == 2 || c == 4 || c == 8 || c == 16,
    ensures
        (x & !b) & b == 0,
        b != c ==> ((x & !b) & c != 0) == (x & c != 0),
        (x & !b) >> 5usize == x >> 5usize,
{
}

proof fn lemma_add_ref(x: usize, c: usize)
    by (bit_vector)
    requires
        c == 1 || c == 2 || c == 4 || c == 8 || c == 16,
        x >> 5usize < (!0usize) >> 5usize,
    ensures
        x + 32 <= !0usize,
        ((x + 32) as usize) >> 5usize == (x >> 5usize) + 1,
        (((x + 32) as usize) & c != 0) == (x & c != 0),
{
}

proof fn lemma_sub_ref(x: usize, c: usize)
    by (bit_vector)
    requires
        c == 1 || c == 2 || c == 4 || c == 8 || c == 16,
        x >> 5usize >= 1,
    ensures
        x >= 32,
        ((x - 32) as usize) >> 5usize == (x >> 5usize) - 1,
        (((x - 32) as usize) & c != 0) == (x & c != 0),
{
}

proof fn lemma_same_bits(x: usize, y: usize)
    by (bit_vector)
    requires
        (x & 1 != 0) == (y & 1 != 0),
        (x & 2 != 0) == (y & 2 != 0),
        (x & 4 != 0) == (y & 4 != 0),
        (x & 8 != 0) == (y & 8 != 0),
        (x & 16 != 0) == (y & 16 != 0),
        x >> 5usize == y >> 5usize,
    ensures
        x == y,
{
}

/// The bits of the word of a new task.
pub proof fn lemma_initial_state()
    by (bit_vector)
    ensures
        76usize & 1 == 0,
        76usize & 2 == 0,
        76usize & 4 != 0,
        76usize & 8 != 0,
        76usize & 16 == 0,
        76usize >> 5usize == 2,
{
}

/// A copy of a task's state word.
#[derive(Clone, Copy, Debug)]
pub struct StateSnapshot(pub usize);

impl StateSnapshot {
    pub open spec fn view(self) -> TaskFlags {
        TaskFlags {
            running: self.0 & RUNNING != 0,
            complete: self.0 & COMPLETE != 0,
            notified: self.0 & NOTIFIED != 0,
            join_interested: self.0 & JOIN_INTEREST != 0,
            join_waker: self.0 & JOIN_WAKER != 0,
            ref_count: (self.0 >> REF_COUNT_SHIFT) as nat,
        }
    }

    /// Two snapshots with the same flags are the same word.
    pub proof fn lemma_view_injective(a: Self, b: Self)
        requires
            a@ == b@,
        ensures
            a == b,
    {
        lemma_same_bits(a.0, b.0);
    }

    /// The snapshot of a new task.
    pub fn initial() -> (r: Self)
        ensures
            r@ == initial_flags(),
            r.0 == INITIAL_STATE,
    {
        proof {
            lemma_initial_state();
        }
        StateSnapshot(INITIAL_STATE)
    }

    pub fn is_running(self) -> (r: bool)
        ensures
            r == self@.running,
    {
        self.0 & RUNNING != 0
    }

    pub fn is_complete(self) -> (r: bool)
        ensures
            r == self@.complete,
    {
        self.0 & COMPLETE != 0
    }

    pub fn is_notified(self) -> (r: bool)
        ensures
            r == self@.notified,
    {
        self.0 & NOTIFIED != 0
    }

    /// Neither running nor complete.
    pub fn is_idle(self) -> (r: bool)
        ensures
            r == (!self@.running && !self@.complete),
    {
        !self.is_running() && !self.is_complete()
    }

    pub fn is_join_interested(self) -> (r: bool)
        ensures
            r == self@.join_interested,
    {
        self.0 & JOIN_INTEREST != 0
    }

    pub fn has_join_waker(self) -> (r: bool)
        ensures
            r == self@.join_waker,
    {
        self.0 & JOIN_WAKER != 0
    }

    pub fn ref_count(self) -> (r: usize)
        ensures
            r == self@.ref_count,
    {
        self.0 >> REF_COUNT_SHIFT
    }

    fn set_flag(self, b: usize) -> (r: Self)
        requires
            b == RUNNING || b == COMPLETE || b == NOTIFIED || b == JOIN_INTEREST || b == JOIN_WAKER,
        ensures
            r.0 == self.0 | b,
            r.0 & b != 0,
            forall|c: usize|
                #![trigger r.0 & c]
                (c == RUNNING || c == COMPLETE || c == NOTIFIED || c == JOIN_INTEREST || c == JOIN_WAKER)
                    && c != b ==> ((r.0 & c != 0) == (self.0 & c != 0)),
            r.0 >> REF_COUNT_SHIFT == self.0 >> REF_COUNT_SHIFT,
    {
        proof {
            assert forall|c: usize|
                (c == RUNNING || c == COMPLETE || c == NOTIFIED || c == JOIN_INTEREST || c == JOIN_WAKER)
                    && c != b implies (((self.0 | b) & c != 0) == (self.0 & c != 0)) by {
                lemma_set_flag(self.0, b, c);
            }
            lemma_set_flag(self.0, b, b);
        }
        StateSnapshot(self.0 | b)
    }

    fn unset_flag(self, b: usize) -> (r: Self)
        requires
            b == RUNNING || b == COMPLETE || b == NOTIFIED || b == JOIN_INTEREST || b == JOIN_WAKER,
        ensures
            r.0 == self.0 & !b,
            r.0 & b == 0,
            forall|c: usize|
                #![trigger r.0 & c]
                (c == RUNNING || c == COMPLETE || c == NOTIFIED || c == JOIN_INTEREST || c == JOIN_WAKER)
                    && c != b ==> ((r.0 & c != 0) == (self.0 & c != 0)),
            r.0 >> REF_COUNT_SHIFT == self.0 >> REF_COUNT_SHIFT,
    {
        proof {
            assert forall|c: usize|
                (c == RUNNING || c == COMPLETE || c == NOTIFIED || c == JOIN_INTEREST || c == JOIN_WAKER)
                    && c != b implies (((self.0 & !b) & c != 0) == (self.0 & c != 0)) by {
                lemma_clear_flag(self.0, b, c);
            }
            lemma_clear_flag(self.0, b, b);
        }
        StateSnapshot(self.0 & !b)
    }

    /// To running (from notified and idle, as the runtime uses it): the
    /// notification is consumed.
    pub fn transition_to_running(self) -> (r: Self)
        ensures
            r@ == (TaskFlags { running: true, notified: false, ..self@ }),
    {
        self.set_flag(RUNNING).unset_flag(NOTIFIED)
    }

    /// Running to idle; reports whether the task was woken while it ran.
    pub fn transition_to_idle(self) -> (r: (Self, TransitionToIdle))
        requires
            self@.running,
        ensures
            r.0@ == (TaskFlags { running: false, notified: false, ..self@ }),
            r.1 == (if self@.notified {
                TransitionToIdle::OkNotified
            } else {
                TransitionToIdle::OkIdle
            }),
    {
        let notified = self.is_notified();
        let next = self.unset_flag(RUNNING).unset_flag(NOTIFIED);
        if notified {
            (next, TransitionToIdle::OkNotified)
        } else {
            (next, TransitionToIdle::OkIdle)
        }
    }

    /// Running to complete.
    pub fn transition_to_complete(self) -> (r: Self)
        requires
            self@.running,
            !self@.complete,
        ensures
            r@ == (TaskFlags { running: false, complete: true, ..self@ }),
    {
        self.unset_flag(RUNNING).set_flag(COMPLETE)
    }

    /// A wake on the task's own thread: an idle task that was not notified
    /// becomes notified and must be submitted; a running task is marked
    /// notified so that it is polled again; otherwise nothing changes.
    pub fn transition_to_notified(self) -> (r: (Self, TransitionToNotified))
        ensures
            r.1 == (if !self@.running && !self@.complete && !self@.notified {
                TransitionToNotified::Submit
            } else {
                TransitionToNotified::DoNothing
            }),
            r.0@ == (if !self@.complete {
                TaskFlags { notified: true, ..self@ }
            } else {
                self@
            }),
    {
        if self.is_complete() {
            (self, TransitionToNotified::DoNothing)
        } else if self.is_running() || self.is_notified() {
            (self.set_flag(NOTIFIED), TransitionToNotified::DoNothing)
        } else {
            (self.set_flag(NOTIFIED), TransitionToNotified::Submit)
        }
    }

    /// A wake from another thread: reports whether the wake is already taken
    /// care of (the task is complete or already notified, or it is running
    /// and is now marked notified). Otherwise the state is left alone and
    /// the wake must be sent to the task's thread.
    pub fn transition_to_notified_without_submit(self) -> (r: (Self, bool))
        ensures
            r.1 == (self@.complete || self@.notified || self@.running),
            !r.1 ==> r.0 == self,
            r.0@ == (if self@.running && !self@.complete {
                TaskFlags { notified: true, ..self@ }
            } else {
                self@
            }),
    {
        if self.is_complete() || self.is_notified() {
            (self, true)
        } else if self.is_running() {
            (self.set_flag(NOTIFIED), true)
        } else {
            (self, false)
        }
    }

    /// One more reference.
    pub fn ref_inc(self) -> (r: Self)
        requires
            self@.ref_count < max_ref_count(),
        ensures
            r@ == (TaskFlags { ref_count: self@.ref_count + 1, ..self@ }),
    {
        proof {
            lemma_add_ref(self.0, RUNNING);
            lemma_add_ref(self.0, COMPLETE);
            lemma_add_ref(self.0, NOTIFIED);
            lemma_add_ref(self.0, JOIN_INTEREST);
            lemma_add_ref(self.0, JOIN_WAKER);
        }
        StateSnapshot(self.0 + REF_ONE)
    }

    /// One reference less; reports whether it was the last one.
    pub fn ref_dec(self) -> (r: (Self, bool))
        requires
            self@.ref_count >= 1,
        ensures
            r.0@ == (TaskFlags { ref_count: (self@.ref_count - 1) as nat, ..self@ }),
            r.1 == (self@.ref_count == 1),
    {
        proof {
            lemma_sub_ref(self.0, RUNNING);
            lemma_sub_ref(self.0, COMPLETE);
            lemma_sub_ref(self.0, NOTIFIED);
            lemma_sub_ref(self.0, JOIN_INTEREST);
            lemma_sub_ref(self.0, JOIN_WAKER);
        }
        let next = StateSnapshot(self.0 - REF_ONE);
        (next, next.ref_count() == 0)
    }

    /// The join handle gives up the output; refused once the task is complete.
    pub fn unset_join_interested(self) -> (r: Result<Self, Self>)
        ensures
            self@.complete ==> r == Err::<Self, Self>(self),
            !self@.complete ==> r is Ok && r->Ok_0@ == (TaskFlags { join_interested: false, ..self@ }),
    {
        if self.is_complete() {
            Err(self)
        } else {
            Ok(self.unset_flag(JOIN_INTEREST))
        }
    }

    /// Records that a join waker is stored; refused once the task is complete.
    pub fn set_join_waker(self) -> (r: Result<Self, Self>)
        requires
            self@.join_interested,
            !self@.join_waker,
        ensures
            self@.complete ==> r == Err::<Self, Self>(self),
            !self@.complete ==> r is Ok && r->Ok_0@ == (TaskFlags { join_waker: true, ..self@ }),
    {
        if self.is_complete() {
            Err(self)
        } else {
            Ok(self.set_flag(JOIN_WAKER))
        }
    }

    /// Takes back the join waker so it can be replaced; refused once the task
    /// is complete.
    pub fn unset_waker(self) -> (r: Result<Self, Self>)
        requires
            self@.join_interested,
            self@.join_waker,
        ensures
            self@.complete ==> r == Err::<Self, Self>(self),
            !self@.complete ==> r is Ok && r->Ok_0@ == (TaskFlags { join_waker: false, ..self@ }),
    {
        if self.is_complete() {
            Err(self)
        } else {
            Ok(self.unset_flag(JOIN_WAKER))
        }
    }

    /// The join handle is dropped before anything happened to the task: it
    /// gives up both its interest and its reference at once.
    pub fn drop_join_handle_fast(self) -> (r: Result<Self, ()>)
        ensures
            self@ == initial_flags() ==> r is Ok && r->Ok_0@ == (TaskFlags {
                join_interested: false,
                ref_count: 1,
                ..initial_flags()
            }),
            self@ != initial_flags() ==> r is Err,
    {
        if self.0 == INITIAL_STATE {
            proof {
                lemma_initial_state();
            }
            let (next, _) = self.unset_flag(JOIN_INTEREST).ref_dec();
            Ok(next)
        } else {
            proof {
                if self@ == initial_flags() {
                    lemma_initial_state();
                    Self::lemma_view_injective(self, StateSnapshot(INITIAL_STATE));
                }
            }
            Err(())
        }
    }
}

} // verus!
