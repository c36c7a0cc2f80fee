//! Task bookkeeping: the shared header of a task, the join handle, and the
//! decisions that polling, waking, completing and dropping a task make on
//! its state word.
use vstd::prelude::*;

verus! {

use crate::state::{
    INITIAL_STATE, StateSnapshot, TaskFlags, TransitionToIdle, TransitionToNotified, initial_flags,
    max_ref_count,
};
use crate::thread_id::SPAWN_BLOCKING_THREAD_ID;
use std::cell::Cell;
use std::marker::PhantomData;
use std::rc::Rc;

#[verifier::external_type_specification]
#[verifier::external_body]
#[verifier::reject_recursive_types(T)]
pub struct ExCell<T: ?Sized>(Cell<T>);

/// Reads the word in `cell` (`std::cell::Cell::get`). What it returns
/// depends on earlier writes through any reference to the cell, which the
/// contract does not follow: it promises nothing of the value.
#[verifier::external_body]
fn cell_get(cell: &Cell<usize>) -> (r: usize) {
    cell.get()
}

/// Writes `v` into `cell` (`std::cell::Cell::set`). Nothing about the cell
/// is followed by the contracts, so nothing is promised.
#[verifier::external_body]
fn cell_set(cell: &Cell<usize>, v: usize) {
    cell.set(v)
}

/// Makes a cell holding `v` (`std::cell::Cell::new`).
#[verifier::external_body]
fn cell_new(v: usize) -> (r: Cell<usize>) {
    Cell::new(v)
}

/// A new cell holding the word of `s`, with `s` recorded as the word it
/// was made with.
fn cell_made_with(s: StateSnapshot) -> (r: (Cell<usize>, Ghost<StateSnapshot>))
    ensures
        r.1@ == s,
{
    (cell_new(s.0), Ghost(s))
}

/// The state word of a task, shared by every handle to it.
pub struct State(Cell<usize>, Ghost<StateSnapshot>);

impl State {
    /// The word this state was created with. The word changes afterwards
    /// through every handle; this one does not.
    pub closed spec fn created_with(&self) -> StateSnapshot {
        self.1@
    }

    /// The state of a new task: `INITIAL_STATE` (notified, join interest,
    /// two references).
    pub fn new() -> (r: State)
        ensures
            r.created_with()@ == initial_flags(),
            r.created_with().0 == INITIAL_STATE,
    {
        let (cell, made_with) = cell_made_with(StateSnapshot::initial());
        State(cell, made_with)
    }

    /// A copy of the current word. The word changes through every handle,
    /// so nothing is promised of the copy.
    pub fn load(&self) -> (r: StateSnapshot) {
        StateSnapshot(cell_get(&self.0))
    }

    /// Replaces the word.
    pub fn store(&self, val: StateSnapshot) {
        cell_set(&self.0, val.0)
    }
}

/// The part of a task that every handle reaches.
pub struct Header {
    pub state: State,
    /// The thread that owns the task.
    pub threadId: usize,
}

impl Header {
    /// The header of a new task of thread `threadId`.
    pub fn new(threadId: usize) -> (r: Header)
        ensures
            r.threadId == threadId,
            r.state.created_with()@ == initial_flags(),
            r.state.created_with().0 == INITIAL_STATE,
    {
        Header { state: State::new(), threadId }
    }
}

/// Can be used to wait for a task to finish. Dropping it does not stop the task.
pub struct JoinHandle<T> {
    pub header: Rc<Header>,
    pub _p: PhantomData<T>,
}

impl<T> JoinHandle<T> {
    /// A join handle for the task behind `header`.
    pub fn new(header: Rc<Header>) -> (r: Self)
        ensures
            r.header == header,
    {
        JoinHandle { header, _p: PhantomData }
    }

    /// Whether the task has finished: the `COMPLETE` flag of the state word
    /// as it is now (`StateSnapshot::is_complete` says what that is).
    pub fn is_finished(&self) -> (r: bool) {
        let state = self.header.state.load();
        state.is_complete()
    }
}

/// What polling a task's future led to.
#[derive(PartialEq, Eq, Structural, Clone, Copy, Debug)]
pub enum PollFuture {
    /// The future finished: complete the task.
    Complete,
    /// The task was woken while it ran: put it on the run queue again.
    Notified,
    /// The task waits for a wake.
    Done,
}

/// What completing a task asks for.
#[derive(PartialEq, Eq, Structural, Clone, Copy, Debug)]
pub enum CompleteAction {
    /// Nobody wants the output: drop it.
    DropOutput,
    /// Wake the join handle's stored waker.
    WakeJoinHandle,
    /// The join handle will find the output on its next poll.
    Nothing,
}

/// What a wake asks for.
#[derive(PartialEq, Eq, Structural, Clone, Copy, Debug)]
pub enum WakeAction {
    /// Put the task on this thread's run queue, with a reference of its own.
    Schedule,
    /// Send a waker, holding a reference, to the task's own thread and
    /// unpark that thread.
    SendToOwner,
    /// Nothing to submit. `release` says whether the caller's reference was
    /// given up, and `dealloc` whether that was the last reference.
    Nothing { release: bool, dealloc: bool },
}

/// What the join handle's poll finds.
#[derive(PartialEq, Eq, Structural, Clone, Copy, Debug)]
pub enum ReadOutput {
    /// The task is complete: take the output.
    Ready,
    /// Not yet. `store_waker` says whether the caller's waker replaces the
    /// stored one (it is not stored when the stored one would wake the same task).
    Pending { store_waker: bool },
}

/// Whether a task owned by thread `threadId` lives on another thread than
/// `current`, the thread that runs this code (`None` when it runs outside
/// any runtime). The spawn-blocking thread counts as another thread.
pub fn is_remote_task(threadId: usize, current: Option<usize>) -> (r: bool)
    ensures
        r == (threadId == SPAWN_BLOCKING_THREAD_ID || match current {
            Some(c) => threadId != c,
            None => true,
        }),
{
    if threadId == SPAWN_BLOCKING_THREAD_ID {
        return true;
    }
    match current {
        Some(currentThreadId) => threadId != currentThreadId,
        None => true,
    }
}

/// The decision after a running task's future was polled (the task was made
/// running by `StateSnapshot::transition_to_running` before the poll).
/// `s` is the state as the poll left it: the future may have woken its own
/// task meanwhile. A finished future completes the task; otherwise the task
/// goes idle, and is polled again if it was woken while it ran.
pub fn poll_inner(s: StateSnapshot, future_ready: bool) -> (r: (StateSnapshot, PollFuture))
    requires
        s@.running,
    ensures
        future_ready ==> r.0 == s && r.1 == PollFuture::Complete,
        !future_ready ==> r.0@ == (TaskFlags { running: false, notified: false, ..s@ }),
        !future_ready ==> r.1 == (if s@.notified {
            PollFuture::Notified
        } else {
            PollFuture::Done
        }),
{
    if future_ready {
        return (s, PollFuture::Complete);
    }
    let (idle, res) = s.transition_to_idle();
    match res {
        TransitionToIdle::OkIdle => (idle, PollFuture::Done),
        TransitionToIdle::OkNotified => (idle, PollFuture::Notified),
    }
}

/// What the runtime does after a task was polled.
#[derive(PartialEq, Eq, Structural, Clone, Copy, Debug)]
pub enum PollAction {
    /// Put the task on the run queue again, with a new reference.
    Reschedule,
    /// The task completed; then do what completing asks for.
    Completed(CompleteAction),
    /// Leave the task until it is woken.
    Idle,
}

/// A task was polled (`Harness::poll`): it is rescheduled if it was woken
/// while it ran, completed if its future finished, and left idle otherwise.
pub fn poll(s: StateSnapshot, future_ready: bool) -> (r: (StateSnapshot, PollAction))
    requires
        s@.running,
        !s@.complete,
        s@.ref_count < max_ref_count(),
    ensures
        future_ready ==> r.0@ == (TaskFlags { running: false, complete: true, ..s@ }) && r.1
            == PollAction::Completed(
            if !s@.join_interested {
                CompleteAction::DropOutput
            } else if s@.join_waker {
                CompleteAction::WakeJoinHandle
            } else {
                CompleteAction::Nothing
            },
        ),
        !future_ready && s@.notified ==> r.0@ == (TaskFlags {
            running: false,
            notified: false,
            ref_count: s@.ref_count + 1,
            ..s@
        }) && r.1 == PollAction::Reschedule,
        !future_ready && !s@.notified ==> r.0@ == (TaskFlags {
            running: false,
            notified: false,
            ..s@
        }) && r.1 == PollAction::Idle,
{
    let (next, res) = poll_inner(s, future_ready);
    match res {
        PollFuture::Notified => (next.ref_inc(), PollAction::Reschedule),
        PollFuture::Complete => {
            let (done, action) = complete(next);
            (done, PollAction::Completed(action))
        },
        PollFuture::Done => (next, PollAction::Idle),
    }
}

/// A task whose output was produced elsewhere (`Harness::finish`): it
/// becomes running, then complete.
pub fn finish(s: StateSnapshot) -> (r: (StateSnapshot, CompleteAction))
    requires
        !s@.complete,
    ensures
        r.0@ == (TaskFlags { running: false, complete: true, notified: false, ..s@ }),
        r.1 == (if !s@.join_interested {
            CompleteAction::DropOutput
        } else if s@.join_waker {
            CompleteAction::WakeJoinHandle
        } else {
            CompleteAction::Nothing
        }),
{
    let running = s.transition_to_running();
    complete(running)
}

/// Dropping a join handle: at once if nothing happened to the task yet,
/// else by `drop_join_handle_slow`. Reports whether the output must be
/// dropped and whether the task must be freed.
pub fn drop_join_handle(s: StateSnapshot) -> (r: (StateSnapshot, bool, bool))
    requires
        s@.ref_count >= 1,
    ensures
        !r.1 || s@.complete,
        r.0@.ref_count == s@.ref_count - 1,
        r.2 == (s@.ref_count == 1),
        !r.0@.join_interested || s@.complete,
        r.0@.complete == s@.complete,
        r.0@.running == s@.running,
        r.0@.notified == s@.notified,
        r.0@.join_waker == s@.join_waker,
        s@ == initial_flags() ==> !r.1 && r.0@ == (TaskFlags {
            join_interested: false,
            ref_count: 1,
            ..initial_flags()
        }),
        s@ != initial_flags() ==> r.1 == s@.complete && r.0@.join_interested == (s@.complete
            && s@.join_interested),
{
    match s.drop_join_handle_fast() {
        Ok(next) => (next, false, false),
        Err(()) => drop_join_handle_slow(s),
    }
}

/// Completing a running task whose output has been stored.
pub fn complete(s: StateSnapshot) -> (r: (StateSnapshot, CompleteAction))
    requires
        s@.running,
        !s@.complete,
    ensures
        r.0@ == (TaskFlags { running: false, complete: true, ..s@ }),
        r.1 == (if !s@.join_interested {
            CompleteAction::DropOutput
        } else if s@.join_waker {
            CompleteAction::WakeJoinHandle
        } else {
            CompleteAction::Nothing
        }),
{
    let snapshot = s.transition_to_complete();
    if !snapshot.is_join_interested() {
        (snapshot, CompleteAction::DropOutput)
    } else if snapshot.has_join_waker() {
        (snapshot, CompleteAction::WakeJoinHandle)
    } else {
        (snapshot, CompleteAction::Nothing)
    }
}

/// Giving up one reference; reports whether the task must be freed.
pub fn drop_reference(s: StateSnapshot) -> (r: (StateSnapshot, bool))
    requires
        s@.ref_count >= 1,
    ensures
        r.0@ == (TaskFlags { ref_count: (s@.ref_count - 1) as nat, ..s@ }),
        r.1 == (s@.ref_count == 1),
{
    s.ref_dec()
}

/// A wake from another thread needs nothing more: the task is complete,
/// already notified, or running (then it is marked notified).
pub open spec fn remote_wake_handled(f: TaskFlags) -> bool {
    f.complete || f.notified || f.running
}

/// A wake on the owning thread puts the task on the run queue.
pub open spec fn local_wake_submits(f: TaskFlags) -> bool {
    !f.running && !f.complete && !f.notified
}

/// The flags after a wake from another thread.
pub open spec fn after_remote_wake(f: TaskFlags) -> TaskFlags {
    if f.running && !f.complete {
        TaskFlags { notified: true, ..f }
    } else {
        f
    }
}

/// The flags after a wake on the owning thread.
pub open spec fn after_local_wake(f: TaskFlags) -> TaskFlags {
    if !f.complete {
        TaskFlags { notified: true, ..f }
    } else {
        f
    }
}

/// The same flags with another reference count.
pub open spec fn with_refs(f: TaskFlags, n: nat) -> TaskFlags {
    TaskFlags { ref_count: n, ..f }
}

/// The caller's reference is given up; `dealloc` when it was the last one.
pub open spec fn released(f: TaskFlags) -> WakeAction {
    WakeAction::Nothing { release: true, dealloc: f.ref_count == 1 }
}

/// Nothing is done and the caller keeps its reference.
pub open spec fn kept() -> WakeAction {
    WakeAction::Nothing { release: false, dealloc: false }
}

/// What a wake that consumes the waker's reference does to flags `s`:
/// flags `n` and action `a`.
pub open spec fn woken_by_val(s: TaskFlags, remote: bool, n: TaskFlags, a: WakeAction) -> bool {
    if remote {
        if remote_wake_handled(s) {
            n == with_refs(after_remote_wake(s), (s.ref_count - 1) as nat) && a == released(s)
        } else {
            n == s && a == WakeAction::SendToOwner
        }
    } else {
        if local_wake_submits(s) {
            n == after_local_wake(s) && a == WakeAction::Schedule
        } else {
            n == with_refs(after_local_wake(s), (s.ref_count - 1) as nat) && a == released(s)
        }
    }
}

/// What a wake that keeps the waker's reference does to flags `s`: flags
/// `n` and action `a`.
pub open spec fn woken_by_ref(s: TaskFlags, remote: bool, n: TaskFlags, a: WakeAction) -> bool {
    if remote {
        if remote_wake_handled(s) {
            n == after_remote_wake(s) && a == kept()
        } else {
            n == with_refs(s, s.ref_count + 1) && a == WakeAction::SendToOwner
        }
    } else {
        if local_wake_submits(s) {
            n == with_refs(after_local_wake(s), s.ref_count + 1) && a == WakeAction::Schedule
        } else {
            n == after_local_wake(s) && a == kept()
        }
    }
}

/// A wake that consumes the waker's reference. On the owning thread an idle
/// task is scheduled with that reference; otherwise the reference is given
/// up. From another thread the waker, with its reference, is sent to the
/// owner unless the wake is already taken care of.
pub fn wake_by_val(s: StateSnapshot, remote: bool) -> (r: (StateSnapshot, WakeAction))
    requires
        s@.ref_count >= 1,
    ensures
        woken_by_val(s@, remote, r.0@, r.1),
        remote && !remote_wake_handled(s@) ==> r.0 == s,
        !s@.complete ==> r.0@.notified || r.1 == WakeAction::SendToOwner,
{
    if remote {
        let (next, handled) = s.transition_to_notified_without_submit();
        if handled {
            let (dropped, dealloc) = drop_reference(next);
            return (dropped, WakeAction::Nothing { release: true, dealloc });
        }
        return (next, WakeAction::SendToOwner);
    }
    let (next, res) = s.transition_to_notified();
    match res {
        TransitionToNotified::Submit => (next, WakeAction::Schedule),
        TransitionToNotified::DoNothing => {
            let (dropped, dealloc) = drop_reference(next);
            (dropped, WakeAction::Nothing { release: true, dealloc })
        },
    }
}

/// A wake that keeps the waker's reference: scheduling the task or sending
/// a waker to its owner takes a new reference.
pub fn wake_by_ref(s: StateSnapshot, remote: bool) -> (r: (StateSnapshot, WakeAction))
    requires
        s@.ref_count < max_ref_count(),
    ensures
        woken_by_ref(s@, remote, r.0@, r.1),
        !s@.complete ==> r.0@.notified || r.1 == WakeAction::SendToOwner,
{
    if remote {
        let (next, handled) = s.transition_to_notified_without_submit();
        if handled {
            return (next, WakeAction::Nothing { release: false, dealloc: false });
        }
        return (next.ref_inc(), WakeAction::SendToOwner);
    }
    let (next, res) = s.transition_to_notified();
    match res {
        TransitionToNotified::Submit => (next.ref_inc(), WakeAction::Schedule),
        TransitionToNotified::DoNothing => (next, WakeAction::Nothing { release: false, dealloc: false }),
    }
}

/// The join handle's poll: complete tasks hand over their output; otherwise
/// the caller's waker is stored (after taking back a stored one that would
/// not wake the same task; `will_wake` says whether it would).
pub fn can_read_output(s: StateSnapshot, will_wake: bool) -> (r: (StateSnapshot, ReadOutput))
    requires
        s@.join_interested,
    ensures
        s@.complete ==> r.0 == s && r.1 == ReadOutput::Ready,
        !s@.complete && s@.join_waker && will_wake ==> r.0 == s && r.1 == (ReadOutput::Pending {
            store_waker: false,
        }),
        !s@.complete && !(s@.join_waker && will_wake) ==> r.0@ == (TaskFlags {
            join_waker: true,
            ..s@
        }) && r.1 == (ReadOutput::Pending { store_waker: true }),
{
    if s.is_complete() {
        return (s, ReadOutput::Ready);
    }
    let cleared = if s.has_join_waker() {
        if will_wake {
            return (s, ReadOutput::Pending { store_waker: false });
        }
        match s.unset_waker() {
            Ok(c) => c,
            Err(_) => {
                return (s, ReadOutput::Ready);
            },
        }
    } else {
        s
    };
    match cleared.set_join_waker() {
        Ok(set) => (set, ReadOutput::Pending { store_waker: true }),
        Err(_) => (cleared, ReadOutput::Ready),
    }
}

/// Dropping the join handle when the fast path does not apply: it gives up
/// its interest in the output (dropping the output itself if the task is
/// already complete), then its reference.
pub fn drop_join_handle_slow(s: StateSnapshot) -> (r: (StateSnapshot, bool, bool))
    requires
        s@.ref_count >= 1,
    ensures
        r.1 == s@.complete,
        r.0@ == with_refs(
            (TaskFlags { join_interested: s@.complete && s@.join_interested, ..s@ }),
            (s@.ref_count - 1) as nat,
        ),
        r.2 == (s@.ref_count == 1),
{
    let (after, drop_output) = match s.unset_join_interested() {
        Ok(next) => (next, false),
        Err(same) => (same, true),
    };
    let (released, dealloc) = drop_reference(after);
    (released, drop_output, dealloc)
}

} // verus!
