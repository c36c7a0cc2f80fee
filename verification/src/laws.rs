//! Properties that relate several operations of the library.
use vstd::prelude::*;

verus! {

use crate::slab::{after_alloc, after_free, next_slot, page_of, PageState, Slab, COMPACT_INTERVAL};
use crate::ready::{Direction, Ready};
use crate::scheduled_io::{other, releases, ScheduledIo, WakerLink};
use crate::state::{lemma_initial_state, TaskFlags, INITIAL_STATE};
use crate::task::State;
use std::task::Waker;
use crate::task::{WakeAction, woken_by_val, woken_by_ref};

/// After `Slab::insert` of `val`, `Slab::get` of the returned key finds
/// `val`, every other key keeps what it held, and the slab holds one value
/// more.
pub proof fn law_insert_then_get<T>(s0: Slab<T>, s1: Slab<T>, key: usize, val: T)
    requires
        s0.wf(),
        Slab::inserted(s0, s1, key, val),
    ensures
        s1@.dom().contains(key),
        s1@[key] == val,
        forall|k: usize| k != key ==> (#[trigger] s1@.dom().contains(k) == s0@.dom().contains(k)),
        forall|k: usize| k != key && #[trigger] s0@.dom().contains(k) ==> s1@[k] == s0@[k],
        s1@.dom().len() == s0@.dom().len() + 1,
{
    s0.lemma_finite();
}

/// `Slab::remove` of the key that `Slab::insert` returned gives back the
/// stored value and leaves the slab holding what it held before the insert,
/// as many values as before.
pub proof fn law_insert_then_remove<T>(
    s0: Slab<T>,
    s1: Slab<T>,
    s2: Slab<T>,
    key: usize,
    val: T,
    r: Option<T>,
)
    requires
        s0.wf(),
        Slab::inserted(s0, s1, key, val),
        Slab::removed(s1, s2, key, r),
    ensures
        r == Some(val),
        !s2@.dom().contains(key),
        s2@ == s0@,
        s2@.dom().len() == s0@.dom().len(),
{
    assert(s2@ =~= s0@);
}

/// Freed keys are given out again most recent first: after `Slab::remove`
/// takes a value out of the page of the last insertion, the next
/// `Slab::insert` returns that key, unless the removal was one that compacts
/// the slab.
pub proof fn law_removed_key_is_reused<T>(
    s0: Slab<T>,
    s1: Slab<T>,
    s2: Slab<T>,
    key: usize,
    old_val: T,
    k: usize,
    val: T,
)
    requires
        s0.wf(),
        Slab::removed(s0, s1, key, Some(old_val)),
        s1.spec_generation() % COMPACT_INTERVAL != 0,
        s0.spec_current_page() == page_of(key as int),
        Slab::inserted(s1, s2, k, val),
    ensures
        k == key,
        s2@ == s0@.insert(key, val),
{
    assert(s2@ =~= s0@.insert(key, val));
}

/// `Slab::remove` of a key that holds nothing changes neither the values
/// nor, unless the removal is one that compacts, the key that the next
/// `Slab::insert` returns.
pub proof fn law_remove_of_missing_key<T>(s0: Slab<T>, s1: Slab<T>, s2: Slab<T>, key: usize, k: usize, val: T)
    requires
        s0.wf(),
        Slab::removed(s0, s1, key, None),
        s1.spec_generation() % COMPACT_INTERVAL != 0,
        Slab::inserted(s1, s2, k, val),
    ensures
        s1@ == s0@,
        k == s0.spec_next_key(),
{
    assert(s1@ =~= s0@);
}

/// Within a page, the slot freed last is the one allocated next, and freeing
/// a slot then allocating again leaves the page's bookkeeping (values held,
/// used prefix, free list) as it was.
pub proof fn law_page_free_then_allocate(st: PageState, slot: usize)
    requires
        st.allocated,
        st.used >= 1,
    ensures
        next_slot(after_free(st, slot)) == slot,
        after_alloc(after_free(st, slot)) == st,
{
    assert(seq![slot].add(st.free_list).drop_first() =~= st.free_list);
}

/// A wake of a task that is not complete is never lost: the task comes out
/// notified, so that it is polled again (at once if idle, after its current
/// poll if running), or the wake is handed to the task's own thread, which
/// happens only from another thread for an idle task not yet notified.
pub proof fn law_wake_is_never_lost(s: TaskFlags, remote: bool, by_val: bool, n: TaskFlags, a: WakeAction)
    requires
        by_val ==> woken_by_val(s, remote, n, a),
        !by_val ==> woken_by_ref(s, remote, n, a),
    ensures
        !s.complete ==> n.notified || a == WakeAction::SendToOwner,
        a == WakeAction::SendToOwner ==> remote && !s.running && !s.complete && !s.notified
            && n.notified == s.notified,
        remote && s.running && !s.complete ==> n.notified && n.running,
        n.complete == s.complete,
        s.notified ==> n.notified,
{
}

/// Readiness that lets the waiting reader (or writer) go wakes the waker
/// stored for it: the log of woken wakers keeps what it had and gains one
/// or two entries, the reader's first and the writer's last, and that
/// waker is no longer stored.
pub proof fn law_released_waker_is_woken(b: ScheduledIo, a: ScheduledIo, ready: Ready, d: Direction)
    requires
        ScheduledIo::wakers_released(b, a, ready),
        releases(ready, d),
        b.has_waker(d),
    ensures
        a.woken().subrange(0, b.woken().len() as int) == b.woken(),
        a.woken().len() == b.woken().len() + (if releases(ready, other(d)) && b.has_waker(other(d)) {
            2int
        } else {
            1int
        }),
        d == Direction::Read ==> a.woken()[b.woken().len() as int] == b.stored_waker(d)->0,
        d == Direction::Write ==> a.woken().last() == b.stored_waker(d)->0,
        !a.has_waker(d),
{
    let rd = b.released_by(ready, Direction::Read);
    let wr = b.released_by(ready, Direction::Write);
    assert(a.woken() == b.woken() + rd + wr);
    assert(a.woken().subrange(0, b.woken().len() as int) =~= b.woken());
    assert(a.stored_waker(d) is None);
}

/// Readiness that lets neither the reader nor the writer go wakes nothing
/// and leaves the stored wakers where they are.
pub proof fn law_no_release_no_wake(b: ScheduledIo, a: ScheduledIo, ready: Ready)
    requires
        ScheduledIo::wakers_released(b, a, ready),
        !releases(ready, Direction::Read),
        !releases(ready, Direction::Write),
    ensures
        a.woken() == b.woken(),
        a.stored_waker(Direction::Read) == b.stored_waker(Direction::Read),
        a.stored_waker(Direction::Write) == b.stored_waker(Direction::Write),
{
    assert(a.woken() =~= b.woken());
    assert(a.stored_waker(Direction::Read) == b.stored_waker(Direction::Read));
    assert(a.stored_waker(Direction::Write) == b.stored_waker(Direction::Write));
}

/// A task that waits with waker `w` (its waker kept for direction `d`) is
/// the one that readiness in `d` wakes: the waker that the release wakes is
/// one that wakes the task of `w`, a clone of `w` or one that `will_wake`
/// found to wake the same task, whatever waker was stored before.
pub proof fn law_kept_waker_is_the_one_woken(
    b: ScheduledIo,
    m: ScheduledIo,
    a: ScheduledIo,
    w: Waker,
    d: Direction,
    ready: Ready,
)
    requires
        ScheduledIo::waker_kept(b, m, w, d),
        ScheduledIo::wakers_released(m, a, ready),
        releases(ready, d),
    ensures
        m.link(d) == Some(WakerLink::ClonedFrom(w)) || m.link(d) == Some(WakerLink::Checked(w, true)),
        a.woken().len() > m.woken().len(),
        exists|i: int| m.woken().len() <= i < a.woken().len() && #[trigger] a.woken()[i] == m.stored_waker(d)->0,
        !a.has_waker(d),
{
    law_released_waker_is_woken(m, a, ready, d);
    if d == Direction::Read {
        assert(a.woken()[m.woken().len() as int] == m.stored_waker(d)->0);
    } else {
        assert(a.woken()[a.woken().len() - 1] == m.stored_waker(d)->0);
    }
}

/// A new task is created notified (so it is polled once it is queued),
/// neither running nor complete, with join interest (its output is kept
/// for the join handle, not dropped on completion) and two references, one
/// for the task and one for the join handle.
pub proof fn law_new_task_state(st: State)
    requires
        st.created_with().0 == INITIAL_STATE,
    ensures
        st.created_with()@.notified,
        st.created_with()@.join_interested,
        !st.created_with()@.running,
        !st.created_with()@.complete,
        !st.created_with()@.join_waker,
        st.created_with()@.ref_count == 2,
{
    lemma_initial_state();
}

/// A wake never puts a complete task on a run queue nor sends it to its
/// thread, and the task stays complete.
pub proof fn law_complete_task_is_not_woken(
    s: TaskFlags,
    remote: bool,
    by_val: bool,
    n: TaskFlags,
    a: WakeAction,
)
    requires
        s.complete,
        by_val ==> woken_by_val(s, remote, n, a),
        !by_val ==> woken_by_ref(s, remote, n, a),
    ensures
        a is Nothing,
        n.complete,
        n.running == s.running,
{
}

/// A wake that consumes the waker's reference gives up exactly that
/// reference: it moves to the scheduled task or to the waker sent to the
/// task's thread, or it is released.
pub proof fn law_wake_by_val_consumes_one_reference(
    s: TaskFlags,
    remote: bool,
    n: TaskFlags,
    a: WakeAction,
)
    requires
        s.ref_count >= 1,
        woken_by_val(s, remote, n, a),
    ensures
        a is Nothing ==> n.ref_count == s.ref_count - 1 && a == (WakeAction::Nothing {
            release: true,
            dealloc: n.ref_count == 0,
        }),
        !(a is Nothing) ==> n.ref_count == s.ref_count,
{
}

/// A wake that keeps the waker's reference takes a new reference exactly
/// when it hands the task on (to the run queue or to the task's thread).
pub proof fn law_wake_by_ref_reference(s: TaskFlags, remote: bool, n: TaskFlags, a: WakeAction)
    requires
        woken_by_ref(s, remote, n, a),
    ensures
        a is Nothing ==> n.ref_count == s.ref_count && a == (WakeAction::Nothing {
            release: false,
            dealloc: false,
        }),
        !(a is Nothing) ==> n.ref_count == s.ref_count + 1,
{
}

/// Only a task that is neither running, complete nor already notified is
/// submitted by a wake on its own thread, and it comes out notified.
pub proof fn law_local_wake_submits_idle_tasks(
    s: TaskFlags,
    by_val: bool,
    n: TaskFlags,
    a: WakeAction,
)
    requires
        by_val ==> woken_by_val(s, false, n, a),
        !by_val ==> woken_by_ref(s, false, n, a),
    ensures
        (a == WakeAction::Schedule) == (!s.running && !s.complete && !s.notified),
        !s.complete ==> n.notified,
        a != WakeAction::SendToOwner,
{
}

/// A task is never both running and complete: no wake makes it so.
pub proof fn law_wakes_keep_lifecycle_valid(
    s: TaskFlags,
    remote: bool,
    by_val: bool,
    n: TaskFlags,
    a: WakeAction,
)
    requires
        !(s.running && s.complete),
        by_val ==> woken_by_val(s, remote, n, a),
        !by_val ==> woken_by_ref(s, remote, n, a),
    ensures
        !(n.running && n.complete),
        n.running == s.running,
        n.complete == s.complete,
        n.join_interested == s.join_interested,
        n.join_waker == s.join_waker,
{
}

} // verus!
