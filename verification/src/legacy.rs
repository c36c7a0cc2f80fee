//! The decisions of the poll-based driver: which registered source an event
//! reaches, what a cancel does, and whether an operation may try its system
//! call.
use vstd::prelude::*;

verus! {

use crate::ready::{Direction, Ready, has_flag, READABLE, READ_CLOSED, WRITABLE, WRITE_CLOSED, READ_CANCELED, WRITE_CANCELED, CANCELED, READ_ALL, WRITE_ALL};
use crate::scheduled_io::ScheduledIo;
use crate::slab::Slab;
use std::task::Waker;

/// The poller token of the driver's own waker; events with it reach no source.
pub const TOKEN_WAKEUP: usize = 0x8000_0000;

/// The error code that a canceled operation ends with (`ECANCELED`).
pub const CANCELED_ERROR_CODE: i32 = 125;

/// `after` is what `dispatch` makes of `before` for readiness `ready`: the
/// flags are added, and the readers or writers woken by them are let go.
pub open spec fn dispatched(before: ScheduledIo, after: ScheduledIo, ready: Ready) -> bool {
    &&& after.spec_ready() == Ready(before.spec_ready().0 | ready.0)
    &&& after.has_read_waker() == (before.has_read_waker() && !(has_flag(ready, READABLE)
        || has_flag(ready, READ_CLOSED)))
    &&& after.has_write_waker() == (before.has_write_waker() && !(has_flag(ready, WRITABLE)
        || has_flag(ready, WRITE_CLOSED)))
}

/// `after` differs from `before` at most under `key`.
pub open spec fn same_except(before: Map<usize, ScheduledIo>, after: Map<usize, ScheduledIo>, key: usize) -> bool {
    &&& after.dom() =~= before.dom()
    &&& forall|k: usize| k != key && #[trigger] before.dom().contains(k) ==> after[k] == before[k]
}

/// An event of readiness `ready` for the source under `token`: the flags are
/// added to its readiness and the tasks that they concern are woken. A token
/// that no source holds is ignored.
pub fn dispatch(io_dispatch: &mut Slab<ScheduledIo>, token: usize, ready: Ready)
    requires
        old(io_dispatch).wf(),
    ensures
        final(io_dispatch).wf(),
        final(io_dispatch).spec_generation() == old(io_dispatch).spec_generation(),
        final(io_dispatch).spec_current_page() == old(io_dispatch).spec_current_page(),
        !old(io_dispatch)@.dom().contains(token) ==> final(io_dispatch)@ == old(io_dispatch)@,
        old(io_dispatch)@.dom().contains(token) ==> same_except(
            old(io_dispatch)@,
            final(io_dispatch)@,
            token,
        ) && dispatched(old(io_dispatch)@[token], final(io_dispatch)@[token], ready),
        old(io_dispatch)@.dom().contains(token) ==> ScheduledIo::wakers_released(
            old(io_dispatch)@[token],
            final(io_dispatch)@[token],
            ready,
        ),
{
    let scheduledIo = match io_dispatch.get_mut(token) {
        Some(scheduledIo) => scheduledIo,
        None => {
            return ;
        },
    };
    let add_flags = (|curr: Ready| -> (r: Ready)
        ensures
            r == Ready(curr.0 | ready.0),
        { curr.union(ready) });
    scheduledIo.setReady(add_flags);
    scheduledIo.wake(ready);
}

/// Cancels the operation waiting in `direction` on the source under `index`:
/// an event that carries only the cancel flag of that direction.
pub fn cancel_op(io_dispatch: &mut Slab<ScheduledIo>, index: usize, direction: Direction)
    requires
        old(io_dispatch).wf(),
    ensures
        final(io_dispatch).wf(),
        final(io_dispatch).spec_generation() == old(io_dispatch).spec_generation(),
        !old(io_dispatch)@.dom().contains(index) ==> final(io_dispatch)@ == old(io_dispatch)@,
        old(io_dispatch)@.dom().contains(index) ==> same_except(
            old(io_dispatch)@,
            final(io_dispatch)@,
            index,
        ) && dispatched(
            old(io_dispatch)@[index],
            final(io_dispatch)@[index],
            Ready(
                match direction {
                    Direction::Read => READ_CANCELED,
                    Direction::Write => WRITE_CANCELED,
                },
            ),
        ),
        old(io_dispatch)@.dom().contains(index) ==> ScheduledIo::wakers_released(
            old(io_dispatch)@[index],
            final(io_dispatch)@[index],
            Ready(
                match direction {
                    Direction::Read => READ_CANCELED,
                    Direction::Write => WRITE_CANCELED,
                },
            ),
        ),
{
    let ready = match direction {
        Direction::Read => Ready(READ_CANCELED),
        Direction::Write => Ready(WRITE_CANCELED),
    };
    dispatch(io_dispatch, index, ready);
}

/// What an operation that waits on a source may do now.
#[derive(PartialEq, Eq, Structural, Clone, Copy, Debug)]
pub enum Readiness {
    /// Not ready in its direction: the caller's waker is kept, wait.
    Pending,
    /// The operation was canceled: it ends with `CANCELED_ERROR_CODE`.
    Canceled,
    /// Ready with these flags of its direction: try the system call.
    Ready(Ready),
}

/// The flags of readiness `ready` that concern `direction`.
pub open spec fn in_direction(ready: Ready, direction: Direction) -> Ready {
    Ready(
        (match direction {
            Direction::Read => READ_ALL,
            Direction::Write => WRITE_ALL,
        }) & ready.0,
    )
}

/// The first step of polling an operation that waits on the source under
/// `index` in `direction`. Without readiness in that direction the caller's
/// waker is kept and the operation waits; a cancel ends it, after its cancel
/// flags are cleared; otherwise it may try its system call.
pub fn poll_readiness(
    io_dispatch: &mut Slab<ScheduledIo>,
    index: usize,
    direction: Direction,
    waker: &Waker,
) -> (r: Readiness)
    requires
        old(io_dispatch).wf(),
        old(io_dispatch)@.dom().contains(index),
    ensures
        final(io_dispatch).wf(),
        final(io_dispatch).spec_generation() == old(io_dispatch).spec_generation(),
        same_except(old(io_dispatch)@, final(io_dispatch)@, index),
        ({
            let before = old(io_dispatch)@[index];
            let after = final(io_dispatch)@[index];
            let ready = in_direction(before.spec_ready(), direction);
            if ready.0 == 0 {
                &&& r == Readiness::Pending
                &&& after.spec_ready() == before.spec_ready()
                &&& after.has_waker(direction)
                &&& after.has_waker(crate::scheduled_io::other(direction)) == before.has_waker(
                    crate::scheduled_io::other(direction),
                )
                &&& ScheduledIo::waker_kept(before, after, *waker, direction)
            } else if has_flag(ready, READ_CANCELED) || has_flag(ready, WRITE_CANCELED) {
                &&& r == Readiness::Canceled
                &&& after.spec_ready() == Ready(before.spec_ready().0 & !(ready.0 & CANCELED))
                &&& after.has_read_waker() == before.has_read_waker()
                &&& after.has_write_waker() == before.has_write_waker()
                &&& ScheduledIo::same_wakers(before, after)
            } else {
                &&& r == Readiness::Ready(ready)
                &&& after.spec_ready() == before.spec_ready()
                &&& after.has_read_waker() == before.has_read_waker()
                &&& after.has_write_waker() == before.has_write_waker()
                &&& ScheduledIo::same_wakers(before, after)
            }
        }),
{
    let scheduledIo = match io_dispatch.get_mut(index) {
        Some(scheduledIo) => scheduledIo,
        None => vstd::pervasive::unreached(),
    };
    let ready = match scheduledIo.isReady(waker, direction) {
        Some(ready) => ready,
        None => {
            return Readiness::Pending;
        },
    };
    if ready.is_canceled() {
        scheduledIo.clearReady(ready.intersection(Ready::canceled()));
        return Readiness::Canceled;
    }
    Readiness::Ready(ready)
}

/// The system call of an operation would block: its direction's readiness
/// is cleared and the caller's waker is kept, to wait for the next event.
pub fn on_would_block(
    io_dispatch: &mut Slab<ScheduledIo>,
    index: usize,
    direction: Direction,
    waker: &Waker,
)
    requires
        old(io_dispatch).wf(),
        old(io_dispatch)@.dom().contains(index),
    ensures
        final(io_dispatch).wf(),
        final(io_dispatch).spec_generation() == old(io_dispatch).spec_generation(),
        same_except(old(io_dispatch)@, final(io_dispatch)@, index),
        ({
            let before = old(io_dispatch)@[index];
            let after = final(io_dispatch)@[index];
            &&& after.spec_ready() == Ready(
                before.spec_ready().0 & !(match direction {
                    Direction::Read => READ_ALL,
                    Direction::Write => WRITE_ALL,
                }),
            )
            &&& after.has_waker(direction)
            &&& after.has_waker(crate::scheduled_io::other(direction)) == before.has_waker(
                crate::scheduled_io::other(direction),
            )
            &&& ScheduledIo::waker_kept(before, after, *waker, direction)
        }),
{
    let scheduledIo = match io_dispatch.get_mut(index) {
        Some(scheduledIo) => scheduledIo,
        None => vstd::pervasive::unreached(),
    };
    scheduledIo.clearReady(direction.mask());
    scheduledIo.set_waker(waker, direction);
}

/// The flags that the first `n` events bring to the source under `key`:
/// the union of the readiness of those with its token.
pub open spec fn event_flags(events: Seq<(usize, Ready)>, n: int, key: usize) -> u8
    decreases n,
{
    if n <= 0 {
        0
    } else {
        let prev = event_flags(events, n - 1, key);
        if events[n - 1].0 == key && key != TOKEN_WAKEUP {
            prev | events[n - 1].1.0
        } else {
            prev
        }
    }
}

proof fn lemma_or_assoc(a: u8, b: u8, c: u8)
    by (bit_vector)
    ensures
        (a | b) | c == a | (b | c),
{
}

proof fn lemma_or_flag(a: u8, b: u8, c: u8)
    by (bit_vector)
    ensures
        ((a | b) & c != 0) == ((a & c != 0) || (b & c != 0)),
{
}

/// The events that one poll of the poller returned, in order: each reaches
/// the source under its token, except the driver's own wakeup token.
pub fn dispatch_events(io_dispatch: &mut Slab<ScheduledIo>, events: &Vec<(usize, Ready)>)
    requires
        old(io_dispatch).wf(),
    ensures
        final(io_dispatch).wf(),
        final(io_dispatch).spec_generation() == old(io_dispatch).spec_generation(),
        final(io_dispatch)@.dom() == old(io_dispatch)@.dom(),
        forall|k: usize|
            #[trigger] old(io_dispatch)@.dom().contains(k) ==> dispatched(
                old(io_dispatch)@[k],
                final(io_dispatch)@[k],
                Ready(event_flags(events@, events.len() as int, k)),
            ),
{
    let mut i: usize = 0;
    proof {
        assert forall|k: usize| #[trigger] old(io_dispatch)@.dom().contains(k) implies dispatched(
            old(io_dispatch)@[k],
            io_dispatch@[k],
            Ready(event_flags(events@, 0, k)),
        ) by {
            let x = old(io_dispatch)@[k].spec_ready().0;
            assert(x | 0u8 == x) by (bit_vector);
            assert forall|c: u8| 0u8 & c == 0 by {
                assert(0u8 & c == 0) by (bit_vector);
            }
        }
    }
    while i < events.len()
        invariant
            io_dispatch.wf(),
            i <= events.len(),
            io_dispatch.spec_generation() == old(io_dispatch).spec_generation(),
            io_dispatch@.dom() == old(io_dispatch)@.dom(),
            forall|k: usize|
                #[trigger] old(io_dispatch)@.dom().contains(k) ==> dispatched(
                    old(io_dispatch)@[k],
                    io_dispatch@[k],
                    Ready(event_flags(events@, i as int, k)),
                ),
        decreases events.len() - i,
    {
        let (token, ready) = events[i];
        let ghost before = io_dispatch@;
        if is_source_token(token) {
            dispatch(io_dispatch, token, ready);
        }
        proof {
            assert forall|k: usize| #[trigger] old(io_dispatch)@.dom().contains(k) implies dispatched(
                old(io_dispatch)@[k],
                io_dispatch@[k],
                Ready(event_flags(events@, i + 1, k)),
            ) by {
                let o = old(io_dispatch)@[k];
                let prev = event_flags(events@, i as int, k);
                if k == token && token != TOKEN_WAKEUP {
                    lemma_or_assoc(o.spec_ready().0, prev, ready.0);
                    lemma_or_flag(prev, ready.0, READABLE);
                    lemma_or_flag(prev, ready.0, READ_CLOSED);
                    lemma_or_flag(prev, ready.0, WRITABLE);
                    lemma_or_flag(prev, ready.0, WRITE_CLOSED);
                }
            }
        }
        i = i + 1;
    }
}

/// Whether an event with this token concerns a registered source.
pub fn is_source_token(token: usize) -> (r: bool)
    ensures
        r == (token != TOKEN_WAKEUP),
{
    token != TOKEN_WAKEUP
}

} // verus!
