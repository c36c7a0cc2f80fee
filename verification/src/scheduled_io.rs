//! Readiness and wakers of one registered I/O source.
use vstd::prelude::*;

verus! {

use crate::ready::{Direction, Ready, WRITABLE, READ_ALL, WRITE_ALL, has_flag};
use std::task::Waker;

#[verifier::external_type_specification]
#[verifier::external_body]
pub struct ExWaker(Waker);

/// Wakes the task behind `waker` (`std::task::Waker::wake`), consuming it.
/// What that does is up to the waker; nothing is promised.
#[verifier::external_body]
fn wake_waker(waker: Waker) {
    waker.wake()
}

/// Whether `a` and `b` would wake the same task (`std::task::Waker::will_wake`).
/// The answer compares the wakers' data pointers and vtables, so nothing is
/// promised of it.
#[verifier::external_body]
fn waker_will_wake(a: &Waker, b: &Waker) -> (r: bool) {
    a.will_wake(b)
}

/// A copy of `waker` (`<Waker as Clone>::clone`), made by the waker's own vtable.
#[verifier::external_body]
fn clone_waker(waker: &Waker) -> (r: Waker) {
    waker.clone()
}

/// Makes `dst` a copy of `src` (`<Waker as Clone>::clone_from`).
#[verifier::external_body]
fn waker_clone_from(dst: &mut Waker, src: &Waker) {
    dst.clone_from(src)
}

/// Wakes `waker` and records it, last, in the log `woken`.
fn wake_logged(woken: &mut Ghost<Seq<Waker>>, waker: Waker)
    ensures
        final(woken)@ == old(woken)@.push(waker),
{
    *woken = Ghost(woken@.push(waker));
    wake_waker(waker);
}

/// Asks `will_wake` whether `existing` wakes the task of `waker`, and
/// records the answer in `link`.
fn check_same_task(existing: &Waker, waker: &Waker, link: &mut Ghost<Option<WakerLink>>) -> (r: bool)
    ensures
        final(link)@ == Some(WakerLink::Checked(*waker, r)),
{
    let same = waker_will_wake(existing, waker);
    *link = Ghost(Some(WakerLink::Checked(*waker, same)));
    same
}

/// Makes `existing` a clone of `waker`, and records that in `link`.
fn clone_into(existing: &mut Waker, waker: &Waker, link: &mut Ghost<Option<WakerLink>>)
    ensures
        final(link)@ == Some(WakerLink::ClonedFrom(*waker)),
{
    waker_clone_from(existing, waker);
    *link = Ghost(Some(WakerLink::ClonedFrom(*waker)));
}

/// A clone of `waker`, recorded in `link`.
fn clone_linked(waker: &Waker, link: &mut Ghost<Option<WakerLink>>) -> (r: Waker)
    ensures
        final(link)@ == Some(WakerLink::ClonedFrom(*waker)),
{
    *link = Ghost(Some(WakerLink::ClonedFrom(*waker)));
    clone_waker(waker)
}

/// How a stored waker is known to wake the task of a caller's waker.
pub enum WakerLink {
    /// The stored waker was cloned from this waker.
    ClonedFrom(Waker),
    /// The stored waker was kept after `Waker::will_wake` against this
    /// waker gave this answer (`true`: it wakes the same task).
    Checked(Waker, bool),
}

/// Readiness of one I/O source, and the tasks that wait to read or write it.
pub struct ScheduledIo {
    ready: Ready,
    /// Waker of the task that waits to read.
    readWaker: Option<Waker>,
    /// Waker of the task that waits to write.
    writeWaker: Option<Waker>,
    /// How the stored read waker came to stand for a caller's waker.
    read_link: Ghost<Option<WakerLink>>,
    /// How the stored write waker came to stand for a caller's waker.
    write_link: Ghost<Option<WakerLink>>,
    /// The wakers handed to `Waker::wake`, oldest first.
    woken: Ghost<Seq<Waker>>,
}

/// Whether readiness `ready` lets the tasks waiting in `direction` go.
pub open spec fn releases(ready: Ready, direction: Direction) -> bool {
    match direction {
        Direction::Read => has_flag(ready, crate::ready::READABLE) || has_flag(ready, crate::ready::READ_CLOSED),
        Direction::Write => has_flag(ready, WRITABLE) || has_flag(ready, crate::ready::WRITE_CLOSED),
    }
}

impl ScheduledIo {
    pub closed spec fn spec_ready(&self) -> Ready {
        self.ready
    }

    /// The waker stored for `direction`, if any.
    pub closed spec fn stored_waker(&self, direction: Direction) -> Option<Waker> {
        match direction {
            Direction::Read => self.readWaker,
            Direction::Write => self.writeWaker,
        }
    }

    /// How the waker stored for `direction` came to stand for a caller's waker.
    pub closed spec fn link(&self, direction: Direction) -> Option<WakerLink> {
        match direction {
            Direction::Read => self.read_link@,
            Direction::Write => self.write_link@,
        }
    }

    /// The wakers woken so far, oldest first.
    pub closed spec fn woken(&self) -> Seq<Waker> {
        self.woken@
    }

    pub open spec fn has_read_waker(&self) -> bool {
        self.stored_waker(Direction::Read) is Some
    }

    pub open spec fn has_write_waker(&self) -> bool {
        self.stored_waker(Direction::Write) is Some
    }

    /// Whether a waker waits in `direction`.
    pub open spec fn has_waker(&self, direction: Direction) -> bool {
        match direction {
            Direction::Read => self.has_read_waker(),
            Direction::Write => self.has_write_waker(),
        }
    }

    /// The waker stored for `direction` wakes the task of `w`: it is a clone
    /// of `w`, or `will_wake` found that it wakes the same task.
    pub open spec fn wakes_task_of(&self, direction: Direction, w: Waker) -> bool {
        &&& self.has_waker(direction)
        &&& (self.link(direction) == Some(WakerLink::ClonedFrom(w)) || self.link(direction)
            == Some(WakerLink::Checked(w, true)))
    }

    /// The stored waker of `direction`, as a sequence of zero or one, if
    /// readiness `ready` lets it go.
    pub open spec fn released_by(&self, ready: Ready, direction: Direction) -> Seq<Waker> {
        if releases(ready, direction) && self.stored_waker(direction) is Some {
            seq![self.stored_waker(direction)->0]
        } else {
            seq![]
        }
    }

    /// The wakers and their bookkeeping are the same in `a` and `b`.
    pub open spec fn same_wakers(a: Self, b: Self) -> bool {
        &&& b.stored_waker(Direction::Read) == a.stored_waker(Direction::Read)
        &&& b.stored_waker(Direction::Write) == a.stored_waker(Direction::Write)
        &&& b.link(Direction::Read) == a.link(Direction::Read)
        &&& b.link(Direction::Write) == a.link(Direction::Write)
        &&& b.woken() == a.woken()
    }

    /// What waking for readiness `ready` does to the wakers: the reader's
    /// waker, then the writer's, are woken if `ready` lets them go, and are
    /// no longer stored; the others stay as they were.
    pub open spec fn wakers_released(before: Self, after: Self, ready: Ready) -> bool {
        &&& after.woken() == before.woken() + before.released_by(ready, Direction::Read)
            + before.released_by(ready, Direction::Write)
        &&& forall|d: Direction|
            #![trigger after.stored_waker(d)]
            if releases(ready, d) {
                after.stored_waker(d) is None && after.link(d) is None
            } else {
                after.stored_waker(d) == before.stored_waker(d) && after.link(d) == before.link(d)
            }
    }

    /// What keeping the caller's waker `w` for `direction` does: the stored
    /// waker of `direction` wakes the task of `w`, nothing is woken, and the
    /// other direction is left as it was.
    pub open spec fn waker_kept(before: Self, after: Self, w: Waker, direction: Direction) -> bool {
        &&& after.wakes_task_of(direction, w)
        &&& after.woken() == before.woken()
        &&& after.stored_waker(other(direction)) == before.stored_waker(other(direction))
        &&& after.link(other(direction)) == before.link(other(direction))
    }

    /// No readiness and no waiting task.
    pub fn new() -> (r: Self)
        ensures
            r.spec_ready() == Ready(0),
            !r.has_read_waker(),
            !r.has_write_waker(),
            r.link(Direction::Read) is None,
            r.link(Direction::Write) is None,
            r.woken() == Seq::<Waker>::empty(),
    {
        ScheduledIo {
            ready: Ready(0),
            readWaker: None,
            writeWaker: None,
            read_link: Ghost(None),
            write_link: Ghost(None),
            woken: Ghost(Seq::empty()),
        }
    }

    /// The current readiness.
    pub fn get_ready(&self) -> (r: Ready)
        ensures
            r == self.spec_ready(),
    {
        self.ready
    }

    pub fn set_writable(&mut self)
        ensures
            final(self).spec_ready() == Ready(old(self).spec_ready().0 | WRITABLE),
            final(self).has_read_waker() == old(self).has_read_waker(),
            final(self).has_write_waker() == old(self).has_write_waker(),
            Self::same_wakers(*old(self), *final(self)),
    {
        self.ready = self.ready.union(Ready(WRITABLE));
    }

    /// Replaces the readiness by what `f` makes of it.
    pub fn setReady<F: Fn(Ready) -> Ready>(&mut self, f: F)
        requires
            f.requires((old(self).spec_ready(),)),
        ensures
            f.ensures((old(self).spec_ready(),), final(self).spec_ready()),
            final(self).has_read_waker() == old(self).has_read_waker(),
            final(self).has_write_waker() == old(self).has_write_waker(),
            Self::same_wakers(*old(self), *final(self)),
    {
        self.ready = f(self.ready);
    }

    /// Wakes the reader if `ready` is readable and the writer if it is
    /// writable; the woken wakers are given up.
    pub fn wake(&mut self, ready: Ready)
        ensures
            final(self).spec_ready() == old(self).spec_ready(),
            final(self).has_read_waker() == (old(self).has_read_waker() && !(has_flag(
                ready,
                crate::ready::READABLE,
            ) || has_flag(ready, crate::ready::READ_CLOSED))),
            final(self).has_write_waker() == (old(self).has_write_waker() && !(has_flag(
                ready,
                crate::ready::WRITABLE,
            ) || has_flag(ready, crate::ready::WRITE_CLOSED))),
            Self::wakers_released(*old(self), *final(self), ready),
    {
        let ghost before = *self;
        let ghost rd = before.released_by(ready, Direction::Read);
        let ghost wr = before.released_by(ready, Direction::Write);
        if ready.is_readable() {
            self.read_link = Ghost(None);
            if let Some(waker) = self.readWaker.take() {
                wake_logged(&mut self.woken, waker);
                assert(self.woken@ =~= before.woken() + rd);
            } else {
                assert(self.woken@ =~= before.woken() + rd);
            }
        } else {
            assert(self.woken@ =~= before.woken() + rd);
        }
        let ghost mid = self.woken@;
        if ready.is_writable() {
            self.write_link = Ghost(None);
            if let Some(waker) = self.writeWaker.take() {
                wake_logged(&mut self.woken, waker);
                assert(self.woken@ =~= mid + wr);
            } else {
                assert(self.woken@ =~= mid + wr);
            }
        } else {
            assert(self.woken@ =~= mid + wr);
        }
        assert forall|d: Direction|
            #![trigger self.stored_waker(d)]
            if releases(ready, d) {
                self.stored_waker(d) is None && self.link(d) is None
            } else {
                self.stored_waker(d) == before.stored_waker(d) && self.link(d) == before.link(d)
            } by {
            match d {
                Direction::Read => {},
                Direction::Write => {},
            }
        }
    }

    /// Removes the flags of `ready` from the readiness.
    pub fn clearReady(&mut self, ready: Ready)
        ensures
            final(self).spec_ready() == Ready(old(self).spec_ready().0 & !ready.0),
            final(self).has_read_waker() == old(self).has_read_waker(),
            final(self).has_write_waker() == old(self).has_write_waker(),
            Self::same_wakers(*old(self), *final(self)),
    {
        self.ready = self.ready.difference(ready);
    }

    /// The readiness in `direction`, if there is any. If there is none, the
    /// waker of the caller is kept for that direction and `None` comes back.
    pub fn isReady(&mut self, waker: &Waker, direction: Direction) -> (r: Option<Ready>)
        ensures
            final(self).spec_ready() == old(self).spec_ready(),
            ({
                let ready = Ready(
                    (match direction {
                        Direction::Read => READ_ALL,
                        Direction::Write => WRITE_ALL,
                    }) & old(self).spec_ready().0,
                );
                if ready.0 != 0 {
                    &&& r == Some(ready)
                    &&& final(self).has_read_waker() == old(self).has_read_waker()
                    &&& final(self).has_write_waker() == old(self).has_write_waker()
                    &&& *final(self) == *old(self)
                } else {
                    &&& r is None
                    &&& final(self).has_waker(direction)
                    &&& final(self).has_waker(other(direction)) == old(self).has_waker(
                        other(direction),
                    )
                    &&& Self::waker_kept(*old(self), *final(self), *waker, direction)
                }
            }),
    {
        let ready = direction.mask().intersection(self.ready);
        if !ready.is_empty() {
            return Some(ready);
        }
        self.set_waker(waker, direction);
        None
    }

    /// Keeps a waker of the caller for `direction`: a copy of `waker`,
    /// unless the stored one would wake the same task.
    pub fn set_waker(&mut self, waker: &Waker, direction: Direction)
        ensures
            final(self).spec_ready() == old(self).spec_ready(),
            final(self).has_waker(direction),
            final(self).has_waker(other(direction)) == old(self).has_waker(other(direction)),
            Self::waker_kept(*old(self), *final(self), *waker, direction),
    {
        match direction {
            Direction::Read => {
                match &mut self.readWaker {
                    Some(existing) => {
                        if !check_same_task(existing, waker, &mut self.read_link) {
                            clone_into(existing, waker, &mut self.read_link);
                        }
                    },
                    None => {
                        self.readWaker = Some(clone_linked(waker, &mut self.read_link));
                    },
                }
            },
            Direction::Write => {
                match &mut self.writeWaker {
                    Some(existing) => {
                        if !check_same_task(existing, waker, &mut self.write_link) {
                            clone_into(existing, waker, &mut self.write_link);
                        }
                    },
                    None => {
                        self.writeWaker = Some(clone_linked(waker, &mut self.write_link));
                    },
                }
            },
        }
    }
}

/// The other direction.
pub open spec fn other(direction: Direction) -> Direction {
    match direction {
        Direction::Read => Direction::Write,
        Direction::Write => Direction::Read,
    }
}

} // verus!
