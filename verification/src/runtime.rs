//! The decisions of the loop that drives a runtime in `block_on`: how many
//! queued tasks one round runs before the main future gets its turn, and
//! whether the thread then submits or parks.
use vstd::prelude::*;

verus! {

/// One round of running queued tasks. The first task always runs; after it,
/// as many more as twice the queue length when the round began, so that a
/// task that keeps waking itself cannot starve the I/O.
pub struct DrainRound {
    max_round: usize,
}

impl DrainRound {
    /// How many more tasks may run after the one running now.
    pub closed spec fn spec_max_round(&self) -> nat {
        self.max_round as nat
    }

    /// A round for a queue of `queue_len` tasks.
    pub fn new(queue_len: usize) -> (r: Self)
        requires
            queue_len * 2 <= usize::MAX,
        ensures
            r.spec_max_round() == queue_len * 2,
    {
        DrainRound { max_round: queue_len * 2 }
    }

    /// A task of the round has run: whether the round goes on.
    pub fn after_task(&mut self) -> (r: bool)
        ensures
            r == (old(self).spec_max_round() > 0),
            final(self).spec_max_round() == (if r {
                old(self).spec_max_round() - 1
            } else {
                old(self).spec_max_round() as int
            }),
    {
        if self.max_round == 0 {
            return false;
        }
        self.max_round = self.max_round - 1;
        true
    }
}

/// What the loop does once the main future no longer asks to be polled.
#[derive(PartialEq, Eq, Structural, Clone, Copy, Debug)]
pub enum AfterPolling {
    /// No task is queued: wait for I/O.
    Park,
    /// Tasks are queued: submit pending I/O without waiting and run another round.
    Submit,
}

/// The choice between parking and another round.
pub fn after_polling(queue_len: usize) -> (r: AfterPolling)
    ensures
        r == (if queue_len == 0 {
            AfterPolling::Park
        } else {
            AfterPolling::Submit
        }),
{
    if queue_len == 0 {
        AfterPolling::Park
    } else {
        AfterPolling::Submit
    }
}

/// A round never runs more tasks than its budget plus the first: when a
/// sequence of rounds states each follows from the one before by an
/// `after_task` that let the round go on, the sequence is no longer than
/// the first state's budget.
pub proof fn lemma_round_is_bounded(states: Seq<DrainRound>)
    requires
        states.len() >= 1,
        forall|i: int|
            0 <= i < states.len() - 1 ==> #[trigger] states[i + 1].spec_max_round()
                == states[i].spec_max_round() - 1 && states[i].spec_max_round() > 0,
    ensures
        states.len() - 1 <= states[0].spec_max_round(),
    decreases states.len(),
{
    if states.len() > 1 {
        let rest = states.drop_first();
        assert forall|i: int| 0 <= i < rest.len() - 1 implies #[trigger] rest[i + 1].spec_max_round()
            == rest[i].spec_max_round() - 1 && rest[i].spec_max_round() > 0 by {
            assert(rest[i + 1] == states[i + 2]);
            assert(rest[i] == states[i + 1]);
        }
        lemma_round_is_bounded(rest);
        assert(states[1].spec_max_round() == states[0].spec_max_round() - 1);
    }
}

} // verus!
