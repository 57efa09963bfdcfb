use vstd::prelude::*;

verus! {

/// A wait for the ledger to advance by `needed` slots from `start`, polled
/// at most `max_polls` times.
#[derive(Clone, Copy, PartialEq, Eq, Structural, Debug)]
pub struct SlotWait {
    pub start: u64,
    pub needed: u64,
    pub polls: u64,
    pub max_polls: u64,
}

/// What to do after one poll of the current slot.
#[derive(Clone, Copy, PartialEq, Eq, Structural, Debug)]
pub enum PollResult {
    /// The ledger advanced far enough: the wait is over.
    Reached,
    /// Not yet: poll again after the interval.
    Again,
    /// Not yet, and the polls are used up: the wait fails.
    TimedOut,
}

pub open spec fn slot_reached(start: u64, needed: u64, slot: u64) -> bool {
    slot as int >= start as int + needed as int
}

impl SlotWait {
    /// Starts a wait at the slot observed on entry.
    pub fn new(start: u64, needed: u64, max_polls: u64) -> (r: SlotWait)
        ensures
            r == (SlotWait { start, needed, polls: 0, max_polls }),
    {
        SlotWait { start, needed, polls: 0, max_polls }
    }

    /// Takes the slot just polled and says whether the wait is over, goes
    /// on, or has run out of polls.
    pub fn on_slot(&mut self, slot: u64) -> (r: PollResult)
        ensures
            final(self).start == old(self).start,
            final(self).needed == old(self).needed,
            final(self).max_polls == old(self).max_polls,
            slot_reached(old(self).start, old(self).needed, slot) ==> r == PollResult::Reached
                && final(self).polls == old(self).polls,
            !slot_reached(old(self).start, old(self).needed, slot) ==> {
                &&& final(self).polls as int == if old(self).polls == u64::MAX {
                    u64::MAX as int
                } else {
                    old(self).polls + 1
                }
                &&& r == if final(self).polls >= old(self).max_polls {
                    PollResult::TimedOut
                } else {
                    PollResult::Again
                }
            },
    {
        if slot >= self.start && slot - self.start >= self.needed {
            return PollResult::Reached;
        }
        self.polls = self.polls.saturating_add(1);
        if self.polls >= self.max_polls {
            PollResult::TimedOut
        } else {
            PollResult::Again
        }
    }
}

} // verus!
