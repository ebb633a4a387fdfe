//! Message identifiers handed out by an explicitly owned counter.

use vstd::prelude::*;

verus! {

/// A counter that hands out message identifiers in increasing order, each
/// of them once.
#[derive(Clone, Copy, Debug)]
pub struct UidCounter {
    pub next: usize,
}

impl UidCounter {
    /// A counter whose first identifier is 1.
    pub fn new() -> (counter: UidCounter)
        ensures
            counter.next == 1,
    {
        UidCounter { next: 1 }
    }
}

/// Hands out the counter's next identifier and advances the counter by one,
/// so that every identifier is greater than all that were handed out before
/// it. The counter must not have run out: its next identifier is below
/// `usize::MAX`.
pub fn get_uid(counter: &mut UidCounter) -> (uid: usize)
    requires
        old(counter).next < usize::MAX,
    ensures
        uid == old(counter).next,
        final(counter).next == old(counter).next + 1,
{
    let uid: usize = counter.next;
    counter.next = uid + 1;
    uid
}

} // verus!
