//! The priority mask and the ceiling lock built on it.

use vstd::prelude::*;
use crate::context::Priority;

verus! {

/// The larger of two priority levels.
pub open spec fn higher(a: u8, b: u8) -> u8 {
    if a >= b {
        a
    } else {
        b
    }
}

/// The interrupt controller's priority mask: code of priority `p` may
/// interrupt the running code only while `p` is above the masked level.
pub struct PriorityMask {
    level: u8,
}

impl PriorityMask {
    /// The masked level.
    pub closed spec fn level(&self) -> u8 {
        self.level
    }

    /// Whether code of priority `priority` may interrupt.
    pub open spec fn admits(&self, priority: u8) -> bool {
        priority > self.level()
    }

    /// A mask that lets every priority above zero through.
    pub fn new() -> (m: Self)
        ensures
            m.level() == 0,
    {
        PriorityMask { level: 0 }
    }

    /// Reads the masked level.
    pub fn current(&self) -> (level: u8)
        ensures
            level == self.level(),
    {
        self.level
    }

    /// Masks every priority up to and including `priority`, and returns the
    /// level that was masked before.
    pub fn mask(&mut self, priority: u8) -> (previous: u8)
        ensures
            previous == old(self).level(),
            final(self).level() == priority,
    {
        let previous: u8 = self.level;
        self.level = priority;
        previous
    }

    /// Puts back a level that `mask` returned.
    pub fn unmask_to(&mut self, previous: u8)
        ensures
            final(self).level() == previous,
    {
        self.level = previous;
    }

    /// Tells whether code of priority `priority` may interrupt now.
    pub fn lets_through(&self, priority: u8) -> (yes: bool)
        ensures
            yes == self.admits(priority),
    {
        priority > self.level
    }
}

/// The ceiling lock. Runs `body` on `data` with the mask raised to
/// `ceiling`, or left where it is if it is higher already, then puts the
/// mask back to the level it had on entry and returns what `body`
/// returned. The priority token shows that the caller is a running
/// invocation. `body` is handed the mask, so that it can lock again:
/// however deep the locks nest, each puts back the level it found.
pub fn lock<T, R, F: FnOnce(&mut PriorityMask, &mut T) -> R>(
    mask: &mut PriorityMask,
    token: &Priority,
    ceiling: u8,
    data: &mut T,
    body: F,
) -> (result: R)
    requires
        forall|m: &mut PriorityMask, d: &mut T|
            m.level() == higher(old(mask).level(), ceiling) && *d == *old(data) ==> body.requires(
                (m, d),
            ),
    ensures
        final(mask).level() == old(mask).level(),
        exists|m: &mut PriorityMask, d: &mut T|
            m.level() == higher(old(mask).level(), ceiling) && *d == *old(data) && *final(d) == *final(data)
                && #[trigger] body.ensures((m, d), result),
{
    let saved: u8 = mask.current();
    let raised: u8 = if saved < ceiling { ceiling } else { saved };
    mask.mask(raised);
    let result = body(mask, data);
    mask.unmask_to(saved);
    result
}

} // verus!
