//! A range of block numbers that starts at a given number and whose end is raised each time a
//! new finalized height is announced.
use vstd::prelude::*;

verus! {

/// The block numbers `next ..= end` that are still to be produced; empty while `end < next`.
pub struct ExtendableRange {
    next: u64,
    end: Option<u64>,
}

impl View for ExtendableRange {
    type V = (u64, Option<u64>);

    closed spec fn view(&self) -> (u64, Option<u64>) {
        (self.next, self.end)
    }
}

/// Whether the range holds a number to produce.
pub open spec fn range_has_next(r: (u64, Option<u64>)) -> bool {
    match r.1 {
        Some(end) => r.0 <= end && r.0 < u64::MAX,
        None => false,
    }
}

impl ExtendableRange {
    /// A range that starts at `start` and has no end yet.
    pub fn new(start: u64) -> (r: Self)
        ensures
            r@ == (start, None::<u64>),
    {
        ExtendableRange { next: start, end: None }
    }

    /// A new finalized height: the end rises to it where it is higher.
    pub fn extend(&mut self, height: u64)
        ensures
            final(self)@.0 == old(self)@.0,
            final(self)@.1 == match old(self)@.1 {
                Some(end) => Some(if height > end { height } else { end }),
                None => Some(height),
            },
    {
        self.end = match self.end {
            Some(end) => Some(if height > end { height } else { end }),
            None => Some(height),
        };
    }

    /// The next number of the range, if the range holds one.
    pub fn next_block(&mut self) -> (r: Option<u64>)
        ensures
            range_has_next(old(self)@) ==> r == Some(old(self)@.0) && final(self)@ == (
                (old(self)@.0 + 1) as u64,
                old(self)@.1,
            ),
            !range_has_next(old(self)@) ==> r is None && final(self)@ == old(self)@,
    {
        match self.end {
            Some(end) => if self.next <= end && self.next < u64::MAX {
                let n = self.next;
                self.next = self.next + 1;
                Some(n)
            } else {
                None
            },
            None => None,
        }
    }
}

} // verus!
