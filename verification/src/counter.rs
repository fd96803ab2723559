use vstd::prelude::*;
use crate::errors::Error;

verus! {

/// Counter Allocator: holds a single integer that only ever grows, by exactly
/// one per committed creation, and fails distinctly when an increment would
/// exceed the representable range.
pub struct Counter {
    value: u32,
}

impl Counter {
    /// The current value of the counter.
    pub closed spec fn val(self) -> u32 {
        self.value
    }

    pub fn new() -> (c: Counter)
        ensures
            c.val() == 0,
    {
        Counter { value: 0 }
    }

    /// Resumes a counter at a persisted value.
    pub fn starting_at(value: u32) -> (c: Counter)
        ensures
            c.val() == value,
    {
        Counter { value }
    }

    /// Returns the value to assign next without advancing, so a retry before
    /// commit is free of side effects.
    pub fn next(&self) -> (v: u32)
        ensures
            v == self.val(),
    {
        self.value
    }

    /// Increments the stored value by exactly 1; fails with
    /// `ArithmeticOverflow` instead of wrapping at the representable maximum.
    pub fn advance(&mut self) -> (r: Result<(), Error>)
        ensures
            r is Ok <==> old(self).val() < u32::MAX,
            r is Ok ==> final(self).val() == old(self).val() + 1,
            r is Err ==> *final(self) == *old(self) && r == Err::<(), Error>(
                Error::ArithmeticOverflow,
            ),
    {
        if self.value < u32::MAX {
            self.value = self.value + 1;
            Ok(())
        } else {
            Err(Error::ArithmeticOverflow)
        }
    }
}

} // verus!
