//! A slot that accepts many values but keeps only the last one.
use vstd::prelude::*;

verus! {

/// The latest value set and not taken yet.
pub struct Latest<T> {
    value: Option<T>,
}

impl<T> View for Latest<T> {
    type V = Option<T>;

    closed spec fn view(&self) -> Option<T> {
        self.value
    }
}

impl<T> Latest<T> {
    /// An empty slot.
    pub fn new() -> (l: Self)
        ensures
            l@ is None,
    {
        Latest { value: None }
    }

    /// Sets the latest value, replacing any value not taken yet.
    pub fn set(&mut self, value: T)
        ensures
            final(self)@ == Some(value),
    {
        self.value = Some(value);
    }

    /// Takes the latest value, leaving the slot empty.
    pub fn take(&mut self) -> (r: Option<T>)
        ensures
            r == old(self)@,
            final(self)@ is None,
    {
        self.value.take()
    }
}

} // verus!
