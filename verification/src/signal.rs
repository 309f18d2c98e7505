//! A single-slot mailbox that keeps the latest value.

use vstd::prelude::*;

verus! {

/// Holds the latest value put into it until somebody takes it out. A new value
/// overwrites one that nobody took.
pub struct Signal<T> {
    slot: Option<T>,
}

impl<T> View for Signal<T> {
    type V = Option<T>;

    closed spec fn view(&self) -> Option<T> {
        self.slot
    }
}

impl<T> Signal<T> {
    /// A signal that holds nothing.
    pub fn new() -> (signal: Signal<T>)
        ensures
            signal@ is None,
    {
        Signal { slot: None }
    }

    /// Put `value` in, over whatever was there.
    pub fn signal(&mut self, value: T)
        ensures
            final(self)@ == Some(value),
    {
        self.slot = Some(value);
    }

    /// Whether a value waits to be taken.
    pub fn signaled(&self) -> (waiting: bool)
        ensures
            waiting == (self@ is Some),
    {
        self.slot.is_some()
    }

    /// Take the value out, if there is one.
    pub fn try_take(&mut self) -> (value: Option<T>)
        ensures
            value == old(self)@,
            final(self)@ is None,
    {
        self.slot.take()
    }

    /// Forget the value, if there is one.
    pub fn reset(&mut self)
        ensures
            final(self)@ is None,
    {
        self.slot = None;
    }
}

} // verus!
