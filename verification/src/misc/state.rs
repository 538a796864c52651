//! A value paired with a record of whether it may have been changed.

use vstd::prelude::*;

verus! {

/// Wraps a value and remembers whether mutable access to it was handed out
/// since the record was last reset.
pub struct State<T> {
    t: T,
    invalidated: bool,
}

impl<T> State<T> {
    /// The wrapped value.
    pub closed spec fn value(&self) -> T {
        self.t
    }

    /// Whether mutable access was handed out since the last reset.
    pub closed spec fn is_invalidated(&self) -> bool {
        self.invalidated
    }

    /// Wraps `t`; nothing has been changed yet.
    pub fn new(t: T) -> (s: Self)
        ensures
            s.value() == t,
            !s.is_invalidated(),
    {
        Self { t, invalidated: false }
    }

    /// Whether the value may have changed since the last call of
    /// `invalidated_since`.
    pub fn invalidated(&self) -> (r: bool)
        ensures
            r == self.is_invalidated(),
    {
        self.invalidated
    }

    /// Reports whether the value may have changed since the last call, and
    /// resets the record.
    pub fn invalidated_since(&mut self) -> (r: bool)
        ensures
            r == old(self).is_invalidated(),
            !final(self).is_invalidated(),
            final(self).value() == old(self).value(),
    {
        let old_invalidation_status = self.invalidated();
        self.invalidated = false;
        old_invalidation_status
    }

    /// Read access to the value; leaves the record alone.
    pub fn deref(&self) -> (r: &T)
        ensures
            *r == self.value(),
    {
        &self.t
    }

    /// Write access to the value. The record is set whether or not the
    /// caller goes on to change anything.
    pub fn deref_mut(&mut self) -> (r: &mut T)
        ensures
            *r == old(self).value(),
            final(self).value() == *final(r),
            final(self).is_invalidated(),
    {
        self.invalidated = true;
        &mut self.t
    }
}

} // verus!
