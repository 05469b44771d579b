//! The states of a future that may have been resolved from its construction.
use vstd::prelude::*;

verus! {

/// A future that may have been resolved from its construction.
///
/// Polling it hands out a resolved value once, then reports pending; a pending
/// inner future is polled in place until it hands out its value.
pub enum MaybeResolved<T, F> {
    /// The future was resolved from its construction.
    Resolved(T),
    /// The future has been consumed already.
    Empty,
    /// The future is yet to be resolved.
    Pending(F),
}

impl<T, F> MaybeResolved<T, F> {
    /// The first step of a poll: a resolved value is handed out, leaving the
    /// future consumed. Other states are left as they are and give `None`.
    pub fn take_resolved(&mut self) -> (r: Option<T>)
        ensures
            match *old(self) {
                MaybeResolved::Resolved(v) => r == Some(v) && *final(self) is Empty,
                _ => r is None && *final(self) == *old(self),
            },
    {
        if let MaybeResolved::Resolved(_) = self {
            let mut taken = MaybeResolved::Empty;
            core::mem::swap(self, &mut taken);
            match taken {
                MaybeResolved::Resolved(v) => Some(v),
                _ => None,
            }
        } else {
            None
        }
    }

    /// The inner future to poll, if the future is pending.
    pub fn pending_mut(&mut self) -> (r: Option<&mut F>)
        ensures
            match *old(self) {
                MaybeResolved::Pending(f) => r matches Some(g) && *g == f && *final(self) == MaybeResolved::<
                    T,
                    F,
                >::Pending(*final(g)),
                _ => r is None && *final(self) == *old(self),
            },
    {
        match self {
            MaybeResolved::Pending(f) => Some(f),
            _ => None,
        }
    }

    /// The last step of a poll of a pending future: when the inner future gave
    /// its value, the future is consumed and the value handed out; otherwise the
    /// future stays pending.
    pub fn finish_poll(&mut self, inner: Option<T>) -> (r: Option<T>)
        ensures
            r == inner,
            inner is Some ==> *final(self) is Empty,
            inner is None ==> *final(self) == *old(self),
    {
        if inner.is_some() {
            *self = MaybeResolved::Empty;
        }
        inner
    }

    /// Whether the future was consumed already.
    pub fn is_empty(&self) -> (r: bool)
        ensures
            r == (*self is Empty),
    {
        match self {
            MaybeResolved::Empty => true,
            _ => false,
        }
    }
}

} // verus!
