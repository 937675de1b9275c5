//! A stream that ends after its first item.
use vstd::prelude::*;

verus! {

/// What polling a stream gives: an item or the end (`Ready`), nothing yet
/// (`NotReady`), or an error.
pub enum Polled<I> {
    Ready(Option<I>),
    NotReady,
    Failed,
}

/// A stream that passes on the first item of `inner` and then ends. The
/// inner stream is polled by the caller, who hands the outcome to `poll`.
pub struct OnlyFirstStream<T> {
    pub inner: T,
    pub first_taken: bool,
}

impl<T> OnlyFirstStream<T> {
    /// A stream over `inner` that has passed nothing on yet.
    pub fn new(inner: T) -> (s: OnlyFirstStream<T>)
        ensures
            s.inner == inner,
            !s.first_taken,
    {
        OnlyFirstStream { inner, first_taken: false }
    }

    /// What the stream gives when polling `inner` gave `polled`: once an
    /// item or the end has been passed on, the end; otherwise an item or the
    /// end is passed on and marks the stream as taken, and anything else is
    /// passed on as it came.
    pub fn poll<I>(&mut self, polled: Polled<I>) -> (r: Polled<I>)
        ensures
            final(self).inner == old(self).inner,
            old(self).first_taken ==> r == Polled::<I>::Ready(None) && final(self).first_taken,
            !old(self).first_taken ==> r == polled && final(self).first_taken == (polled is Ready),
    {
        if self.first_taken {
            return Polled::Ready(None);
        }
        match polled {
            Polled::Ready(i) => {
                self.first_taken = true;
                Polled::Ready(i)
            },
            other => other,
        }
    }
}

} // verus!
