//! The call stack: a bounded LIFO of return addresses. Its depth stays below
//! the capacity; the interpreter treats any push or pop that would leave that
//! range as a fatal fault and refuses it before calling in.

use vstd::prelude::*;

verus! {

/// A LIFO stack holding at most `S - 1` elements, the topmost last in the
/// view.
pub struct Stack<T, const S: usize> {
    inner: Vec<T>,
}

impl<T, const S: usize> View for Stack<T, S> {
    type V = Seq<T>;

    closed spec fn view(&self) -> Seq<T> {
        self.inner@
    }
}

impl<T, const S: usize> Stack<T, S> {
    /// The depth invariant: the stack never reaches its capacity.
    pub open spec fn wf(&self) -> bool {
        self@.len() < S
    }

    /// An empty stack.
    pub fn new() -> (r: Self)
        requires
            S >= 1,
        ensures
            r@ == Seq::<T>::empty(),
            r.wf(),
    {
        Stack { inner: Vec::new() }
    }

    /// The current depth.
    pub fn len(&self) -> (r: usize)
        ensures
            r == self@.len(),
    {
        self.inner.len()
    }

    /// Push `e` on top; the caller must have checked that room remains.
    pub fn push(&mut self, e: T)
        requires
            old(self)@.len() + 1 < S,
        ensures
            final(self)@ == old(self)@.push(e),
            final(self).wf(),
    {
        self.inner.push(e);
    }

    /// Pop the topmost element; the caller must have checked for emptiness.
    pub fn pop(&mut self) -> (r: T)
        requires
            old(self)@.len() > 0,
        ensures
            final(self)@ == old(self)@.drop_last(),
            r == old(self)@.last(),
            old(self).wf() ==> final(self).wf(),
    {
        let r = self.inner.pop().unwrap();
        proof {
            assert(self@ =~= old(self)@.drop_last());
        }
        r
    }
}

} // verus!
