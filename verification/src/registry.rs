//! The shared collection of live child handles.
//!
//! A handle stands here exactly from the moment its process was started
//! until the run drains the registry to wait on it; insertion order is
//! spawn completion order and is the order the handles come back out in.
//! Only `append` and `drain` exist, so no caller can disturb the
//! sequence in between; the embedding that shares the registry across
//! threads guards it with a lock and treats a failed lock as fatal.

use vstd::prelude::*;

verus! {

/// An ordered sequence of child process handles.
pub struct ChildRegistry {
    handles: Vec<usize>,
}

impl View for ChildRegistry {
    type V = Seq<usize>;

    closed spec fn view(&self) -> Seq<usize> {
        self.handles@
    }
}

impl ChildRegistry {
    /// An empty registry: no child has been started yet.
    pub fn new() -> (r: ChildRegistry)
        ensures
            r@ == Seq::<usize>::empty(),
    {
        ChildRegistry { handles: Vec::new() }
    }

    /// Register one freshly started child, after all earlier ones.
    pub fn append(&mut self, handle: usize)
        ensures
            final(self)@ == old(self)@.push(handle),
    {
        self.handles.push(handle);
    }

    /// How many children are currently registered.
    pub fn len(&self) -> (n: usize)
        ensures
            n == self@.len(),
    {
        self.handles.len()
    }

    /// Hand out every registered handle, in insertion order, leaving the
    /// registry empty: each handle is yielded exactly once, to be waited
    /// on by the caller.
    pub fn drain(&mut self) -> (r: Vec<usize>)
        ensures
            r@ == old(self)@,
            final(self)@ == Seq::<usize>::empty(),
    {
        let mut taken: Vec<usize> = Vec::new();
        core::mem::swap(&mut self.handles, &mut taken);
        taken
    }
}

} // verus!
