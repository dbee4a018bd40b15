//! Reaching the page tables of a guest.
use vstd::prelude::*;

verus! {

/// A page-table handler that only reads: it allocates no frames, and it reaches
/// the frames of a table through a callback from physical to virtual addresses.
pub struct PagingHandlerEpt<F>(pub Option<F>);

impl<F> PagingHandlerEpt<F> {
    /// A handler without a callback.
    pub fn new() -> (r: Self)
        ensures
            r.0 is None,
    {
        Self(None)
    }
}

impl<F> PagingHandlerEpt<F> where F: Fn(usize) -> usize {
    /// Sets the callback; one that was set before is replaced.
    pub fn set_callback(&mut self, closure: F)
        ensures
            final(self).0 == Some(closure),
    {
        self.0 = Some(closure)
    }

    /// Never hands out a frame.
    pub fn alloc_frame(&self) -> (r: Option<usize>)
        ensures
            r is None,
    {
        None
    }

    /// Has nothing to take back.
    pub fn dealloc_frame(&self, _paddr: usize) {
    }

    /// The virtual address that the callback gives for `paddr`.
    pub fn phys_to_virt(&self, paddr: usize) -> (vaddr: usize)
        requires
            self.0 is Some,
            call_requires(self.0->0, (paddr,)),
        ensures
            call_ensures(self.0->0, (paddr,), vaddr),
    {
        match &self.0 {
            Some(f) => f(paddr),
            None => paddr,
        }
    }
}

} // verus!
