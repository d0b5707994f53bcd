//! A memory over a borrowed slice, which cannot grow.
use crate::exec::Fault;
use crate::memory::Memory;
use vstd::prelude::*;

verus! {

/// A memory over a borrowed slice. It cannot grow.
pub struct SliceMemory<'a> {
    data: &'a mut [u8],
}

impl<'a> SliceMemory<'a> {
    /// A memory over `data`.
    pub fn new(data: &'a mut [u8]) -> (r: Self)
        ensures
            r.bytes() == old(data)@,
    {
        SliceMemory { data }
    }

    /// The bytes, for writing.
    pub fn data_mut(&mut self) -> (r: &mut [u8])
        ensures
            r@ == old(self).bytes(),
            final(self).bytes() == final(r)@,
    {
        self.data
    }
}

impl Memory for SliceMemory<'_> {
    closed spec fn bytes(&self) -> Seq<u8> {
        (*self.data)@
    }

    open spec fn growable_to(&self, new_size: nat) -> bool {
        false
    }

    fn data(&self) -> (r: &[u8]) {
        self.data
    }

    fn data_mut(&mut self) -> (r: &mut [u8]) {
        self.data
    }

    fn size(&self) -> (n: usize) {
        self.data.len()
    }

    fn grow(&mut self, _new_size: usize) -> (r: Result<usize, Fault>) {
        Err(Fault::CannotGrowMemory)
    }
}

} // verus!
