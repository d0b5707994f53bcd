//! A memory over a vector, which can grow by whole pages up to an optional
//! bound.
use crate::exec::Fault;
use crate::memory::{spec_resized, Memory};
use vstd::prelude::*;

verus! {

/// A memory that owns its bytes and can be resized, by whole pages, up to
/// a bound, if it has one.
pub struct VectorMemory {
    max_bounds: Option<usize>,
    data: Vec<u8>,
}

/// The mathematical content of a [`VectorMemory`].
pub struct VectorMemoryView {
    pub bytes: Seq<u8>,
    pub max_bounds: Option<usize>,
}

impl View for VectorMemory {
    type V = VectorMemoryView;

    closed spec fn view(&self) -> VectorMemoryView {
        VectorMemoryView { bytes: self.data@, max_bounds: self.max_bounds }
    }
}

impl Clone for VectorMemory {
    fn clone(&self) -> (r: Self)
        ensures
            r@ == self@,
    {
        let data = self.data.clone();
        assert(data@ =~= self.data@);
        VectorMemory { max_bounds: self.max_bounds, data }
    }
}

impl VectorMemory {

    /// A memory of `min_size` zero bytes.
    pub fn new(min_size: usize, max_bounds: Option<usize>) -> (r: Self)
        ensures
            r@ == (VectorMemoryView {
                bytes: Seq::new(min_size as nat, |i: int| 0u8),
                max_bounds,
            }),
    {
        let mut data: Vec<u8> = Vec::new();
        data.resize(min_size, 0);
        assert(data@ =~= Seq::new(min_size as nat, |i: int| 0u8));
        VectorMemory { max_bounds, data }
    }
}

/// `bytes` with `payload` at `offset`.
pub open spec fn spec_copied(bytes: Seq<u8>, offset: int, payload: Seq<u8>) -> Seq<u8> {
    Seq::new(
        bytes.len(),
        |k: int|
            if offset <= k < offset + payload.len() {
                payload[k - offset]
            } else {
                bytes[k]
            },
    )
}

impl VectorMemory {
    /// Copies `payload` into the memory at `offset`, where it fits.
    pub fn copy_from(&mut self, offset: usize, payload: &[u8]) -> (r: Result<(), Fault>)
        ensures
            if offset + payload@.len() <= old(self)@.bytes.len() {
                r == Ok::<(), Fault>(()) && final(self)@ == (VectorMemoryView {
                    bytes: spec_copied(old(self)@.bytes, offset as int, payload@),
                    ..old(self)@
                })
            } else {
                r == Err::<(), Fault>(Fault::MemoryOutOfBounds) && final(self)@ == old(self)@
            },
    {
        if offset > self.data.len() || self.data.len() - offset < payload.len() {
            return Err(Fault::MemoryOutOfBounds);
        }
        let mut k: usize = 0;
        assert(self.data@ =~= spec_copied(old(self).data@, offset as int, payload@.subrange(0, 0)));
        while k < payload.len()
            invariant
                k <= payload.len(),
                offset + payload.len() <= self.data.len(),
                self.data.len() == old(self).data.len(),
                self.max_bounds == old(self).max_bounds,
                self.data@ == spec_copied(
                    old(self).data@,
                    offset as int,
                    payload@.subrange(0, k as int),
                ),
            decreases payload.len() - k,
        {
            self.data.set(offset + k, payload[k]);
            k = k + 1;
            assert(self.data@ =~= spec_copied(
                old(self).data@,
                offset as int,
                payload@.subrange(0, k as int),
            ));
        }
        assert(payload@.subrange(0, payload.len() as int) =~= payload@);
        Ok(())
    }

    /// The bytes, for writing. Their number stays: a memory is resized by
    /// `grow` alone.
    pub fn data_mut(&mut self) -> (r: &mut [u8])
        ensures
            r@ == old(self)@.bytes,
            final(self)@ == (VectorMemoryView { bytes: final(r)@, ..old(self)@ }),
    {
        self.data.as_mut_slice()
    }
}

impl Memory for VectorMemory {
    open spec fn bytes(&self) -> Seq<u8> {
        self@.bytes
    }

    open spec fn growable_to(&self, new_size: nat) -> bool {
        match self@.max_bounds {
            Some(max) => new_size <= max,
            None => true,
        }
    }

    fn data(&self) -> (r: &[u8]) {
        self.data.as_slice()
    }

    fn data_mut(&mut self) -> (r: &mut [u8]) {
        self.data.as_mut_slice()
    }

    fn size(&self) -> (n: usize) {
        self.data.len()
    }

    fn grow(&mut self, new_size: usize) -> (r: Result<usize, Fault>) {
        if new_size % 65536 != 0 || new_size as u64 > 0x1_0000_0000 {
            return Err(Fault::CannotGrowMemory);
        }
        match self.max_bounds {
            Some(max) => {
                if new_size > max {
                    return Err(Fault::CannotGrowMemory);
                }
            },
            None => {},
        }
        self.data.resize(new_size, 0);
        assert(self.data@ =~= spec_resized(old(self).data@, new_size as nat));
        Ok(self.data.len())
    }
}

} // verus!
