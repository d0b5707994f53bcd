//! Memories: byte-addressable stores with little-endian typed access.
use crate::exec::Fault;
use crate::module::leb128::{lemma_pow256, pow256, spec_le};
use vstd::prelude::*;

pub mod slice_mem;
pub mod vector_mem;

pub use slice_mem::SliceMemory;
pub use vector_mem::VectorMemory;

verus! {

/// The number that `n` bytes at `offset` spell in little-endian order, or
/// the fault where they do not all lie within `bytes`.
pub open spec fn spec_read(bytes: Seq<u8>, offset: int, n: nat) -> Result<nat, Fault> {
    if offset + n > bytes.len() {
        Err(Fault::MemoryOutOfBounds)
    } else {
        Ok(spec_le(bytes, offset, n))
    }
}

/// `bytes` with the low `n` bytes of `value` at `offset`, in little-endian
/// order.
pub open spec fn spec_written(bytes: Seq<u8>, offset: int, n: nat, value: nat) -> Seq<u8>
    decreases n,
{
    if n == 0 {
        bytes
    } else {
        spec_written(
            bytes.update(offset, (value % 256) as u8),
            offset + 1,
            (n - 1) as nat,
            value / 256,
        )
    }
}

/// `bytes` cut to `new_size`, or filled up to it with zeros.
pub open spec fn spec_resized(bytes: Seq<u8>, new_size: nat) -> Seq<u8> {
    Seq::new(
        new_size,
        |i: int|
            if i < bytes.len() {
                bytes[i]
            } else {
                0u8
            },
    )
}

/// What a typed read returns: the value, or the fault of an access that
/// does not lie within the memory.
pub open spec fn spec_get<T>(bytes: Seq<u8>, offset: usize, n: nat, r: Result<T, Fault>, value: spec_fn(nat) -> T) -> bool {
    match spec_read(bytes, offset as int, n) {
        Ok(v) => r == Ok::<T, Fault>(value(v)),
        Err(f) => r == Err::<T, Fault>(f),
    }
}

/// What a typed write does: it stores the bytes of the value, or faults
/// and leaves the memory as it was where the access does not lie within
/// the memory.
pub open spec fn spec_set(before: Seq<u8>, after: Seq<u8>, offset: usize, n: nat, value: nat, r: Result<(), Fault>) -> bool {
    if offset + n > before.len() {
        r == Err::<(), Fault>(Fault::MemoryOutOfBounds) && after == before
    } else {
        r == Ok::<(), Fault>(()) && after == spec_written(before, offset as int, n, value)
    }
}

/// Writing leaves the length as it was, and the bytes outside the access.
pub proof fn lemma_written(bytes: Seq<u8>, offset: int, n: nat, value: nat)
    requires
        0 <= offset,
        offset + n <= bytes.len(),
    ensures
        spec_written(bytes, offset, n, value).len() == bytes.len(),
        forall|i: int|
            0 <= i < bytes.len() && !(offset <= i < offset + n) ==> #[trigger] spec_written(
                bytes,
                offset,
                n,
                value,
            )[i] == bytes[i],
    decreases n,
{
    if n > 0 {
        let first = bytes.update(offset, (value % 256) as u8);
        lemma_written(first, offset + 1, (n - 1) as nat, value / 256);
        assert(spec_written(bytes, offset, n, value) == spec_written(
            first,
            offset + 1,
            (n - 1) as nat,
            value / 256,
        ));
        assert forall|i: int|
            0 <= i < bytes.len() && !(offset <= i < offset + n) implies #[trigger] spec_written(
            bytes,
            offset,
            n,
            value,
        )[i] == bytes[i] by {
            assert(spec_written(first, offset + 1, (n - 1) as nat, value / 256)[i] == first[i]);
        }
    }
}

/// What was written is what is read: the value, reduced to `n` bytes.
pub proof fn lemma_read_written(bytes: Seq<u8>, offset: int, n: nat, value: nat)
    requires
        0 <= offset,
        offset + n <= bytes.len(),
    ensures
        spec_le(spec_written(bytes, offset, n, value), offset, n) == value % (pow256(n) as nat),
    decreases n,
{
    reveal_with_fuel(pow256, 2);
    if n > 0 {
        let first = bytes.update(offset, (value % 256) as u8);
        let rest = spec_written(first, offset + 1, (n - 1) as nat, value / 256);
        lemma_read_written(first, offset + 1, (n - 1) as nat, value / 256);
        lemma_written(first, offset + 1, (n - 1) as nat, value / 256);
        lemma_pow256_positive((n - 1) as nat);
        let p = pow256((n - 1) as nat);
        assert(spec_written(bytes, offset, n, value) == rest);
        assert(rest[offset] == first[offset]);
        assert(spec_le(rest, offset, n) == rest[offset] as nat + 256 * spec_le(
            rest,
            offset + 1,
            (n - 1) as nat,
        ));
        vstd::arithmetic::div_mod::lemma_mod_breakdown(value as int, 256, p);
    }
}

/// A power of 256 is positive.
pub proof fn lemma_pow256_positive(n: nat)
    ensures
        pow256(n) > 0,
    decreases n,
{
    if n > 0 {
        lemma_pow256_positive((n - 1) as nat);
    }
}

/// Reads `n` bytes at `offset` in little-endian order, `n` at most 8.
pub fn read_le(data: &[u8], offset: usize, n: usize) -> (r: Result<u64, Fault>)
    requires
        n <= 8,
    ensures
        match spec_read(data@, offset as int, n as nat) {
            Ok(v) => r == Ok::<u64, Fault>(v as u64) && v < pow256(n as nat),
            Err(f) => r == Err::<u64, Fault>(f),
        },
{
    if offset > data.len() || data.len() - offset < n {
        return Err(Fault::MemoryOutOfBounds);
    }
    let mut value: u64 = 0;
    let mut i: usize = n;
    while i > 0
        invariant
            i <= n <= 8,
            offset + n <= data.len(),
            value == spec_le(data@, offset + i, (n - i) as nat),
            value < pow256((n - i) as nat),
        decreases i,
    {
        i = i - 1;
        proof {
            lemma_pow256();
        }
        value = data[offset + i] as u64 + 256 * value;
    }
    proof {
        lemma_pow256();
    }
    Ok(value)
}

/// Writes the low `n` bytes of `value` at `offset` in little-endian order,
/// `n` at most 8.
pub fn write_le(data: &mut [u8], offset: usize, n: usize, value: u64) -> (r: Result<(), Fault>)
    requires
        n <= 8,
    ensures
        spec_set(old(data)@, final(data)@, offset, n as nat, value as nat, r),
{
    if offset > data.len() || data.len() - offset < n {
        return Err(Fault::MemoryOutOfBounds);
    }
    let ghost before = data@;
    let mut rest: u64 = value;
    let mut i: usize = 0;
    while i < n
        invariant
            i <= n <= 8,
            offset + n <= data@.len(),
            offset + n <= usize::MAX,
            data@.len() == before.len(),
            spec_written(before, offset as int, n as nat, value as nat) == spec_written(
                data@,
                offset + i,
                (n - i) as nat,
                rest as nat,
            ),
        decreases n - i,
    {
        data[offset + i] = (rest % 256) as u8;
        rest = rest / 256;
        i = i + 1;
    }
    Ok(())
}

/// Whether `size` bytes are a whole number of pages of 64 KiB, at most
/// 65,536 of them.
pub open spec fn spec_whole_pages(size: nat) -> bool {
    size % 65536 == 0 && size <= 65536 * 65536
}

/// A byte-addressable store with little-endian typed access, which the
/// embedder may supply. Its size changes only in `grow`, which keeps it a
/// whole number of pages.
pub trait Memory {
    /// The bytes of the memory.
    spec fn bytes(&self) -> Seq<u8>;

    /// Whether the bound of the memory admits a size of `new_size` bytes.
    spec fn growable_to(&self, new_size: nat) -> bool;

    fn data(&self) -> (r: &[u8])
        ensures
            r@ == self.bytes(),
    ;

    fn data_mut(&mut self) -> (r: &mut [u8])
        ensures
            r@ == old(self).bytes(),
            final(self).bytes() == final(r)@,
            forall|n: nat| final(self).growable_to(n) == old(self).growable_to(n),
    ;

    fn size(&self) -> (n: usize)
        ensures
            n == self.bytes().len(),
    ;

    /// Resizes the memory to `new_size` bytes, the new ones zero, and
    /// gives the new size. It does so for a whole number of pages that the
    /// bound of the memory admits; for any other size the memory cannot
    /// grow, and stays as it is.
    fn grow(&mut self, new_size: usize) -> (r: Result<usize, Fault>)
        ensures
            forall|n: nat| final(self).growable_to(n) == old(self).growable_to(n),
            old(self).bytes().len() % 65536 == 0 ==> final(self).bytes().len() % 65536 == 0,
            if spec_whole_pages(new_size as nat) && old(self).growable_to(new_size as nat) {
                r == Ok::<usize, Fault>(new_size) && final(self).bytes() == spec_resized(
                    old(self).bytes(),
                    new_size as nat,
                )
            } else {
                r == Err::<usize, Fault>(Fault::CannotGrowMemory) && final(self).bytes() == old(
                    self,
                ).bytes()
            },
    ;

    fn get_u8(&self, offset: usize) -> (r: Result<u8, Fault>)
        ensures
            spec_get(self.bytes(), offset, 1, r, |v: nat| v as u8),
    {
        match read_le(self.data(), offset, 1) {
            Ok(v) => {
                proof {
                    lemma_pow256();
                }
                Ok(v as u8)
            },
            Err(f) => Err(f),
        }
    }

    fn get_u16(&self, offset: usize) -> (r: Result<u16, Fault>)
        ensures
            spec_get(self.bytes(), offset, 2, r, |v: nat| v as u16),
    {
        match read_le(self.data(), offset, 2) {
            Ok(v) => {
                proof {
                    lemma_pow256();
                }
                Ok(v as u16)
            },
            Err(f) => Err(f),
        }
    }

    fn get_i32(&self, offset: usize) -> (r: Result<i32, Fault>)
        ensures
            spec_get(self.bytes(), offset, 4, r, |v: nat| (v as u32) as i32),
    {
        match read_le(self.data(), offset, 4) {
            Ok(v) => {
                proof {
                    lemma_pow256();
                }
                Ok((v as u32) as i32)
            },
            Err(f) => Err(f),
        }
    }

    fn get_i64(&self, offset: usize) -> (r: Result<i64, Fault>)
        ensures
            spec_get(self.bytes(), offset, 8, r, |v: nat| (v as u64) as i64),
    {
        match read_le(self.data(), offset, 8) {
            Ok(v) => Ok(v as i64),
            Err(f) => Err(f),
        }
    }

    fn get_u32(&self, offset: usize) -> (r: Result<u32, Fault>)
        ensures
            spec_get(self.bytes(), offset, 4, r, |v: nat| v as u32),
    {
        match read_le(self.data(), offset, 4) {
            Ok(v) => {
                proof {
                    lemma_pow256();
                }
                Ok(v as u32)
            },
            Err(f) => Err(f),
        }
    }

    fn get_u64(&self, offset: usize) -> (r: Result<u64, Fault>)
        ensures
            spec_get(self.bytes(), offset, 8, r, |v: nat| v as u64),
    {
        read_le(self.data(), offset, 8)
    }

    /// The bit pattern of the `F32` at `offset`.
    fn get_f32(&self, offset: usize) -> (r: Result<u32, Fault>)
        ensures
            spec_get(self.bytes(), offset, 4, r, |v: nat| v as u32),
    {
        self.get_u32(offset)
    }

    /// The bit pattern of the `F64` at `offset`.
    fn get_f64(&self, offset: usize) -> (r: Result<u64, Fault>)
        ensures
            spec_get(self.bytes(), offset, 8, r, |v: nat| v as u64),
    {
        self.get_u64(offset)
    }

    fn set_u8(&mut self, offset: usize, value: u8) -> (r: Result<(), Fault>)
        ensures
            spec_set(old(self).bytes(), final(self).bytes(), offset, 1, value as nat, r),
            forall|n: nat| final(self).growable_to(n) == old(self).growable_to(n),
    {
        write_le(self.data_mut(), offset, 1, value as u64)
    }

    fn set_u16(&mut self, offset: usize, value: u16) -> (r: Result<(), Fault>)
        ensures
            spec_set(old(self).bytes(), final(self).bytes(), offset, 2, value as nat, r),
            forall|n: nat| final(self).growable_to(n) == old(self).growable_to(n),
    {
        write_le(self.data_mut(), offset, 2, value as u64)
    }

    fn set_i32(&mut self, offset: usize, value: i32) -> (r: Result<(), Fault>)
        ensures
            spec_set(old(self).bytes(), final(self).bytes(), offset, 4, (value as u32) as nat, r),
            forall|n: nat| final(self).growable_to(n) == old(self).growable_to(n),
    {
        write_le(self.data_mut(), offset, 4, (value as u32) as u64)
    }

    fn set_i64(&mut self, offset: usize, value: i64) -> (r: Result<(), Fault>)
        ensures
            spec_set(old(self).bytes(), final(self).bytes(), offset, 8, (value as u64) as nat, r),
            forall|n: nat| final(self).growable_to(n) == old(self).growable_to(n),
    {
        write_le(self.data_mut(), offset, 8, value as u64)
    }

    fn set_u32(&mut self, offset: usize, value: u32) -> (r: Result<(), Fault>)
        ensures
            spec_set(old(self).bytes(), final(self).bytes(), offset, 4, value as nat, r),
            forall|n: nat| final(self).growable_to(n) == old(self).growable_to(n),
    {
        write_le(self.data_mut(), offset, 4, value as u64)
    }

    fn set_u64(&mut self, offset: usize, value: u64) -> (r: Result<(), Fault>)
        ensures
            spec_set(old(self).bytes(), final(self).bytes(), offset, 8, value as nat, r),
            forall|n: nat| final(self).growable_to(n) == old(self).growable_to(n),
    {
        write_le(self.data_mut(), offset, 8, value)
    }

    /// Stores the bit pattern of an `F32` at `offset`.
    fn set_f32(&mut self, offset: usize, bits: u32) -> (r: Result<(), Fault>)
        ensures
            spec_set(old(self).bytes(), final(self).bytes(), offset, 4, bits as nat, r),
            forall|n: nat| final(self).growable_to(n) == old(self).growable_to(n),
    {
        self.set_u32(offset, bits)
    }

    /// Stores the bit pattern of an `F64` at `offset`.
    fn set_f64(&mut self, offset: usize, bits: u64) -> (r: Result<(), Fault>)
        ensures
            spec_set(old(self).bytes(), final(self).bytes(), offset, 8, bits as nat, r),
            forall|n: nat| final(self).growable_to(n) == old(self).growable_to(n),
    {
        self.set_u64(offset, bits)
    }
}

} // verus!
