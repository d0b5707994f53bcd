//! The value stack: a sequence of 64-bit cells.
//!
//! A cell holds one value: an `i32` sign-extended to 64 bits, an `i64`, the
//! bit pattern of an `F32` in the low 32 bits, the bit pattern of an `F64`,
//! or a reference. Cells carry no type; the operation chooses the reading.
use crate::exec::{Fault, Value};
use vstd::prelude::*;

verus! {

/// The cell that holds an `i32`: the value, sign-extended.
pub open spec fn spec_cell_i32(v: i32) -> u64 {
    (v as i64) as u64
}

/// The `i32` that a cell holds: its low 32 bits.
pub open spec fn spec_i32_of(c: u64) -> i32 {
    (c as u32) as i32
}

/// The cell that holds a reference: the index, or 2^32 - 1 for null.
pub open spec fn spec_cell_ref(v: Option<u32>) -> u64 {
    match v {
        Some(i) => i as u64,
        None => 0xffff_ffff,
    }
}

/// The reference that a cell holds: null for 2^32 - 1, else its low 32
/// bits as the index.
pub open spec fn spec_ref_of(c: u64) -> Option<u32> {
    if c == 0xffff_ffff {
        None
    } else {
        Some(c as u32)
    }
}

/// The cell that holds an `i32`.
#[verifier::when_used_as_spec(spec_cell_i32)]
pub fn cell_i32(v: i32) -> (c: u64)
    ensures
        c == spec_cell_i32(v),
{
    (v as i64) as u64
}

/// The `i32` that a cell holds.
#[verifier::when_used_as_spec(spec_i32_of)]
pub fn i32_of(c: u64) -> (v: i32)
    ensures
        v == spec_i32_of(c),
{
    (c as u32) as i32
}

/// The cell that holds a reference.
#[verifier::when_used_as_spec(spec_cell_ref)]
pub fn cell_ref(v: Option<u32>) -> (c: u64)
    ensures
        c == spec_cell_ref(v),
{
    match v {
        Some(i) => i as u64,
        None => 0xffff_ffff,
    }
}

/// The reference that a cell holds.
#[verifier::when_used_as_spec(spec_ref_of)]
pub fn ref_of(c: u64) -> (v: Option<u32>)
    ensures
        v == spec_ref_of(c),
{
    if c == 0xffff_ffff {
        None
    } else {
        Some(c as u32)
    }
}

/// A cell that holds an `i32` gives it back, and so does one that holds a
/// reference other than the index 2^32 - 1, which reads as null.
pub proof fn lemma_cell_round_trip(v: i32, r: Option<u32>)
    ensures
        spec_i32_of(spec_cell_i32(v)) == v,
        r != Some(0xffff_ffffu32) ==> spec_ref_of(spec_cell_ref(r)) == r,
        spec_ref_of(spec_cell_ref(Some(0xffff_ffffu32))) == None::<u32>,
{
    assert((((v as i64) as u64) as u32) as i32 == v) by (bit_vector);
    match r {
        Some(i) => {
            assert((i as u64) as u32 == i) by (bit_vector);
            assert(i != 0xffff_ffffu32 ==> (i as u64) != 0xffff_ffffu64) by (bit_vector);
        },
        None => {},
    }
}

/// The top of a stack, or the fault of an empty one.
pub open spec fn spec_top(s: Seq<u64>) -> Result<u64, Fault> {
    if s.len() > 0 {
        Ok(s.last())
    } else {
        Err(Fault::StackUnderflow)
    }
}

/// Entries in the stack are raw cells, read as the appropriate type when
/// popped.
#[derive(Debug)]
pub struct Stack {
    data: Vec<u64>,
}

impl View for Stack {
    type V = Seq<u64>;

    closed spec fn view(&self) -> Seq<u64> {
        self.data@
    }
}

impl Default for Stack {
    fn default() -> (r: Self)
        ensures
            r@ == Seq::<u64>::empty(),
    {
        Self::new()
    }
}

impl Stack {
    /// An empty stack.
    pub fn new() -> (r: Self)
        ensures
            r@ == Seq::<u64>::empty(),
    {
        Stack { data: Vec::new() }
    }

    /// The number of cells.
    pub fn width(&self) -> (w: usize)
        ensures
            w == self@.len(),
    {
        self.data.len()
    }

    /// Drops the cells above `width`, if there are any.
    pub fn shrink_to(&mut self, width: usize)
        ensures
            final(self)@ == if width <= old(self)@.len() {
                old(self)@.subrange(0, width as int)
            } else {
                old(self)@
            },
    {
        self.data.truncate(width);
    }

    /// Pushes an `i32`, sign-extended.
    pub fn push_i32(&mut self, value: i32)
        ensures
            final(self)@ == old(self)@.push(spec_cell_i32(value)),
    {
        self.data.push(cell_i32(value));
    }

    /// Pushes an `i64`.
    pub fn push_i64(&mut self, value: i64)
        ensures
            final(self)@ == old(self)@.push(value as u64),
    {
        self.data.push(value as u64);
    }

    /// Pushes a `u32`, zero-extended.
    pub fn push_u32(&mut self, value: u32)
        ensures
            final(self)@ == old(self)@.push(value as u64),
    {
        self.data.push(value as u64);
    }

    /// Pushes a cell.
    pub fn push_u64(&mut self, value: u64)
        ensures
            final(self)@ == old(self)@.push(value),
    {
        self.data.push(value);
    }

    /// Pushes the bit pattern of an `F32`.
    pub fn push_f32(&mut self, bits: u32)
        ensures
            final(self)@ == old(self)@.push(bits as u64),
    {
        self.data.push(bits as u64);
    }

    /// Pushes the bit pattern of an `F64`.
    pub fn push_f64(&mut self, bits: u64)
        ensures
            final(self)@ == old(self)@.push(bits),
    {
        self.data.push(bits);
    }

    /// The cell on top.
    pub fn top_u64(&self) -> (r: Result<u64, Fault>)
        ensures
            r == spec_top(self@),
    {
        if self.data.len() == 0 {
            Err(Fault::StackUnderflow)
        } else {
            Ok(self.data[self.data.len() - 1])
        }
    }

    /// Pops a cell.
    pub fn pop_u64(&mut self) -> (r: Result<u64, Fault>)
        ensures
            r == spec_top(old(self)@),
            final(self)@ == if old(self)@.len() > 0 {
                old(self)@.drop_last()
            } else {
                old(self)@
            },
    {
        match self.data.pop() {
            Some(v) => Ok(v),
            None => Err(Fault::StackUnderflow),
        }
    }

    /// The `i32` on top.
    pub fn top_i32(&self) -> (r: Result<i32, Fault>)
        ensures
            r == match spec_top(self@) {
                Ok(c) => Ok::<i32, Fault>(spec_i32_of(c)),
                Err(f) => Err::<i32, Fault>(f),
            },
    {
        match self.top_u64() {
            Ok(c) => Ok(i32_of(c)),
            Err(f) => Err(f),
        }
    }

    /// Pops an `i32`.
    pub fn pop_i32(&mut self) -> (r: Result<i32, Fault>)
        ensures
            r == match spec_top(old(self)@) {
                Ok(c) => Ok::<i32, Fault>(spec_i32_of(c)),
                Err(f) => Err::<i32, Fault>(f),
            },
            final(self)@ == if old(self)@.len() > 0 {
                old(self)@.drop_last()
            } else {
                old(self)@
            },
    {
        match self.pop_u64() {
            Ok(c) => Ok(i32_of(c)),
            Err(f) => Err(f),
        }
    }

    /// The `i64` on top.
    pub fn top_i64(&self) -> (r: Result<i64, Fault>)
        ensures
            r == match spec_top(self@) {
                Ok(c) => Ok::<i64, Fault>(c as i64),
                Err(f) => Err::<i64, Fault>(f),
            },
    {
        match self.top_u64() {
            Ok(c) => Ok(c as i64),
            Err(f) => Err(f),
        }
    }

    /// Pops an `i64`.
    pub fn pop_i64(&mut self) -> (r: Result<i64, Fault>)
        ensures
            r == match spec_top(old(self)@) {
                Ok(c) => Ok::<i64, Fault>(c as i64),
                Err(f) => Err::<i64, Fault>(f),
            },
            final(self)@ == if old(self)@.len() > 0 {
                old(self)@.drop_last()
            } else {
                old(self)@
            },
    {
        match self.pop_u64() {
            Ok(c) => Ok(c as i64),
            Err(f) => Err(f),
        }
    }

    /// The `u32` on top.
    pub fn top_u32(&self) -> (r: Result<u32, Fault>)
        ensures
            r == match spec_top(self@) {
                Ok(c) => Ok::<u32, Fault>(c as u32),
                Err(f) => Err::<u32, Fault>(f),
            },
    {
        match self.top_u64() {
            Ok(c) => Ok(c as u32),
            Err(f) => Err(f),
        }
    }

    /// Pops a `u32`.
    pub fn pop_u32(&mut self) -> (r: Result<u32, Fault>)
        ensures
            r == match spec_top(old(self)@) {
                Ok(c) => Ok::<u32, Fault>(c as u32),
                Err(f) => Err::<u32, Fault>(f),
            },
            final(self)@ == if old(self)@.len() > 0 {
                old(self)@.drop_last()
            } else {
                old(self)@
            },
    {
        match self.pop_u64() {
            Ok(c) => Ok(c as u32),
            Err(f) => Err(f),
        }
    }

    /// The bit pattern of the `F32` on top.
    pub fn top_f32(&self) -> (r: Result<u32, Fault>)
        ensures
            r == match spec_top(self@) {
                Ok(c) => Ok::<u32, Fault>(c as u32),
                Err(f) => Err::<u32, Fault>(f),
            },
    {
        self.top_u32()
    }

    /// Pops the bit pattern of an `F32`.
    pub fn pop_f32(&mut self) -> (r: Result<u32, Fault>)
        ensures
            r == match spec_top(old(self)@) {
                Ok(c) => Ok::<u32, Fault>(c as u32),
                Err(f) => Err::<u32, Fault>(f),
            },
            final(self)@ == if old(self)@.len() > 0 {
                old(self)@.drop_last()
            } else {
                old(self)@
            },
    {
        self.pop_u32()
    }

    /// The bit pattern of the `F64` on top.
    pub fn top_f64(&self) -> (r: Result<u64, Fault>)
        ensures
            r == spec_top(self@),
    {
        self.top_u64()
    }

    /// Pops the bit pattern of an `F64`.
    pub fn pop_f64(&mut self) -> (r: Result<u64, Fault>)
        ensures
            r == spec_top(old(self)@),
            final(self)@ == if old(self)@.len() > 0 {
                old(self)@.drop_last()
            } else {
                old(self)@
            },
    {
        self.pop_u64()
    }

    /// Pushes a reference.
    pub fn push_ref(&mut self, value: Option<u32>)
        ensures
            final(self)@ == old(self)@.push(spec_cell_ref(value)),
    {
        self.data.push(cell_ref(value));
    }

    /// Pops a reference.
    pub fn pop_ref(&mut self) -> (r: Result<Option<u32>, Fault>)
        ensures
            r == match spec_top(old(self)@) {
                Ok(c) => Ok::<Option<u32>, Fault>(spec_ref_of(c)),
                Err(f) => Err::<Option<u32>, Fault>(f),
            },
            final(self)@ == if old(self)@.len() > 0 {
                old(self)@.drop_last()
            } else {
                old(self)@
            },
    {
        match self.pop_u64() {
            Ok(c) => Ok(ref_of(c)),
            Err(f) => Err(f),
        }
    }

    /// Pops a cell and reads it as an `i32`.
    pub fn pop_value(&mut self) -> (r: Result<Value, Fault>)
        ensures
            r == match spec_top(old(self)@) {
                Ok(c) => Ok::<Value, Fault>(Value::I32(c as i32)),
                Err(f) => Err::<Value, Fault>(f),
            },
            final(self)@ == if old(self)@.len() > 0 {
                old(self)@.drop_last()
            } else {
                old(self)@
            },
    {
        match self.pop_u64() {
            Ok(c) => Ok(Value::I32(c as i32)),
            Err(f) => Err(f),
        }
    }
}

} // verus!
