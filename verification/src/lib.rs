//! A minimal, embeddable WebAssembly interpreter: a binary module loader, a
//! function decoder, an instance builder and a tick-driven stack machine.
//!
//! Floating-point values are carried as their IEEE 754 bit patterns
//! throughout: an `F32` is a `u32`, an `F64` is a `u64`.
use vstd::prelude::*;

pub mod decode;
pub mod exec;
pub mod float;
pub mod frame;
pub mod instance;
pub mod laws;
pub mod machine;
pub mod memory;
pub mod module;
pub mod numeric;
pub mod op;
pub mod opcode;
pub mod stack;

pub use crate::decode::DecodeError;
pub use crate::exec::{ExecError, Execution, Value};
pub use crate::frame::Frame;
pub use crate::instance::{mk_instance, Instance, LinkError, TableInstance};
pub use crate::module::{
    Code, Data, ElementMode, ElementSegment, Elements, Global, ImportExportKind, LoaderError,
    MemorySection, Module, ReferenceType, SectionInfo,
};
pub use crate::memory::{Memory, SliceMemory, VectorMemory};
pub use crate::module::leb128::LEB128Reader;

verus! {

/// A value type, a function type, or the unit type of an empty block.
#[derive(Debug, Clone, PartialEq, Eq)]
pub enum Type {
    ValueType(ValueType),
    FunctionType(FuncType),
}

/// The mathematical content of a [`Type`].
pub enum TypeView {
    ValueType(ValueType),
    FunctionType(FuncTypeView),
}

impl View for Type {
    type V = TypeView;

    open spec fn view(&self) -> TypeView {
        match self {
            Type::ValueType(v) => TypeView::ValueType(*v),
            Type::FunctionType(f) => TypeView::FunctionType(f@),
        }
    }
}

/// Parameter and result types of a function, in declaration order.
#[derive(Debug, Clone, Eq, PartialEq)]
pub struct FuncType {
    pub params: Vec<ValueType>,
    pub results: Vec<ValueType>,
}

/// The mathematical content of a [`FuncType`].
pub struct FuncTypeView {
    pub params: Seq<ValueType>,
    pub results: Seq<ValueType>,
}

impl View for FuncType {
    type V = FuncTypeView;

    open spec fn view(&self) -> FuncTypeView {
        FuncTypeView { params: self.params@, results: self.results@ }
    }
}

/// The type of a value; `Unit` is the empty type of a block without a
/// result.
#[derive(Debug, Clone, Copy, PartialEq, Eq, Structural)]
pub enum ValueType {
    Unit,
    I32,
    I64,
    F32,
    F64,
    V128,
    FuncRef,
    ExternRef,
}

/// A block signature: an inline value type, or an index into the type table.
#[derive(Debug, Clone, Copy, PartialEq, Eq, Structural)]
pub enum TypeSignature {
    ValueType(ValueType),
    Index(u32),
}

/// The views of the elements of a sequence, in order.
pub open spec fn views<T: View>(s: Seq<T>) -> Seq<T::V> {
    Seq::new(s.len(), |i: int| s[i]@)
}

/// The views of a list that has grown by one item.
pub proof fn lemma_views_push<T: View>(s: Seq<T>, x: T)
    ensures
        views(s.push(x)) == views(s).push(x@),
{
    assert(views(s.push(x)) =~= views(s).push(x@));
}

/// The value type that a type byte stands for.
pub open spec fn spec_value_type(value: u32) -> Result<ValueType, DecodeError> {
    if value == 0x40 {
        Ok(ValueType::Unit)
    } else if value == 0x70 {
        Ok(ValueType::FuncRef)
    } else if value == 0x6f {
        Ok(ValueType::ExternRef)
    } else if value == 0x7f {
        Ok(ValueType::I32)
    } else if value == 0x7e {
        Ok(ValueType::I64)
    } else if value == 0x7d {
        Ok(ValueType::F32)
    } else if value == 0x7c {
        Ok(ValueType::F64)
    } else if value == 0x7b {
        Ok(ValueType::V128)
    } else {
        Err(DecodeError::InvalidSignature(value))
    }
}

/// The block signature that an unsigned LEB value stands for: a value type
/// where the value, or the magnitude of its reading as a negative `i32`,
/// is a type byte; a type index otherwise.
pub open spec fn spec_signature_of(raw: u32) -> Result<TypeSignature, DecodeError> {
    if raw >= 0x8000_0000 {
        match spec_value_type((0x1_0000_0000 - raw) as u32) {
            Ok(v) => Ok(TypeSignature::ValueType(v)),
            Err(e) => Err(e),
        }
    } else {
        match spec_value_type(raw) {
            Ok(v) => Ok(TypeSignature::ValueType(v)),
            Err(_) => Ok(TypeSignature::Index(raw)),
        }
    }
}

/// A value type read as an unsigned LEB at `pos`, and the position after it.
pub open spec fn spec_read_value_type(s: Seq<u8>, pos: int) -> Result<(ValueType, int), DecodeError> {
    match crate::module::leb128::spec_varuint32(s, pos) {
        Ok((v, p)) => match spec_value_type(v) {
            Ok(t) => Ok((t, p)),
            Err(e) => Err(e),
        },
        Err(e) => Err(e),
    }
}

/// A block signature read as an unsigned LEB at `pos`, and the position
/// after it.
pub open spec fn spec_read_signature(s: Seq<u8>, pos: int) -> Result<(TypeSignature, int), DecodeError> {
    match crate::module::leb128::spec_varuint32(s, pos) {
        Ok((v, p)) => match spec_signature_of(v) {
            Ok(t) => Ok((t, p)),
            Err(e) => Err(e),
        },
        Err(e) => Err(e),
    }
}

impl ValueType {
    /// The value type that a type byte stands for.
    pub fn from_u32(value: u32) -> (r: Result<Self, DecodeError>)
        ensures
            r == spec_value_type(value),
    {
        match value {
            0x40 => Ok(ValueType::Unit),
            0x70 => Ok(ValueType::FuncRef),
            0x6f => Ok(ValueType::ExternRef),
            0x7F => Ok(ValueType::I32),
            0x7E => Ok(ValueType::I64),
            0x7D => Ok(ValueType::F32),
            0x7C => Ok(ValueType::F64),
            0x7B => Ok(ValueType::V128),
            _ => Err(DecodeError::InvalidSignature(value)),
        }
    }

    /// Reads a value type, without type index indirection.
    pub fn read(reader: &mut LEB128Reader) -> (r: Result<Self, DecodeError>)
        ensures
            crate::module::leb128::reads(
                *old(reader),
                *final(reader),
                r,
                spec_read_value_type(old(reader).bytes(), old(reader).cursor()),
            ),
            crate::module::leb128::advanced(*old(reader), *final(reader), r),
    {
        let value = reader.load_imm_varuint32()?;
        Self::from_u32(value)
    }

    /// Reads a block signature, allowing for type index indirection.
    pub fn read_signature(reader: &mut LEB128Reader) -> (r: Result<TypeSignature, DecodeError>)
        ensures
            crate::module::leb128::reads(
                *old(reader),
                *final(reader),
                r,
                spec_read_signature(old(reader).bytes(), old(reader).cursor()),
            ),
    {
        let raw = reader.load_imm_varuint32()?;
        if raw >= 0x8000_0000 {
            let magnitude: u32 = ((0x1_0000_0000u64 - raw as u64) as u32);
            match Self::from_u32(magnitude) {
                Ok(v) => Ok(TypeSignature::ValueType(v)),
                Err(e) => Err(e),
            }
        } else {
            match Self::from_u32(raw) {
                Ok(v) => Ok(TypeSignature::ValueType(v)),
                Err(_) => Ok(TypeSignature::Index(raw)),
            }
        }
    }
}

/// Adds two sizes.
pub fn add(left: usize, right: usize) -> (sum: usize)
    requires
        left + right <= usize::MAX,
    ensures
        sum == left + right,
{
    left + right
}

} // verus!
