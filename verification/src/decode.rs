//! Decoding of a function body: the raw instruction stream becomes a linear
//! sequence of operations.
//!
//! The decoder reads one instruction at a time with [`decode_instr`] and
//! judges its immediates. The expression scanner walks the same stream with
//! [`skip_instr`], which passes over the immediates by their lengths.
use crate::module::leb128::{
    lemma_follows_on, lemma_items_follow, lemma_items_varu32_advance, lemma_readers_follow,
    lemma_varuint_advances, reads, reads_view, spec_array_varu32, spec_follows,
    spec_data, spec_fixed32, spec_fixed64, spec_items_varu32, spec_signed_varint32,
    spec_signed_varint64, spec_u8, spec_varuint32, spec_varuint64, LEB128Reader,
};
use crate::op::{copy_value_types, MemArg, Op, OpView};
use crate::opcode::OpCode;
use crate::{spec_read_signature, spec_value_type, views, TypeSignature, ValueType};
use vstd::prelude::*;

verus! {

/// Why a byte stream is malformed.
#[derive(Debug, Clone, Copy, PartialEq, Eq, Structural)]
pub enum Malformed {
    /// The section or function ends before the value does.
    UnexpectedEnd,
    /// A LEB128 integer has more bytes than its width allows.
    IntegerTooLong,
    /// A LEB128 integer does not fit its width.
    IntegerTooLarge,
    /// A name is not UTF-8.
    InvalidString,
    /// A memory offset above 2^32 - 1.
    OffsetTooLarge,
    /// An alignment hint above the natural alignment of the access.
    InvalidAlignment,
    /// Limits above 65,536 pages.
    LimitsTooLarge,
    /// A maximum below the minimum.
    MaximumBelowMinimum,
}

/// Why a module or a function body could not be decoded.
#[derive(Debug, Clone, Copy, PartialEq, Eq, Structural)]
pub enum DecodeFailure {
    /// A function type that does not begin with the marker byte 0x60.
    InvalidFunctionTypeMarker(u8),
    /// A group of 2^30 locals or more.
    TooManyLocals,
    /// An element kind other than function references.
    UnsupportedElementKind(u8),
    /// Element segment flags above 7.
    UnsupportedElementFlags(u32),
    /// A section that did not consume exactly its declared length.
    SectionLengthMismatch,
    /// A section that appears twice or out of the canonical order.
    SectionOutOfOrder,
    /// A function body shorter than its local declarations.
    CodeSizeMismatch,
    /// The code section and the function section differ in length.
    FunctionCodeMismatch,
    /// The data count differs from the number of data segments.
    DataCountMismatch,
    /// The reserved byte after a memory instruction is not zero.
    ReservedByteNonZero(u8),
    /// An `else` outside an `if`.
    ElseWithoutIf,
    /// An `end` with no open scope.
    EndWithoutScope,
}

/// A proposal whose opcodes are recognised and not implemented.
#[derive(Debug, Clone, Copy, PartialEq, Eq, Structural)]
pub enum Proposal {
    Exceptions,
    ExceptionHandling,
    TypedFunctionReferences,
    ReferenceTypes,
    BulkMemory,
    Simd,
    GarbageCollection,
    Threads,
}

/// Why a function body could not be decoded.
#[derive(Debug, Clone, Copy, PartialEq, Eq, Structural)]
pub enum DecodeError {
    InvalidOpcode(u8),
    UnimplementedOpcode(u8, Proposal),
    InvalidSignature(u32),
    FailedToDecode(DecodeFailure),
    InvalidDataSegmentType(u32),
    UnsupportedType(u32),
    MalformedMemory(Malformed),
}

/// The kind of a scope: the body of a function as the decoder sees it, the
/// scope of a call as the interpreter opens it, or one of the structured
/// instructions.
#[derive(Debug, Clone, Copy, PartialEq, Eq, Structural)]
pub enum ScopeType {
    Program,
    Function,
    Loop,
    Block,
    IfElse,
}

/// The decoded body of a function.
#[derive(Debug, Clone, PartialEq)]
pub struct Program {
    pub ops: Vec<Op>,
    pub local_types: Vec<ValueType>,
    pub return_types: Vec<ValueType>,
}

/// The mathematical content of a [`Program`].
pub struct ProgramView {
    pub ops: Seq<OpView>,
    pub local_types: Seq<ValueType>,
    pub return_types: Seq<ValueType>,
}

impl View for Program {
    type V = ProgramView;

    open spec fn view(&self) -> ProgramView {
        ProgramView {
            ops: views(self.ops@),
            local_types: self.local_types@,
            return_types: self.return_types@,
        }
    }
}

/// The largest offset that a load or store may carry.
pub const MAX_MEMORY_OFFSET: u32 = 0xffff_ffff;

/// An alignment hint and an offset, each an unsigned LEB128 integer; the
/// offset at most 2^32 - 1, the hint at most `max_align`.
pub open spec fn spec_memarg(s: Seq<u8>, pos: int, max_align: u8) -> Result<
    (MemArg, int),
    DecodeError,
> {
    match spec_varuint32(s, pos) {
        Ok((align, p)) => match spec_varuint64(s, p) {
            Ok((offset, q)) => if offset > MAX_MEMORY_OFFSET {
                Err(DecodeError::MalformedMemory(Malformed::OffsetTooLarge))
            } else if align > max_align {
                Err(DecodeError::MalformedMemory(Malformed::InvalidAlignment))
            } else {
                Ok((MemArg { offset: offset as usize, align }, q))
            },
            Err(e) => Err(e),
        },
        Err(e) => Err(e),
    }
}

/// Reads the immediate of a load or store.
pub fn read_memarg(reader: &mut LEB128Reader, max_align: u8) -> (r: Result<MemArg, DecodeError>)
    ensures
        reads(
            *old(reader),
            *final(reader),
            r,
            spec_memarg(old(reader).bytes(), old(reader).cursor(), max_align),
        ),
{
    let align = reader.load_imm_varuint32()?;
    let offset = reader.load_imm_varuint64()?;
    if offset > (MAX_MEMORY_OFFSET as u64) {
        return Err(DecodeError::MalformedMemory(Malformed::OffsetTooLarge));
    }
    if align > (max_align as u32) {
        return Err(DecodeError::MalformedMemory(Malformed::InvalidAlignment));
    }
    Ok(MemArg { offset: offset as usize, align })
}

/// An open scope of the decoder.
#[derive(Debug, Clone, Copy, PartialEq, Eq, Structural)]
pub struct Scope {
    pub scope_type: ScopeType,
    pub signature: TypeSignature,
}

impl Default for Program {
    fn default() -> (r: Self)
        ensures
            r@.ops.len() == 0,
            r@.local_types.len() == 0,
            r@.return_types.len() == 0,
    {
        Self::new()
    }
}

impl Program {
    /// A program without operations.
    pub fn new() -> (r: Self)
        ensures
            r@.ops.len() == 0,
            r@.local_types.len() == 0,
            r@.return_types.len() == 0,
    {
        Program { ops: Vec::new(), local_types: Vec::new(), return_types: Vec::new() }
    }

    /// Appends an operation.
    pub fn push(&mut self, op: Op)
        ensures
            final(self)@.ops == old(self)@.ops.push(op@),
            final(self)@.local_types == old(self)@.local_types,
            final(self)@.return_types == old(self)@.return_types,
    {
        self.ops.push(op);
        assert(views(self.ops@) =~= views(old(self).ops@).push(op@));
    }
}

impl Program {
    /// A copy of the program.
    pub fn duplicate(&self) -> (r: Program)
        ensures
            r@ == self@,
    {
        let mut ops: Vec<Op> = Vec::new();
        let mut i: usize = 0;
        assert(views(ops@) =~= views(self.ops@).subrange(0, 0));
        while i < self.ops.len()
            invariant
                i <= self.ops.len(),
                views(ops@) == views(self.ops@).subrange(0, i as int),
            decreases self.ops.len() - i,
        {
            let op = self.ops[i].duplicate();
            proof {
                crate::lemma_views_push(ops@, op);
                assert(views(self.ops@).subrange(0, i as int).push(op@) =~= views(
                    self.ops@,
                ).subrange(0, i + 1));
            }
            ops.push(op);
            i = i + 1;
        }
        assert(views(self.ops@).subrange(0, self.ops.len() as int) =~= views(self.ops@));
        Program {
            ops,
            local_types: copy_value_types(&self.local_types),
            return_types: copy_value_types(&self.return_types),
        }
    }
}

/// The implicit scope of a function body.
pub fn mk_program() -> (r: Scope)
    ensures
        r == (Scope {
            scope_type: ScopeType::Program,
            signature: TypeSignature::ValueType(ValueType::Unit),
        }),
{
    Scope { scope_type: ScopeType::Program, signature: TypeSignature::ValueType(ValueType::Unit) }
}

/// The scope of a `loop`.
pub fn mk_loop(signature: TypeSignature) -> (r: Scope)
    ensures
        r == (Scope { scope_type: ScopeType::Loop, signature }),
{
    Scope { scope_type: ScopeType::Loop, signature }
}

/// The scope of a `block`.
pub fn mk_block(signature: TypeSignature) -> (r: Scope)
    ensures
        r == (Scope { scope_type: ScopeType::Block, signature }),
{
    Scope { scope_type: ScopeType::Block, signature }
}

/// The scope of an `if`.
pub fn mk_if_else(signature: TypeSignature) -> (r: Scope)
    ensures
        r == (Scope { scope_type: ScopeType::IfElse, signature }),
{
    Scope { scope_type: ScopeType::IfElse, signature }
}

/// The scope of a function body: its one result type, or unit where it has
/// none or several.
pub fn mk_function(return_types: Vec<ValueType>) -> (r: Scope)
    ensures
        r == (Scope {
            scope_type: ScopeType::Function,
            signature: TypeSignature::ValueType(
                if return_types@.len() == 1 {
                    return_types@[0]
                } else {
                    ValueType::Unit
                },
            ),
        }),
{
    Scope {
        scope_type: ScopeType::Function,
        signature: TypeSignature::ValueType(
            if return_types.len() == 1 {
                return_types[0]
            } else {
                ValueType::Unit
            },
        ),
    }
}

/// One instruction of the stream, as the decoder sees it.
pub enum Instr {
    /// An instruction that leaves no operation behind.
    Skip,
    /// `block`, `loop` or `if`.
    Open(TypeSignature, ScopeType),
    Else,
    End,
    /// Any other instruction, decoded.
    Plain(Op),
}

/// The mathematical content of an [`Instr`].
pub enum InstrView {
    Skip,
    Open(TypeSignature, ScopeType),
    Else,
    End,
    Plain(OpView),
}

impl View for Instr {
    type V = InstrView;

    open spec fn view(&self) -> InstrView {
        match self {
            Instr::Skip => InstrView::Skip,
            Instr::Open(sig, scope_type) => InstrView::Open(*sig, *scope_type),
            Instr::Else => InstrView::Else,
            Instr::End => InstrView::End,
            Instr::Plain(op) => InstrView::Plain(op@),
        }
    }
}

/// The operation of an opcode that has no immediate.
pub open spec fn spec_simple_op(opcode: OpCode) -> Option<OpView> {
    match opcode {
            OpCode::Nop => Some(OpView::Nop),
            OpCode::Return => Some(OpView::Return),
            OpCode::Drop => Some(OpView::Drop),
            OpCode::Select => Some(OpView::Select),
            OpCode::IsNull => Some(OpView::RefIsNull),
            OpCode::RefAsNonNull => Some(OpView::RefAsNonNull),
            OpCode::RefEq => Some(OpView::RefEq),
            OpCode::I32Eqz => Some(OpView::I32Eqz),
            OpCode::I32Eq => Some(OpView::I32Eq),
            OpCode::I32Ne => Some(OpView::I32Ne),
            OpCode::I32LtS => Some(OpView::I32LtS),
            OpCode::I32LtU => Some(OpView::I32LtU),
            OpCode::I32GtS => Some(OpView::I32GtS),
            OpCode::I32GtU => Some(OpView::I32GtU),
            OpCode::I32LeS => Some(OpView::I32LeS),
            OpCode::I32LeU => Some(OpView::I32LeU),
            OpCode::I32GeS => Some(OpView::I32GeS),
            OpCode::I32GeU => Some(OpView::I32GeU),
            OpCode::I64Eqz => Some(OpView::I64Eqz),
            OpCode::I64Eq => Some(OpView::I64Eq),
            OpCode::I64Ne => Some(OpView::I64Ne),
            OpCode::I64LtS => Some(OpView::I64LtS),
            OpCode::I64LtU => Some(OpView::I64LtU),
            OpCode::I64GtS => Some(OpView::I64GtS),
            OpCode::I64GtU => Some(OpView::I64GtU),
            OpCode::I64LeS => Some(OpView::I64LeS),
            OpCode::I64LeU => Some(OpView::I64LeU),
            OpCode::I64GeS => Some(OpView::I64GeS),
            OpCode::I64GeU => Some(OpView::I64GeU),
            OpCode::F32Eq => Some(OpView::F32Eq),
            OpCode::F32Ne => Some(OpView::F32Ne),
            OpCode::F32Lt => Some(OpView::F32Lt),
            OpCode::F32Gt => Some(OpView::F32Gt),
            OpCode::F32Le => Some(OpView::F32Le),
            OpCode::F32Ge => Some(OpView::F32Ge),
            OpCode::F64Eq => Some(OpView::F64Eq),
            OpCode::F64Ne => Some(OpView::F64Ne),
            OpCode::F64Lt => Some(OpView::F64Lt),
            OpCode::F64Gt => Some(OpView::F64Gt),
            OpCode::F64Le => Some(OpView::F64Le),
            OpCode::F64Ge => Some(OpView::F64Ge),
            OpCode::I32Clz => Some(OpView::I32Clz),
            OpCode::I32Ctz => Some(OpView::I32Ctz),
            OpCode::I32Popcnt => Some(OpView::I32Popcnt),
            OpCode::I32Add => Some(OpView::I32Add),
            OpCode::I32Sub => Some(OpView::I32Sub),
            OpCode::I32Mul => Some(OpView::I32Mul),
            OpCode::I32DivS => Some(OpView::I32DivS),
            OpCode::I32DivU => Some(OpView::I32DivU),
            OpCode::I32RemS => Some(OpView::I32RemS),
            OpCode::I32RemU => Some(OpView::I32RemU),
            OpCode::I32And => Some(OpView::I32And),
            OpCode::I32Or => Some(OpView::I32Or),
            OpCode::I32Xor => Some(OpView::I32Xor),
            OpCode::I32Shl => Some(OpView::I32Shl),
            OpCode::I32ShrS => Some(OpView::I32ShrS),
            OpCode::I32ShrU => Some(OpView::I32ShrU),
            OpCode::I32Rotl => Some(OpView::I32Rotl),
            OpCode::I32Rotr => Some(OpView::I32Rotr),
            OpCode::I64Clz => Some(OpView::I64Clz),
            OpCode::I64Ctz => Some(OpView::I64Ctz),
            OpCode::I64Popcnt => Some(OpView::I64Popcnt),
            OpCode::I64Add => Some(OpView::I64Add),
            OpCode::I64Sub => Some(OpView::I64Sub),
            OpCode::I64Mul => Some(OpView::I64Mul),
            OpCode::I64DivS => Some(OpView::I64DivS),
            OpCode::I64DivU => Some(OpView::I64DivU),
            OpCode::I64RemS => Some(OpView::I64RemS),
            OpCode::I64RemU => Some(OpView::I64RemU),
            OpCode::I64And => Some(OpView::I64And),
            OpCode::I64Or => Some(OpView::I64Or),
            OpCode::I64Xor => Some(OpView::I64Xor),
            OpCode::I64Shl => Some(OpView::I64Shl),
            OpCode::I64ShrS => Some(OpView::I64ShrS),
            OpCode::I64ShrU => Some(OpView::I64ShrU),
            OpCode::I64Rotl => Some(OpView::I64Rotl),
            OpCode::I64Rotr => Some(OpView::I64Rotr),
            OpCode::F32Abs => Some(OpView::F32Abs),
            OpCode::F32Neg => Some(OpView::F32Neg),
            OpCode::F32Ceil => Some(OpView::F32Ceil),
            OpCode::F32Floor => Some(OpView::F32Floor),
            OpCode::F32Trunc => Some(OpView::F32Trunc),
            OpCode::F32Nearest => Some(OpView::F32Nearest),
            OpCode::F32Sqrt => Some(OpView::F32Sqrt),
            OpCode::F32Add => Some(OpView::F32Add),
            OpCode::F32Sub => Some(OpView::F32Sub),
            OpCode::F32Mul => Some(OpView::F32Mul),
            OpCode::F32Div => Some(OpView::F32Div),
            OpCode::F32Min => Some(OpView::F32Min),
            OpCode::F32Max => Some(OpView::F32Max),
            OpCode::F32Copysign => Some(OpView::F32Copysign),
            OpCode::F64Abs => Some(OpView::F64Abs),
            OpCode::F64Neg => Some(OpView::F64Neg),
            OpCode::F64Ceil => Some(OpView::F64Ceil),
            OpCode::F64Floor => Some(OpView::F64Floor),
            OpCode::F64Trunc => Some(OpView::F64Trunc),
            OpCode::F64Nearest => Some(OpView::F64Nearest),
            OpCode::F64Sqrt => Some(OpView::F64Sqrt),
            OpCode::F64Add => Some(OpView::F64Add),
            OpCode::F64Sub => Some(OpView::F64Sub),
            OpCode::F64Mul => Some(OpView::F64Mul),
            OpCode::F64Div => Some(OpView::F64Div),
            OpCode::F64Min => Some(OpView::F64Min),
            OpCode::F64Max => Some(OpView::F64Max),
            OpCode::F64Copysign => Some(OpView::F64Copysign),
            OpCode::I32WrapI64 => Some(OpView::I32WrapI64),
            OpCode::I32TruncF32S => Some(OpView::I32TruncF32S),
            OpCode::I32TruncF32U => Some(OpView::I32TruncF32U),
            OpCode::I32TruncF64S => Some(OpView::I32TruncF64S),
            OpCode::I32TruncF64U => Some(OpView::I32TruncF64U),
            OpCode::I64ExtendI32S => Some(OpView::I64ExtendI32S),
            OpCode::I64ExtendI32U => Some(OpView::I64ExtendI32U),
            OpCode::I64TruncF32S => Some(OpView::I64TruncF32S),
            OpCode::I64TruncF32U => Some(OpView::I64TruncF32U),
            OpCode::I64TruncF64S => Some(OpView::I64TruncF64S),
            OpCode::I64TruncF64U => Some(OpView::I64TruncF64U),
            OpCode::F32ConvertI32S => Some(OpView::F32ConvertI32S),
            OpCode::F32ConvertI32U => Some(OpView::F32ConvertI32U),
            OpCode::F32ConvertI64S => Some(OpView::F32ConvertI64S),
            OpCode::F32ConvertI64U => Some(OpView::F32ConvertI64U),
            OpCode::F32DemoteF64 => Some(OpView::F32DemoteF64),
            OpCode::F64ConvertI32S => Some(OpView::F64ConvertI32S),
            OpCode::F64ConvertI32U => Some(OpView::F64ConvertI32U),
            OpCode::F64ConvertI64S => Some(OpView::F64ConvertI64S),
            OpCode::F64ConvertI64U => Some(OpView::F64ConvertI64U),
            OpCode::F64PromoteF32 => Some(OpView::F64PromoteF32),
            OpCode::I32ReinterpretF32 => Some(OpView::I32ReinterpretF32),
            OpCode::I64ReinterpretF64 => Some(OpView::I64ReinterpretF64),
            OpCode::F32ReinterpretI32 => Some(OpView::F32ReinterpretI32),
            OpCode::F64ReinterpretI64 => Some(OpView::F64ReinterpretI64),
            OpCode::I32Extend8S => Some(OpView::I32Extend8S),
            OpCode::I32Extend16S => Some(OpView::I32Extend16S),
            OpCode::I64Extend8S => Some(OpView::I64Extend8S),
            OpCode::I64Extend16S => Some(OpView::I64Extend16S),
            OpCode::I64Extend32S => Some(OpView::I64Extend32S),
            _ => None,
    }
}

/// The operation of an opcode whose one immediate is an index or a depth.
pub open spec fn spec_index_op(opcode: OpCode, index: u32) -> Option<OpView> {
    match opcode {
            OpCode::Br => Some(OpView::Br(index)),
            OpCode::BrIf => Some(OpView::BrIf(index)),
            OpCode::Call => Some(OpView::Call(index)),
            OpCode::GetLocal => Some(OpView::GetLocal(index)),
            OpCode::SetLocal => Some(OpView::SetLocal(index)),
            OpCode::Tee => Some(OpView::TeeLocal(index)),
            OpCode::GetGlobal => Some(OpView::GetGlobal(index)),
            OpCode::SetGlobal => Some(OpView::SetGlobal(index)),
            OpCode::TableGet => Some(OpView::TableGet(index)),
            OpCode::TableSet => Some(OpView::TableSet(index)),
            OpCode::RefFunc => Some(OpView::RefFunc(index)),
            _ => None,
    }
}

/// The operation of a load or store.
pub open spec fn spec_memory_op(opcode: OpCode, memarg: MemArg) -> Option<OpView> {
    match opcode {
            OpCode::LoadI32 => Some(OpView::LoadI32(memarg)),
            OpCode::LoadI64 => Some(OpView::LoadI64(memarg)),
            OpCode::LoadF32 => Some(OpView::LoadF32(memarg)),
            OpCode::LoadF64 => Some(OpView::LoadF64(memarg)),
            OpCode::Load8Se => Some(OpView::Load8SE(memarg)),
            OpCode::Load16Se => Some(OpView::Load16Se(memarg)),
            OpCode::Load8I64Se => Some(OpView::Load8I64Se(memarg)),
            OpCode::Load8I64Ze => Some(OpView::Load8I64Ze(memarg)),
            OpCode::Load16I64Se => Some(OpView::Load16I64Se(memarg)),
            OpCode::Load32I64Se => Some(OpView::Load32I64Se(memarg)),
            OpCode::Load8Ze => Some(OpView::Load8Ze(memarg)),
            OpCode::Load16Ze => Some(OpView::Load16Ze(memarg)),
            OpCode::Load16I64Ze => Some(OpView::Load16I64Ze(memarg)),
            OpCode::Load32I64Ze => Some(OpView::Load32I64Ze(memarg)),
            OpCode::StoreI32 => Some(OpView::StoreI32(memarg)),
            OpCode::StoreI64 => Some(OpView::StoreI64(memarg)),
            OpCode::StoreF32 => Some(OpView::StoreF32(memarg)),
            OpCode::StoreF64 => Some(OpView::StoreF64(memarg)),
            OpCode::Store8_32 => Some(OpView::Store8_32(memarg)),
            OpCode::Store16_32 => Some(OpView::Store16_32(memarg)),
            OpCode::Store8_64 => Some(OpView::Store8_64(memarg)),
            OpCode::Store16_64 => Some(OpView::Store16_64(memarg)),
            OpCode::Store32_64 => Some(OpView::Store32_64(memarg)),
            _ => None,
    }
}

/// The largest alignment hint of a load or store: the binary logarithm of
/// the width of its access.
pub open spec fn spec_natural_alignment(opcode: OpCode) -> Option<u8> {
    match opcode {
            OpCode::Load8Se | OpCode::Load8I64Se | OpCode::Load8I64Ze | OpCode::Load8Ze
            | OpCode::Store8_32 | OpCode::Store8_64 => Some(0),
            OpCode::Load16Se | OpCode::Load16I64Se | OpCode::Load16Ze | OpCode::Load16I64Ze
            | OpCode::Store16_32 | OpCode::Store16_64 => Some(1),
            OpCode::LoadI32 | OpCode::LoadF32 | OpCode::Load32I64Se | OpCode::Load32I64Ze
            | OpCode::StoreI32 | OpCode::StoreF32 | OpCode::Store32_64 => Some(2),
            OpCode::LoadI64 | OpCode::LoadF64 | OpCode::StoreI64 | OpCode::StoreF64 => Some(3),
            _ => None,
    }
}

/// The proposal that an opcode belongs to, where the opcode is recognised
/// and not implemented.
pub open spec fn spec_unimplemented(opcode: OpCode) -> Option<Proposal> {
    match opcode {
            OpCode::Try | OpCode::Catch | OpCode::Throw | OpCode::Rethrow | OpCode::ThrowRef => Some(Proposal::Exceptions),
            OpCode::ReturnCall | OpCode::ReturnCallIndirect | OpCode::CallRef
            | OpCode::ReturnCallRef => Some(Proposal::TypedFunctionReferences),
            OpCode::Delegate | OpCode::CatchAll | OpCode::TryTable => Some(Proposal::ExceptionHandling),
            OpCode::BrOnNull | OpCode::BrOnNonNull => Some(Proposal::ReferenceTypes),
            OpCode::SIMDExtension => Some(Proposal::Simd),
            OpCode::GCExtension => Some(Proposal::GarbageCollection),
            OpCode::ThreadsExtension => Some(Proposal::Threads),
            _ => None,
    }
}

/// The saturating conversion that a sub-opcode of the prefix 0xFC stands
/// for.
pub open spec fn spec_saturating_op(sub: u32) -> Option<OpView> {
    if sub == 0 {
        Some(OpView::I32TruncSatF32S)
    } else if sub == 1 {
        Some(OpView::I32TruncSatF32U)
    } else if sub == 2 {
        Some(OpView::I32TruncSatF64S)
    } else if sub == 3 {
        Some(OpView::I32TruncSatF64U)
    } else if sub == 4 {
        Some(OpView::I64TruncSatF32S)
    } else if sub == 5 {
        Some(OpView::I64TruncSatF32U)
    } else if sub == 6 {
        Some(OpView::I64TruncSatF64S)
    } else if sub == 7 {
        Some(OpView::I64TruncSatF64U)
    } else {
        None
    }
}

/// `remaining` value types from `pos` on, one byte each, after `acc`.
pub open spec fn spec_type_bytes(s: Seq<u8>, pos: int, remaining: nat, acc: Seq<ValueType>) -> Result<
    (Seq<ValueType>, int),
    DecodeError,
>
    decreases remaining,
{
    if remaining == 0 {
        Ok((acc, pos))
    } else {
        match spec_u8(s, pos) {
            Ok((b, p)) => match spec_value_type(b as u32) {
                Ok(t) => spec_type_bytes(s, p, (remaining - 1) as nat, acc.push(t)),
                Err(e) => Err(e),
            },
            Err(e) => Err(e),
        }
    }
}

/// What follows the opcode `opcode`, whose byte was `byte`, from `p` on.
pub open spec fn spec_operands(s: Seq<u8>, p: int, byte: u8, opcode: OpCode) -> Result<
    (InstrView, int),
    DecodeError,
> {
    match opcode {
        OpCode::Unreachable => Ok((InstrView::Skip, p)),
        OpCode::Block => match spec_read_signature(s, p) {
            Ok((sig, q)) => Ok((InstrView::Open(sig, ScopeType::Block), q)),
            Err(e) => Err(e),
        },
        OpCode::Loop => match spec_read_signature(s, p) {
            Ok((sig, q)) => Ok((InstrView::Open(sig, ScopeType::Loop), q)),
            Err(e) => Err(e),
        },
        OpCode::If => match spec_read_signature(s, p) {
            Ok((sig, q)) => Ok((InstrView::Open(sig, ScopeType::IfElse), q)),
            Err(e) => Err(e),
        },
        OpCode::Else => Ok((InstrView::Else, p)),
        OpCode::End => Ok((InstrView::End, p)),
        OpCode::BrTable => match spec_array_varu32(s, p) {
            Ok((table, q)) => match spec_varuint32(s, q) {
                Ok((default, r)) => Ok((InstrView::Plain(OpView::BrTable(table, default)), r)),
                Err(e) => Err(e),
            },
            Err(e) => Err(e),
        },
        OpCode::CallIndirect => match spec_varuint32(s, p) {
            Ok((type_idx, q)) => match spec_varuint32(s, q) {
                Ok((table_idx, r)) => Ok(
                    (InstrView::Plain(OpView::CallIndirect(type_idx, table_idx)), r),
                ),
                Err(e) => Err(e),
            },
            Err(e) => Err(e),
        },
        OpCode::CurrentMemorySize | OpCode::GrowMemory => match spec_u8(s, p) {
            Ok((reserved, q)) => if reserved != 0 {
                Err(DecodeError::FailedToDecode(DecodeFailure::ReservedByteNonZero(reserved)))
            } else if opcode == OpCode::GrowMemory {
                Ok((InstrView::Plain(OpView::MemoryGrow), q))
            } else {
                Ok((InstrView::Plain(OpView::MemorySize), q))
            },
            Err(e) => Err(e),
        },
        OpCode::I32Const => match spec_signed_varint32(s, p) {
            Ok((v, q)) => Ok((InstrView::Plain(OpView::I32Const(v)), q)),
            Err(e) => Err(e),
        },
        OpCode::I64Const => match spec_signed_varint64(s, p) {
            Ok((v, q)) => Ok((InstrView::Plain(OpView::I64Const(v)), q)),
            Err(e) => Err(e),
        },
        OpCode::F32Const => match spec_fixed32(s, p) {
            Ok((v, q)) => Ok((InstrView::Plain(OpView::F32Const(v)), q)),
            Err(e) => Err(e),
        },
        OpCode::F64Const => match spec_fixed64(s, p) {
            Ok((v, q)) => Ok((InstrView::Plain(OpView::F64Const(v)), q)),
            Err(e) => Err(e),
        },
        OpCode::SelectT => match spec_varuint32(s, p) {
            Ok((n, q)) => match spec_type_bytes(s, q, n as nat, Seq::empty()) {
                Ok((types, r)) => Ok((InstrView::Plain(OpView::SelectT(types)), r)),
                Err(e) => Err(e),
            },
            Err(e) => Err(e),
        },
        OpCode::RefNull => match spec_u8(s, p) {
            Ok((b, q)) => match spec_value_type(b as u32) {
                Ok(t) => Ok((InstrView::Plain(OpView::RefNull(t)), q)),
                Err(e) => Err(e),
            },
            Err(e) => Err(e),
        },
        OpCode::FCExtension => match spec_varuint32(s, p) {
            Ok((sub, q)) => match spec_saturating_op(sub) {
                Some(op) => Ok((InstrView::Plain(op), q)),
                None => Err(DecodeError::UnimplementedOpcode(byte, Proposal::BulkMemory)),
            },
            Err(e) => Err(e),
        },
        _ => match spec_unimplemented(opcode) {
            Some(proposal) => Err(DecodeError::UnimplementedOpcode(byte, proposal)),
            None => match spec_natural_alignment(opcode) {
                Some(max_align) => match spec_memarg(s, p, max_align) {
                    Ok((memarg, q)) => match spec_memory_op(opcode, memarg) {
                        Some(op) => Ok((InstrView::Plain(op), q)),
                        None => Err(DecodeError::InvalidOpcode(byte)),
                    },
                    Err(e) => Err(e),
                },
                None => match spec_simple_op(opcode) {
                    Some(op) => Ok((InstrView::Plain(op), p)),
                    None => match spec_varuint32(s, p) {
                        Ok((index, q)) => match spec_index_op(opcode, index) {
                            Some(op) => Ok((InstrView::Plain(op), q)),
                            None => Err(DecodeError::InvalidOpcode(byte)),
                        },
                        Err(e) => Err(e),
                    },
                },
            },
        },
    }
}

/// The instruction at `pos` and the position after it.
pub open spec fn spec_instr(s: Seq<u8>, pos: int) -> Result<(InstrView, int), DecodeError> {
    match spec_u8(s, pos) {
        Ok((byte, p)) => match OpCode::spec_from_repr(byte) {
            Some(opcode) => spec_operands(s, p, byte, opcode),
            None => Err(DecodeError::InvalidOpcode(byte)),
        },
        Err(e) => Err(e),
    }
}

/// A successful reading of a list of type bytes ends at or after its start
/// and within the bytes.
pub proof fn lemma_type_bytes_advance(s: Seq<u8>, pos: int, remaining: nat, acc: Seq<ValueType>)
    requires
        pos <= s.len(),
    ensures
        spec_type_bytes(s, pos, remaining, acc) matches Ok((_, p)) ==> pos <= p <= s.len(),
    decreases remaining,
{
    if remaining > 0 {
        match spec_u8(s, pos) {
            Ok((b, p)) => match spec_value_type(b as u32) {
                Ok(t) => lemma_type_bytes_advance(s, p, (remaining - 1) as nat, acc.push(t)),
                Err(_) => {},
            },
            Err(_) => {},
        }
    }
}

/// An instruction ends after its start and within the bytes; an `end` is
/// the single byte 0x0B.
pub proof fn lemma_instr_advances(s: Seq<u8>, pos: int)
    ensures
        spec_instr(s, pos) matches Ok((instr, p)) ==> pos < p <= s.len() && (instr is End ==> p
            == pos + 1 && s[pos] == 0x0b),
{
    if 0 <= pos < s.len() {
        let p = pos + 1;
        lemma_varuint_advances(s, p);
        match spec_varuint32(s, p) {
            Ok((n, q)) => {
                lemma_varuint_advances(s, q);
                lemma_type_bytes_advance(s, q, n as nat, Seq::empty());
                lemma_items_varu32_advance(s, q, n as nat, Seq::empty());
                match spec_items_varu32(s, q, n as nat, Seq::empty()) {
                    Ok((_, r)) => lemma_varuint_advances(s, r),
                    Err(_) => {},
                }
            },
            Err(_) => {},
        }
    }
}

fn simple_op(opcode: OpCode) -> (r: Option<Op>)
    ensures
        r is Some == spec_simple_op(opcode) is Some,
        r matches Some(op) ==> Some(op@) == spec_simple_op(opcode),
{
    match opcode {
            OpCode::Nop => Some(Op::Nop),
            OpCode::Return => Some(Op::Return),
            OpCode::Drop => Some(Op::Drop),
            OpCode::Select => Some(Op::Select),
            OpCode::IsNull => Some(Op::RefIsNull),
            OpCode::RefAsNonNull => Some(Op::RefAsNonNull),
            OpCode::RefEq => Some(Op::RefEq),
            OpCode::I32Eqz => Some(Op::I32Eqz),
            OpCode::I32Eq => Some(Op::I32Eq),
            OpCode::I32Ne => Some(Op::I32Ne),
            OpCode::I32LtS => Some(Op::I32LtS),
            OpCode::I32LtU => Some(Op::I32LtU),
            OpCode::I32GtS => Some(Op::I32GtS),
            OpCode::I32GtU => Some(Op::I32GtU),
            OpCode::I32LeS => Some(Op::I32LeS),
            OpCode::I32LeU => Some(Op::I32LeU),
            OpCode::I32GeS => Some(Op::I32GeS),
            OpCode::I32GeU => Some(Op::I32GeU),
            OpCode::I64Eqz => Some(Op::I64Eqz),
            OpCode::I64Eq => Some(Op::I64Eq),
            OpCode::I64Ne => Some(Op::I64Ne),
            OpCode::I64LtS => Some(Op::I64LtS),
            OpCode::I64LtU => Some(Op::I64LtU),
            OpCode::I64GtS => Some(Op::I64GtS),
            OpCode::I64GtU => Some(Op::I64GtU),
            OpCode::I64LeS => Some(Op::I64LeS),
            OpCode::I64LeU => Some(Op::I64LeU),
            OpCode::I64GeS => Some(Op::I64GeS),
            OpCode::I64GeU => Some(Op::I64GeU),
            OpCode::F32Eq => Some(Op::F32Eq),
            OpCode::F32Ne => Some(Op::F32Ne),
            OpCode::F32Lt => Some(Op::F32Lt),
            OpCode::F32Gt => Some(Op::F32Gt),
            OpCode::F32Le => Some(Op::F32Le),
            OpCode::F32Ge => Some(Op::F32Ge),
            OpCode::F64Eq => Some(Op::F64Eq),
            OpCode::F64Ne => Some(Op::F64Ne),
            OpCode::F64Lt => Some(Op::F64Lt),
            OpCode::F64Gt => Some(Op::F64Gt),
            OpCode::F64Le => Some(Op::F64Le),
            OpCode::F64Ge => Some(Op::F64Ge),
            OpCode::I32Clz => Some(Op::I32Clz),
            OpCode::I32Ctz => Some(Op::I32Ctz),
            OpCode::I32Popcnt => Some(Op::I32Popcnt),
            OpCode::I32Add => Some(Op::I32Add),
            OpCode::I32Sub => Some(Op::I32Sub),
            OpCode::I32Mul => Some(Op::I32Mul),
            OpCode::I32DivS => Some(Op::I32DivS),
            OpCode::I32DivU => Some(Op::I32DivU),
            OpCode::I32RemS => Some(Op::I32RemS),
            OpCode::I32RemU => Some(Op::I32RemU),
            OpCode::I32And => Some(Op::I32And),
            OpCode::I32Or => Some(Op::I32Or),
            OpCode::I32Xor => Some(Op::I32Xor),
            OpCode::I32Shl => Some(Op::I32Shl),
            OpCode::I32ShrS => Some(Op::I32ShrS),
            OpCode::I32ShrU => Some(Op::I32ShrU),
            OpCode::I32Rotl => Some(Op::I32Rotl),
            OpCode::I32Rotr => Some(Op::I32Rotr),
            OpCode::I64Clz => Some(Op::I64Clz),
            OpCode::I64Ctz => Some(Op::I64Ctz),
            OpCode::I64Popcnt => Some(Op::I64Popcnt),
            OpCode::I64Add => Some(Op::I64Add),
            OpCode::I64Sub => Some(Op::I64Sub),
            OpCode::I64Mul => Some(Op::I64Mul),
            OpCode::I64DivS => Some(Op::I64DivS),
            OpCode::I64DivU => Some(Op::I64DivU),
            OpCode::I64RemS => Some(Op::I64RemS),
            OpCode::I64RemU => Some(Op::I64RemU),
            OpCode::I64And => Some(Op::I64And),
            OpCode::I64Or => Some(Op::I64Or),
            OpCode::I64Xor => Some(Op::I64Xor),
            OpCode::I64Shl => Some(Op::I64Shl),
            OpCode::I64ShrS => Some(Op::I64ShrS),
            OpCode::I64ShrU => Some(Op::I64ShrU),
            OpCode::I64Rotl => Some(Op::I64Rotl),
            OpCode::I64Rotr => Some(Op::I64Rotr),
            OpCode::F32Abs => Some(Op::F32Abs),
            OpCode::F32Neg => Some(Op::F32Neg),
            OpCode::F32Ceil => Some(Op::F32Ceil),
            OpCode::F32Floor => Some(Op::F32Floor),
            OpCode::F32Trunc => Some(Op::F32Trunc),
            OpCode::F32Nearest => Some(Op::F32Nearest),
            OpCode::F32Sqrt => Some(Op::F32Sqrt),
            OpCode::F32Add => Some(Op::F32Add),
            OpCode::F32Sub => Some(Op::F32Sub),
            OpCode::F32Mul => Some(Op::F32Mul),
            OpCode::F32Div => Some(Op::F32Div),
            OpCode::F32Min => Some(Op::F32Min),
            OpCode::F32Max => Some(Op::F32Max),
            OpCode::F32Copysign => Some(Op::F32Copysign),
            OpCode::F64Abs => Some(Op::F64Abs),
            OpCode::F64Neg => Some(Op::F64Neg),
            OpCode::F64Ceil => Some(Op::F64Ceil),
            OpCode::F64Floor => Some(Op::F64Floor),
            OpCode::F64Trunc => Some(Op::F64Trunc),
            OpCode::F64Nearest => Some(Op::F64Nearest),
            OpCode::F64Sqrt => Some(Op::F64Sqrt),
            OpCode::F64Add => Some(Op::F64Add),
            OpCode::F64Sub => Some(Op::F64Sub),
            OpCode::F64Mul => Some(Op::F64Mul),
            OpCode::F64Div => Some(Op::F64Div),
            OpCode::F64Min => Some(Op::F64Min),
            OpCode::F64Max => Some(Op::F64Max),
            OpCode::F64Copysign => Some(Op::F64Copysign),
            OpCode::I32WrapI64 => Some(Op::I32WrapI64),
            OpCode::I32TruncF32S => Some(Op::I32TruncF32S),
            OpCode::I32TruncF32U => Some(Op::I32TruncF32U),
            OpCode::I32TruncF64S => Some(Op::I32TruncF64S),
            OpCode::I32TruncF64U => Some(Op::I32TruncF64U),
            OpCode::I64ExtendI32S => Some(Op::I64ExtendI32S),
            OpCode::I64ExtendI32U => Some(Op::I64ExtendI32U),
            OpCode::I64TruncF32S => Some(Op::I64TruncF32S),
            OpCode::I64TruncF32U => Some(Op::I64TruncF32U),
            OpCode::I64TruncF64S => Some(Op::I64TruncF64S),
            OpCode::I64TruncF64U => Some(Op::I64TruncF64U),
            OpCode::F32ConvertI32S => Some(Op::F32ConvertI32S),
            OpCode::F32ConvertI32U => Some(Op::F32ConvertI32U),
            OpCode::F32ConvertI64S => Some(Op::F32ConvertI64S),
            OpCode::F32ConvertI64U => Some(Op::F32ConvertI64U),
            OpCode::F32DemoteF64 => Some(Op::F32DemoteF64),
            OpCode::F64ConvertI32S => Some(Op::F64ConvertI32S),
            OpCode::F64ConvertI32U => Some(Op::F64ConvertI32U),
            OpCode::F64ConvertI64S => Some(Op::F64ConvertI64S),
            OpCode::F64ConvertI64U => Some(Op::F64ConvertI64U),
            OpCode::F64PromoteF32 => Some(Op::F64PromoteF32),
            OpCode::I32ReinterpretF32 => Some(Op::I32ReinterpretF32),
            OpCode::I64ReinterpretF64 => Some(Op::I64ReinterpretF64),
            OpCode::F32ReinterpretI32 => Some(Op::F32ReinterpretI32),
            OpCode::F64ReinterpretI64 => Some(Op::F64ReinterpretI64),
            OpCode::I32Extend8S => Some(Op::I32Extend8S),
            OpCode::I32Extend16S => Some(Op::I32Extend16S),
            OpCode::I64Extend8S => Some(Op::I64Extend8S),
            OpCode::I64Extend16S => Some(Op::I64Extend16S),
            OpCode::I64Extend32S => Some(Op::I64Extend32S),
            _ => None,
    }
}

fn index_op(opcode: OpCode, index: u32) -> (r: Option<Op>)
    ensures
        r is Some == spec_index_op(opcode, index) is Some,
        r matches Some(op) ==> Some(op@) == spec_index_op(opcode, index),
{
    match opcode {
            OpCode::Br => Some(Op::Br(index)),
            OpCode::BrIf => Some(Op::BrIf(index)),
            OpCode::Call => Some(Op::Call(index)),
            OpCode::GetLocal => Some(Op::GetLocal(index)),
            OpCode::SetLocal => Some(Op::SetLocal(index)),
            OpCode::Tee => Some(Op::TeeLocal(index)),
            OpCode::GetGlobal => Some(Op::GetGlobal(index)),
            OpCode::SetGlobal => Some(Op::SetGlobal(index)),
            OpCode::TableGet => Some(Op::TableGet(index)),
            OpCode::TableSet => Some(Op::TableSet(index)),
            OpCode::RefFunc => Some(Op::RefFunc(index)),
            _ => None,
    }
}

fn memory_op(opcode: OpCode, memarg: MemArg) -> (r: Option<Op>)
    ensures
        r is Some == spec_memory_op(opcode, memarg) is Some,
        r matches Some(op) ==> Some(op@) == spec_memory_op(opcode, memarg),
{
    match opcode {
            OpCode::LoadI32 => Some(Op::LoadI32(memarg)),
            OpCode::LoadI64 => Some(Op::LoadI64(memarg)),
            OpCode::LoadF32 => Some(Op::LoadF32(memarg)),
            OpCode::LoadF64 => Some(Op::LoadF64(memarg)),
            OpCode::Load8Se => Some(Op::Load8SE(memarg)),
            OpCode::Load16Se => Some(Op::Load16Se(memarg)),
            OpCode::Load8I64Se => Some(Op::Load8I64Se(memarg)),
            OpCode::Load8I64Ze => Some(Op::Load8I64Ze(memarg)),
            OpCode::Load16I64Se => Some(Op::Load16I64Se(memarg)),
            OpCode::Load32I64Se => Some(Op::Load32I64Se(memarg)),
            OpCode::Load8Ze => Some(Op::Load8Ze(memarg)),
            OpCode::Load16Ze => Some(Op::Load16Ze(memarg)),
            OpCode::Load16I64Ze => Some(Op::Load16I64Ze(memarg)),
            OpCode::Load32I64Ze => Some(Op::Load32I64Ze(memarg)),
            OpCode::StoreI32 => Some(Op::StoreI32(memarg)),
            OpCode::StoreI64 => Some(Op::StoreI64(memarg)),
            OpCode::StoreF32 => Some(Op::StoreF32(memarg)),
            OpCode::StoreF64 => Some(Op::StoreF64(memarg)),
            OpCode::Store8_32 => Some(Op::Store8_32(memarg)),
            OpCode::Store16_32 => Some(Op::Store16_32(memarg)),
            OpCode::Store8_64 => Some(Op::Store8_64(memarg)),
            OpCode::Store16_64 => Some(Op::Store16_64(memarg)),
            OpCode::Store32_64 => Some(Op::Store32_64(memarg)),
            _ => None,
    }
}

fn natural_alignment(opcode: OpCode) -> (r: Option<u8>)
    ensures
        r == spec_natural_alignment(opcode),
{
    match opcode {
            OpCode::Load8Se | OpCode::Load8I64Se | OpCode::Load8I64Ze | OpCode::Load8Ze
            | OpCode::Store8_32 | OpCode::Store8_64 => Some(0),
            OpCode::Load16Se | OpCode::Load16I64Se | OpCode::Load16Ze | OpCode::Load16I64Ze
            | OpCode::Store16_32 | OpCode::Store16_64 => Some(1),
            OpCode::LoadI32 | OpCode::LoadF32 | OpCode::Load32I64Se | OpCode::Load32I64Ze
            | OpCode::StoreI32 | OpCode::StoreF32 | OpCode::Store32_64 => Some(2),
            OpCode::LoadI64 | OpCode::LoadF64 | OpCode::StoreI64 | OpCode::StoreF64 => Some(3),
            _ => None,
    }
}

fn unimplemented_proposal(opcode: OpCode) -> (r: Option<Proposal>)
    ensures
        r == spec_unimplemented(opcode),
{
    match opcode {
            OpCode::Try | OpCode::Catch | OpCode::Throw | OpCode::Rethrow | OpCode::ThrowRef => Some(Proposal::Exceptions),
            OpCode::ReturnCall | OpCode::ReturnCallIndirect | OpCode::CallRef
            | OpCode::ReturnCallRef => Some(Proposal::TypedFunctionReferences),
            OpCode::Delegate | OpCode::CatchAll | OpCode::TryTable => Some(Proposal::ExceptionHandling),
            OpCode::BrOnNull | OpCode::BrOnNonNull => Some(Proposal::ReferenceTypes),
            OpCode::SIMDExtension => Some(Proposal::Simd),
            OpCode::GCExtension => Some(Proposal::GarbageCollection),
            OpCode::ThreadsExtension => Some(Proposal::Threads),
            _ => None,
    }
}

fn saturating_op(sub: u32) -> (r: Option<Op>)
    ensures
        r is Some == spec_saturating_op(sub) is Some,
        r matches Some(op) ==> Some(op@) == spec_saturating_op(sub),
{
    match sub {
        0 => Some(Op::I32TruncSatF32S),
        1 => Some(Op::I32TruncSatF32U),
        2 => Some(Op::I32TruncSatF64S),
        3 => Some(Op::I32TruncSatF64U),
        4 => Some(Op::I64TruncSatF32S),
        5 => Some(Op::I64TruncSatF32U),
        6 => Some(Op::I64TruncSatF64S),
        7 => Some(Op::I64TruncSatF64U),
        _ => None,
    }
}

fn read_type_bytes(reader: &mut LEB128Reader, count: u32) -> (r: Result<Vec<ValueType>, DecodeError>)
    ensures
        reads_view(
            *old(reader),
            *final(reader),
            r,
            spec_type_bytes(old(reader).bytes(), old(reader).cursor(), count as nat, Seq::empty()),
        ),
{
    let mut types: Vec<ValueType> = Vec::new();
    let mut i: u32 = 0;
    while i < count
        invariant
            reader.bytes() == old(reader).bytes(),
            i <= count,
            spec_type_bytes(old(reader).bytes(), old(reader).cursor(), count as nat, Seq::empty())
                == spec_type_bytes(reader.bytes(), reader.cursor(), (count - i) as nat, types@),
        decreases count - i,
    {
        let type_byte = reader.load_imm_u8()?;
        let val_type = ValueType::from_u32(type_byte as u32)?;
        types.push(val_type);
        i = i + 1;
    }
    Ok(types)
}

/// Reads what follows an opcode.
fn read_operands(reader: &mut LEB128Reader, byte: u8, opcode: OpCode) -> (r: Result<
    Instr,
    DecodeError,
>)
    ensures
        reads_view(
            *old(reader),
            *final(reader),
            r,
            spec_operands(old(reader).bytes(), old(reader).cursor(), byte, opcode),
        ),
{
    match opcode {
        OpCode::Unreachable => Ok(Instr::Skip),
        OpCode::Block => {
            let signature = ValueType::read_signature(reader)?;
            Ok(Instr::Open(signature, ScopeType::Block))
        },
        OpCode::Loop => {
            let signature = ValueType::read_signature(reader)?;
            Ok(Instr::Open(signature, ScopeType::Loop))
        },
        OpCode::If => {
            let signature = ValueType::read_signature(reader)?;
            Ok(Instr::Open(signature, ScopeType::IfElse))
        },
        OpCode::Else => Ok(Instr::Else),
        OpCode::End => Ok(Instr::End),
        OpCode::BrTable => {
            let depth_table = reader.load_array_varu32()?;
            let default = reader.load_imm_varuint32()?;
            Ok(Instr::Plain(Op::BrTable(depth_table, default)))
        },
        OpCode::CallIndirect => {
            let type_idx = reader.load_imm_varuint32()?;
            let table_idx = reader.load_imm_varuint32()?;
            Ok(Instr::Plain(Op::CallIndirect(type_idx, table_idx)))
        },
        OpCode::CurrentMemorySize | OpCode::GrowMemory => {
            let reserved = reader.load_imm_u8()?;
            if reserved != 0x00 {
                return Err(
                    DecodeError::FailedToDecode(DecodeFailure::ReservedByteNonZero(reserved)),
                );
            }
            match opcode {
                OpCode::GrowMemory => Ok(Instr::Plain(Op::MemoryGrow)),
                _ => Ok(Instr::Plain(Op::MemorySize)),
            }
        },
        OpCode::I32Const => {
            let value = reader.load_imm_signed_varint32()?;
            Ok(Instr::Plain(Op::I32Const(value)))
        },
        OpCode::I64Const => {
            let value = reader.load_imm_signed_varint64()?;
            Ok(Instr::Plain(Op::I64Const(value)))
        },
        OpCode::F32Const => {
            let value = reader.load_imm_f32()?;
            Ok(Instr::Plain(Op::F32Const(value)))
        },
        OpCode::F64Const => {
            let value = reader.load_imm_f64()?;
            Ok(Instr::Plain(Op::F64Const(value)))
        },
        OpCode::SelectT => {
            let type_count = reader.load_imm_varuint32()?;
            let types = read_type_bytes(reader, type_count)?;
            Ok(Instr::Plain(Op::SelectT(types)))
        },
        OpCode::RefNull => {
            let type_byte = reader.load_imm_u8()?;
            let val_type = ValueType::from_u32(type_byte as u32)?;
            Ok(Instr::Plain(Op::RefNull(val_type)))
        },
        OpCode::FCExtension => {
            let sub = reader.load_imm_varuint32()?;
            match saturating_op(sub) {
                Some(op) => Ok(Instr::Plain(op)),
                None => Err(DecodeError::UnimplementedOpcode(byte, Proposal::BulkMemory)),
            }
        },
        _ => {
            if let Some(proposal) = unimplemented_proposal(opcode) {
                return Err(DecodeError::UnimplementedOpcode(byte, proposal));
            }
            if let Some(max_align) = natural_alignment(opcode) {
                let memarg = read_memarg(reader, max_align)?;
                return match memory_op(opcode, memarg) {
                    Some(op) => Ok(Instr::Plain(op)),
                    None => Err(DecodeError::InvalidOpcode(byte)),
                };
            }
            if let Some(op) = simple_op(opcode) {
                return Ok(Instr::Plain(op));
            }
            let index = reader.load_imm_varuint32()?;
            match index_op(opcode, index) {
                Some(op) => Ok(Instr::Plain(op)),
                None => Err(DecodeError::InvalidOpcode(byte)),
            }
        },
    }
}

/// Reads one instruction.
pub fn decode_instr(reader: &mut LEB128Reader) -> (r: Result<Instr, DecodeError>)
    ensures
        reads_view(
            *old(reader),
            *final(reader),
            r,
            spec_instr(old(reader).bytes(), old(reader).cursor()),
        ),
{
    let byte = reader.load_imm_u8()?;
    match OpCode::from_repr(byte) {
        Some(opcode) => read_operands(reader, byte, opcode),
        None => Err(DecodeError::InvalidOpcode(byte)),
    }
}

/// What an instruction does to the open scopes and to the operations
/// decoded so far. `block`, `loop` and `if` open a scope and leave a
/// `StartScope`, `if` an `If` after it; `end` closes the innermost scope and
/// leaves its `EndScope`; `else` stands only in an `if`.
pub open spec fn spec_emit(instr: InstrView, scopes: Seq<Scope>, ops: Seq<OpView>) -> Result<
    (Seq<Scope>, Seq<OpView>),
    DecodeError,
> {
    match instr {
        InstrView::Skip => Ok((scopes, ops)),
        InstrView::Open(signature, scope_type) => Ok(
            (
                scopes.push(Scope { scope_type, signature }),
                if scope_type == ScopeType::IfElse {
                    ops.push(OpView::StartScope(signature, scope_type)).push(OpView::If)
                } else {
                    ops.push(OpView::StartScope(signature, scope_type))
                },
            ),
        ),
        InstrView::Else => if scopes.len() > 0 && scopes.last().scope_type == ScopeType::IfElse {
            Ok((scopes, ops.push(OpView::Else)))
        } else {
            Err(DecodeError::FailedToDecode(DecodeFailure::ElseWithoutIf))
        },
        InstrView::End => if scopes.len() > 0 {
            Ok((scopes.drop_last(), ops.push(OpView::EndScope(scopes.last().scope_type))))
        } else {
            Err(DecodeError::FailedToDecode(DecodeFailure::EndWithoutScope))
        },
        InstrView::Plain(op) => Ok((scopes, ops.push(op))),
    }
}

/// The operations that the bytes from `pos` on decode to, after `ops`, with
/// `scopes` open.
pub open spec fn spec_decode_from(s: Seq<u8>, pos: int, scopes: Seq<Scope>, ops: Seq<OpView>) -> Result<
    Seq<OpView>,
    DecodeError,
>
    decreases s.len() - pos,
{
    if pos >= s.len() {
        Ok(ops)
    } else {
        proof {
            lemma_instr_advances(s, pos);
        }
        match spec_instr(s, pos) {
            Ok((instr, next)) => match spec_emit(instr, scopes, ops) {
                Ok((scopes_after, ops_after)) => spec_decode_from(s, next, scopes_after, ops_after),
                Err(e) => Err(e),
            },
            Err(e) => Err(e),
        }
    }
}

/// The operations that a function body decodes to. The body is an implicit
/// scope of its own, which its last `end` closes.
pub open spec fn spec_decode(s: Seq<u8>) -> Result<Seq<OpView>, DecodeError> {
    spec_decode_from(
        s,
        0,
        seq![
            Scope {
                scope_type: ScopeType::Program,
                signature: TypeSignature::ValueType(ValueType::Unit),
            },
        ],
        Seq::empty(),
    )
}

/// Decodes a function body, from where its opcodes begin. The local and
/// return types are left empty.
pub fn decode(program_stream: &[u8]) -> (r: Result<Program, DecodeError>)
    ensures
        match spec_decode(program_stream@) {
            Ok(ops) => r is Ok && r->Ok_0@ == (ProgramView {
                ops,
                local_types: Seq::empty(),
                return_types: Seq::empty(),
            }),
            Err(e) => r == Err::<Program, DecodeError>(e),
        },
{
    let mut prg = Program::new();
    let mut reader = LEB128Reader::new(program_stream, 0);
    let mut scope_stack: Vec<Scope> = Vec::new();
    scope_stack.push(mk_program());
    assert(scope_stack@ =~= seq![
        Scope {
            scope_type: ScopeType::Program,
            signature: TypeSignature::ValueType(ValueType::Unit),
        },
    ]);
    assert(prg@.ops =~= Seq::empty());
    assert(prg@.local_types =~= Seq::empty());
    assert(prg@.return_types =~= Seq::empty());
    while reader.has_more()
        invariant
            reader.bytes() == program_stream@,
            reader.cursor() <= program_stream@.len(),
            prg@.local_types == Seq::<ValueType>::empty(),
            prg@.return_types == Seq::<ValueType>::empty(),
            spec_decode(program_stream@) == spec_decode_from(
                program_stream@,
                reader.cursor(),
                scope_stack@,
                prg@.ops,
            ),
        decreases program_stream@.len() - reader.cursor(),
    {
        proof {
            lemma_instr_advances(reader.bytes(), reader.cursor());
        }
        let instr = decode_instr(&mut reader)?;
        match instr {
            Instr::Skip => {},
            Instr::Open(signature, scope_type) => {
                let scope = match scope_type {
                    ScopeType::Block => mk_block(signature),
                    ScopeType::Loop => mk_loop(signature),
                    ScopeType::IfElse => mk_if_else(signature),
                    _ => Scope { scope_type, signature },
                };
                scope_stack.push(scope);
                prg.push(Op::StartScope(signature, scope_type));
                match scope_type {
                    ScopeType::IfElse => {
                        prg.push(Op::If);
                    },
                    _ => {},
                }
            },
            Instr::Else => {
                if scope_stack.len() == 0 {
                    return Err(DecodeError::FailedToDecode(DecodeFailure::ElseWithoutIf));
                }
                match scope_stack[scope_stack.len() - 1].scope_type {
                    ScopeType::IfElse => {},
                    _ => {
                        return Err(DecodeError::FailedToDecode(DecodeFailure::ElseWithoutIf));
                    },
                }
                prg.push(Op::Else);
            },
            Instr::End => {
                match scope_stack.pop() {
                    Some(scope) => {
                        prg.push(Op::EndScope(scope.scope_type));
                    },
                    None => {
                        return Err(DecodeError::FailedToDecode(DecodeFailure::EndWithoutScope));
                    },
                }
            },
            Instr::Plain(op) => {
                prg.push(op);
            },
        }
    }
    Ok(prg)
}

/// What the scanner sees of an instruction.
#[derive(Debug, Clone, Copy, PartialEq, Eq)]
pub enum Mark {
    /// `block`, `loop` or `if`.
    Open(ScopeType),
    Else,
    End,
    /// Any other instruction.
    Other,
}

/// A reading that the scanner passes over: its position, under `mark`.
pub open spec fn spec_passed<T>(r: Result<(T, int), DecodeError>, mark: Mark) -> Result<
    (Mark, int),
    DecodeError,
> {
    match r {
        Ok((_, p)) => Ok((mark, p)),
        Err(e) => Err(e),
    }
}

/// The alignment hint and the offset of a load or store as the scanner
/// passes over them: two unsigned LEB128 integers, whatever they say.
pub open spec fn spec_skip_memarg(s: Seq<u8>, pos: int) -> Result<(u64, int), DecodeError> {
    match spec_varuint32(s, pos) {
        Ok((_, p)) => spec_varuint64(s, p),
        Err(e) => Err(e),
    }
}

/// What follows the opcode `opcode`, whose byte was `byte`, from `p` on, as
/// the scanner passes over it: the immediates have their lengths, and
/// nothing is asked of what they say. Only an opcode whose immediates are
/// not known stops the scanner.
pub open spec fn spec_skip_operands(s: Seq<u8>, p: int, byte: u8, opcode: OpCode) -> Result<
    (Mark, int),
    DecodeError,
> {
    match opcode {
        OpCode::Unreachable => Ok((Mark::Other, p)),
        OpCode::Block => spec_passed(spec_varuint32(s, p), Mark::Open(ScopeType::Block)),
        OpCode::Loop => spec_passed(spec_varuint32(s, p), Mark::Open(ScopeType::Loop)),
        OpCode::If => spec_passed(spec_varuint32(s, p), Mark::Open(ScopeType::IfElse)),
        OpCode::Else => Ok((Mark::Else, p)),
        OpCode::End => Ok((Mark::End, p)),
        OpCode::BrTable => match spec_array_varu32(s, p) {
            Ok((_, q)) => spec_passed(spec_varuint32(s, q), Mark::Other),
            Err(e) => Err(e),
        },
        OpCode::CallIndirect => match spec_varuint32(s, p) {
            Ok((_, q)) => spec_passed(spec_varuint32(s, q), Mark::Other),
            Err(e) => Err(e),
        },
        OpCode::CurrentMemorySize | OpCode::GrowMemory | OpCode::RefNull => spec_passed(
            spec_u8(s, p),
            Mark::Other,
        ),
        OpCode::I32Const => spec_passed(spec_signed_varint32(s, p), Mark::Other),
        OpCode::I64Const => spec_passed(spec_signed_varint64(s, p), Mark::Other),
        OpCode::F32Const => spec_passed(spec_fixed32(s, p), Mark::Other),
        OpCode::F64Const => spec_passed(spec_fixed64(s, p), Mark::Other),
        OpCode::SelectT => spec_passed(spec_data(s, p), Mark::Other),
        OpCode::FCExtension => match spec_varuint32(s, p) {
            Ok((sub, q)) => if spec_saturating_op(sub) is Some {
                Ok((Mark::Other, q))
            } else {
                Err(DecodeError::UnimplementedOpcode(byte, Proposal::BulkMemory))
            },
            Err(e) => Err(e),
        },
        _ => match spec_unimplemented(opcode) {
            Some(proposal) => Err(DecodeError::UnimplementedOpcode(byte, proposal)),
            None => if spec_natural_alignment(opcode) is Some {
                spec_passed(spec_skip_memarg(s, p), Mark::Other)
            } else if spec_simple_op(opcode) is Some {
                Ok((Mark::Other, p))
            } else if spec_index_op(opcode, 0) is Some {
                spec_passed(spec_varuint32(s, p), Mark::Other)
            } else {
                Err(DecodeError::InvalidOpcode(byte))
            },
        },
    }
}

/// The instruction at `pos` as the scanner passes over it, and the
/// position after it.
pub open spec fn spec_skip_instr(s: Seq<u8>, pos: int) -> Result<(Mark, int), DecodeError> {
    match spec_u8(s, pos) {
        Ok((byte, p)) => match OpCode::spec_from_repr(byte) {
            Some(opcode) => spec_skip_operands(s, p, byte, opcode),
            None => Err(DecodeError::InvalidOpcode(byte)),
        },
        Err(e) => Err(e),
    }
}

/// An instruction that the scanner passes over ends after its start and
/// within the bytes; an `end` is the single byte 0x0B.
pub proof fn lemma_skip_advances(s: Seq<u8>, pos: int)
    ensures
        spec_skip_instr(s, pos) matches Ok((mark, p)) ==> pos < p <= s.len() && (mark is End ==> p
            == pos + 1 && s[pos] == 0x0b),
{
    if 0 <= pos < s.len() {
        let p = pos + 1;
        lemma_varuint_advances(s, p);
        match spec_varuint32(s, p) {
            Ok((n, q)) => {
                lemma_varuint_advances(s, q);
                lemma_items_varu32_advance(s, q, n as nat, Seq::empty());
                match spec_items_varu32(s, q, n as nat, Seq::empty()) {
                    Ok((_, r)) => lemma_varuint_advances(s, r),
                    Err(_) => {},
                }
            },
            Err(_) => {},
        }
    }
}

/// Passes over what follows an opcode.
fn skip_operands(reader: &mut LEB128Reader, byte: u8, opcode: OpCode) -> (r: Result<
    Mark,
    DecodeError,
>)
    ensures
        reads(
            *old(reader),
            *final(reader),
            r,
            spec_skip_operands(old(reader).bytes(), old(reader).cursor(), byte, opcode),
        ),
{
    match opcode {
        OpCode::Unreachable => Ok(Mark::Other),
        OpCode::Block => {
            reader.load_imm_varuint32()?;
            Ok(Mark::Open(ScopeType::Block))
        },
        OpCode::Loop => {
            reader.load_imm_varuint32()?;
            Ok(Mark::Open(ScopeType::Loop))
        },
        OpCode::If => {
            reader.load_imm_varuint32()?;
            Ok(Mark::Open(ScopeType::IfElse))
        },
        OpCode::Else => Ok(Mark::Else),
        OpCode::End => Ok(Mark::End),
        OpCode::BrTable => {
            reader.load_array_varu32()?;
            reader.load_imm_varuint32()?;
            Ok(Mark::Other)
        },
        OpCode::CallIndirect => {
            reader.load_imm_varuint32()?;
            reader.load_imm_varuint32()?;
            Ok(Mark::Other)
        },
        OpCode::CurrentMemorySize | OpCode::GrowMemory | OpCode::RefNull => {
            reader.load_imm_u8()?;
            Ok(Mark::Other)
        },
        OpCode::I32Const => {
            reader.load_imm_signed_varint32()?;
            Ok(Mark::Other)
        },
        OpCode::I64Const => {
            reader.load_imm_signed_varint64()?;
            Ok(Mark::Other)
        },
        OpCode::F32Const => {
            reader.load_imm_f32()?;
            Ok(Mark::Other)
        },
        OpCode::F64Const => {
            reader.load_imm_f64()?;
            Ok(Mark::Other)
        },
        OpCode::SelectT => {
            reader.load_data()?;
            Ok(Mark::Other)
        },
        OpCode::FCExtension => {
            let sub = reader.load_imm_varuint32()?;
            match saturating_op(sub) {
                Some(_) => Ok(Mark::Other),
                None => Err(DecodeError::UnimplementedOpcode(byte, Proposal::BulkMemory)),
            }
        },
        _ => {
            if let Some(proposal) = unimplemented_proposal(opcode) {
                return Err(DecodeError::UnimplementedOpcode(byte, proposal));
            }
            if natural_alignment(opcode).is_some() {
                reader.load_imm_varuint32()?;
                reader.load_imm_varuint64()?;
                return Ok(Mark::Other);
            }
            if simple_op(opcode).is_some() {
                return Ok(Mark::Other);
            }
            if index_op(opcode, 0).is_some() {
                reader.load_imm_varuint32()?;
                return Ok(Mark::Other);
            }
            Err(DecodeError::InvalidOpcode(byte))
        },
    }
}

/// Passes over one instruction.
pub fn skip_instr(reader: &mut LEB128Reader) -> (r: Result<Mark, DecodeError>)
    ensures
        reads(
            *old(reader),
            *final(reader),
            r,
            spec_skip_instr(old(reader).bytes(), old(reader).cursor()),
        ),
{
    let byte = reader.load_imm_u8()?;
    match OpCode::from_repr(byte) {
        Some(opcode) => skip_operands(reader, byte, opcode),
        None => Err(DecodeError::InvalidOpcode(byte)),
    }
}

/// The position after the `end` that closes the expression which starts at
/// `pos`, with `scopes` open inside it. `block`, `loop` and `if` open a
/// scope and `end` closes one; an `else` stands only in an `if`.
pub open spec fn spec_scan_from(s: Seq<u8>, pos: int, scopes: Seq<ScopeType>) -> Result<
    int,
    DecodeError,
>
    decreases s.len() - pos,
{
    proof {
        lemma_skip_advances(s, pos);
    }
    match spec_skip_instr(s, pos) {
        Ok((mark, next)) => match mark {
            Mark::Open(scope_type) => spec_scan_from(s, next, scopes.push(scope_type)),
            Mark::Else => if scopes.len() > 0 && scopes.last() == ScopeType::IfElse {
                spec_scan_from(s, next, scopes)
            } else {
                Err(DecodeError::FailedToDecode(DecodeFailure::ElseWithoutIf))
            },
            Mark::End => if scopes.len() == 0 {
                Ok(next)
            } else {
                spec_scan_from(s, next, scopes.drop_last())
            },
            Mark::Other => spec_scan_from(s, next, scopes),
        },
        Err(e) => Err(e),
    }
}

/// The position after the `end` that closes the expression which starts at
/// `pos`.
pub open spec fn spec_scan(s: Seq<u8>, pos: int) -> Result<(usize, int), DecodeError> {
    match spec_scan_from(s, pos, Seq::empty()) {
        Ok(p) => Ok((p as usize, p)),
        Err(e) => Err(e),
    }
}

/// A scan ends after its start and within the bytes, behind the byte 0x0B.
pub proof fn lemma_scan_ends(s: Seq<u8>, pos: int, scopes: Seq<ScopeType>)
    ensures
        spec_scan_from(s, pos, scopes) matches Ok(p) ==> 0 <= pos < p <= s.len() && s[p - 1]
            == 0x0b,
    decreases s.len() - pos,
{
    lemma_skip_advances(s, pos);
    match spec_skip_instr(s, pos) {
        Ok((mark, next)) => match mark {
            Mark::Open(scope_type) => lemma_scan_ends(s, next, scopes.push(scope_type)),
            Mark::Else => if scopes.len() > 0 && scopes.last() == ScopeType::IfElse {
                lemma_scan_ends(s, next, scopes)
            },
            Mark::End => if scopes.len() > 0 {
                lemma_scan_ends(s, next, scopes.drop_last())
            },
            Mark::Other => lemma_scan_ends(s, next, scopes),
        },
        Err(e) => {},
    }
}

/// An instruction is passed over in the same way wherever its bytes
/// stand.
pub proof fn lemma_skip_follows(s: Seq<u8>, pos: int, t: Seq<u8>, q: int)
    requires
        spec_follows(s, pos, t, q),
        spec_skip_instr(t, q) is Ok,
    ensures
        spec_skip_instr(s, pos) == Ok::<(Mark, int), DecodeError>(
            (spec_skip_instr(t, q)->Ok_0.0, pos + (spec_skip_instr(t, q)->Ok_0.1 - q)),
        ),
        q < spec_skip_instr(t, q)->Ok_0.1 <= t.len(),
{
    lemma_readers_follow(s, pos, t, q);
    let a = q + 1;
    let b = pos + 1;
    lemma_follows_on(s, pos, t, q, a);
    lemma_readers_follow(s, b, t, a);
    match spec_varuint32(t, a) {
        Ok((n, r)) => {
            lemma_follows_on(s, b, t, a, r);
            lemma_readers_follow(s, b + (r - a), t, r);
            if spec_items_varu32(t, r, n as nat, Seq::empty()) is Ok {
                lemma_items_follow(s, b + (r - a), t, r, n as nat, Seq::empty());
                let u = spec_items_varu32(t, r, n as nat, Seq::empty())->Ok_0.1;
                lemma_follows_on(s, b, t, a, u);
                lemma_readers_follow(s, b + (u - a), t, u);
            }
        },
        Err(_) => {},
    }
}

/// An expression is scanned in the same way wherever its bytes stand.
pub proof fn lemma_scan_follows(s: Seq<u8>, pos: int, t: Seq<u8>, q: int, scopes: Seq<ScopeType>)
    requires
        spec_follows(s, pos, t, q),
        spec_scan_from(t, q, scopes) is Ok,
    ensures
        spec_scan_from(s, pos, scopes) == Ok::<int, DecodeError>(
            pos + (spec_scan_from(t, q, scopes)->Ok_0 - q),
        ),
    decreases t.len() - q,
{
    lemma_skip_follows(s, pos, t, q);
    lemma_skip_advances(t, q);
    match spec_skip_instr(t, q) {
        Ok((mark, next)) => {
            lemma_follows_on(s, pos, t, q, next);
            let there = pos + (next - q);
            match mark {
                Mark::Open(scope_type) => lemma_scan_follows(
                    s,
                    there,
                    t,
                    next,
                    scopes.push(scope_type),
                ),
                Mark::Else => lemma_scan_follows(s, there, t, next, scopes),
                Mark::End => if scopes.len() > 0 {
                    lemma_scan_follows(s, there, t, next, scopes.drop_last());
                },
                Mark::Other => lemma_scan_follows(s, there, t, next, scopes),
            }
        },
        Err(_) => {},
    }
}

/// Passes over the instructions up to the `end` that closes the expression
/// under the cursor, and gives the position after it. The immediates of an
/// instruction are passed over by their lengths: what they say is the
/// decoder's to judge.
pub fn scan(reader: &mut LEB128Reader) -> (r: Result<usize, DecodeError>)
    ensures
        reads(*old(reader), *final(reader), r, spec_scan(old(reader).bytes(), old(reader).cursor())),
{
    let mut scope_stack: Vec<ScopeType> = Vec::new();
    loop
        invariant
            reader.bytes() == old(reader).bytes(),
            spec_scan_from(old(reader).bytes(), old(reader).cursor(), Seq::empty())
                == spec_scan_from(reader.bytes(), reader.cursor(), scope_stack@),
        decreases reader.bytes().len() - reader.cursor(),
    {
        proof {
            lemma_skip_advances(reader.bytes(), reader.cursor());
        }
        let mark = skip_instr(reader)?;
        match mark {
            Mark::Open(scope_type) => {
                scope_stack.push(scope_type);
            },
            Mark::Else => {
                if scope_stack.len() == 0 {
                    return Err(DecodeError::FailedToDecode(DecodeFailure::ElseWithoutIf));
                }
                match scope_stack[scope_stack.len() - 1] {
                    ScopeType::IfElse => {},
                    _ => {
                        return Err(DecodeError::FailedToDecode(DecodeFailure::ElseWithoutIf));
                    },
                }
            },
            Mark::End => {
                if scope_stack.len() == 0 {
                    return Ok(reader.position());
                }
                scope_stack.pop();
            },
            Mark::Other => {},
        }
    }
}

impl Malformed {
    /// The rule that the bytes break.
    pub open spec fn spec_message(self) -> Seq<char> {
        match self {
            Malformed::UnexpectedEnd => "unexpected end of section or function"@,
            Malformed::IntegerTooLong => "integer representation too long"@,
            Malformed::IntegerTooLarge => "integer too large"@,
            Malformed::InvalidString => "malformed UTF-8 encoding"@,
            Malformed::OffsetTooLarge => "Offset too large"@,
            Malformed::InvalidAlignment => "Invalid alignment"@,
            Malformed::LimitsTooLarge => "Memory limits are too large"@,
            Malformed::MaximumBelowMinimum => "Maximum memory size is less than minimum"@,
        }
    }

    /// The rule that the bytes break.
    pub fn message(&self) -> (r: String)
        ensures
            r@ == self.spec_message(),
    {
        match self {
            Malformed::UnexpectedEnd => "unexpected end of section or function".to_owned(),
            Malformed::IntegerTooLong => "integer representation too long".to_owned(),
            Malformed::IntegerTooLarge => "integer too large".to_owned(),
            Malformed::InvalidString => "malformed UTF-8 encoding".to_owned(),
            Malformed::OffsetTooLarge => "Offset too large".to_owned(),
            Malformed::InvalidAlignment => "Invalid alignment".to_owned(),
            Malformed::LimitsTooLarge => "Memory limits are too large".to_owned(),
            Malformed::MaximumBelowMinimum => "Maximum memory size is less than minimum".to_owned(),
        }
    }
}

impl DecodeFailure {
    /// The rule that the module or the body breaks.
    pub open spec fn spec_message(self) -> Seq<char> {
        match self {
            DecodeFailure::InvalidFunctionTypeMarker(_) => "Invalid function type marker"@,
            DecodeFailure::TooManyLocals => "Too many locals in a function"@,
            DecodeFailure::UnsupportedElementKind(_) => "Unsupported element kind"@,
            DecodeFailure::UnsupportedElementFlags(_) => "Unsupported element segment flags"@,
            DecodeFailure::SectionLengthMismatch => "Section length mismatch"@,
            DecodeFailure::SectionOutOfOrder => "Section out of order"@,
            DecodeFailure::CodeSizeMismatch => "Function body shorter than its locals"@,
            DecodeFailure::FunctionCodeMismatch => "Code section length does not match function section length"@,
            DecodeFailure::DataCountMismatch => "Data count does not match the number of data segments"@,
            DecodeFailure::ReservedByteNonZero(_) => "Reserved byte must be zero"@,
            DecodeFailure::ElseWithoutIf => "Else without If"@,
            DecodeFailure::EndWithoutScope => "End without block"@,
        }
    }

    /// The rule that the module or the body breaks.
    pub fn message(&self) -> (r: String)
        ensures
            r@ == self.spec_message(),
    {
        match self {
            DecodeFailure::InvalidFunctionTypeMarker(_) => "Invalid function type marker".to_owned(),
            DecodeFailure::TooManyLocals => "Too many locals in a function".to_owned(),
            DecodeFailure::UnsupportedElementKind(_) => "Unsupported element kind".to_owned(),
            DecodeFailure::UnsupportedElementFlags(_) => "Unsupported element segment flags".to_owned(),
            DecodeFailure::SectionLengthMismatch => "Section length mismatch".to_owned(),
            DecodeFailure::SectionOutOfOrder => "Section out of order".to_owned(),
            DecodeFailure::CodeSizeMismatch => "Function body shorter than its locals".to_owned(),
            DecodeFailure::FunctionCodeMismatch => "Code section length does not match function section length".to_owned(),
            DecodeFailure::DataCountMismatch => "Data count does not match the number of data segments".to_owned(),
            DecodeFailure::ReservedByteNonZero(_) => "Reserved byte must be zero".to_owned(),
            DecodeFailure::ElseWithoutIf => "Else without If".to_owned(),
            DecodeFailure::EndWithoutScope => "End without block".to_owned(),
        }
    }
}

impl Proposal {
    /// What is said of an opcode of the proposal.
    pub open spec fn spec_message(self) -> Seq<char> {
        match self {
            Proposal::Exceptions => "Exceptions proposal not supported"@,
            Proposal::ExceptionHandling => "Exception handling proposal not supported"@,
            Proposal::TypedFunctionReferences => "Typed function references proposal not supported"@,
            Proposal::ReferenceTypes => "Reference types proposal not supported"@,
            Proposal::BulkMemory => "Bulk memory proposal not supported"@,
            Proposal::Simd => "SIMD proposal not supported"@,
            Proposal::GarbageCollection => "Garbage collection proposal not supported"@,
            Proposal::Threads => "Threads proposal not supported"@,
        }
    }

    /// What is said of an opcode of the proposal.
    pub fn message(&self) -> (r: String)
        ensures
            r@ == self.spec_message(),
    {
        match self {
            Proposal::Exceptions => "Exceptions proposal not supported".to_owned(),
            Proposal::ExceptionHandling => "Exception handling proposal not supported".to_owned(),
            Proposal::TypedFunctionReferences => "Typed function references proposal not supported".to_owned(),
            Proposal::ReferenceTypes => "Reference types proposal not supported".to_owned(),
            Proposal::BulkMemory => "Bulk memory proposal not supported".to_owned(),
            Proposal::Simd => "SIMD proposal not supported".to_owned(),
            Proposal::GarbageCollection => "Garbage collection proposal not supported".to_owned(),
            Proposal::Threads => "Threads proposal not supported".to_owned(),
        }
    }
}

impl DecodeError {
    /// The text of the error, without the numbers that it carries.
    pub open spec fn spec_message(self) -> Seq<char> {
        match self {
            DecodeError::InvalidOpcode(_) => "Invalid opcode"@,
            DecodeError::InvalidSignature(_) => "Invalid signature"@,
            DecodeError::InvalidDataSegmentType(_) => "Invalid data segment type"@,
            DecodeError::UnsupportedType(_) => "Unsupported type"@,
            DecodeError::UnimplementedOpcode(_, e) => e.spec_message(),
            DecodeError::FailedToDecode(e) => e.spec_message(),
            DecodeError::MalformedMemory(e) => e.spec_message(),
        }
    }

    /// The text of the error, without the numbers that it carries.
    pub fn message(&self) -> (r: String)
        ensures
            r@ == self.spec_message(),
    {
        match self {
            DecodeError::InvalidOpcode(_) => "Invalid opcode".to_owned(),
            DecodeError::InvalidSignature(_) => "Invalid signature".to_owned(),
            DecodeError::InvalidDataSegmentType(_) => "Invalid data segment type".to_owned(),
            DecodeError::UnsupportedType(_) => "Unsupported type".to_owned(),
            DecodeError::UnimplementedOpcode(_, e) => e.message(),
            DecodeError::FailedToDecode(e) => e.message(),
            DecodeError::MalformedMemory(e) => e.message(),
        }
    }
}

} // verus!
