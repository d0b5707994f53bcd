//! The decoded operations.
use crate::decode::ScopeType;
use crate::{TypeSignature, ValueType};
use vstd::prelude::*;

verus! {

/// The immediate of a load or store: an alignment hint and a byte offset.
#[derive(Clone, Debug, PartialEq, Eq, Copy, Structural)]
pub struct MemArg {
    pub offset: usize,
    pub align: u32,
}

/// A decoded operation: richer than the raw opcode, with its immediates
/// read and the structured control markers resolved.
#[derive(Clone, Debug, PartialEq)]
pub enum Op {
    Nop,
    Unreachable,
    // Control flow
    StartScope(TypeSignature, ScopeType),
    EndScope(ScopeType),
    If,
    Else,
    Br(u32),
    BrIf(u32),
    BrTable(Vec<u32>, u32),
    Return,
    // Calls
    Call(u32),
    CallIndirect(u32, u32),
    Drop,
    Select,
    // Locals and globals
    GetLocal(u32),
    SetLocal(u32),
    TeeLocal(u32),
    GetGlobal(u32),
    SetGlobal(u32),
    // Tables
    TableGet(u32),
    TableSet(u32),
    // Loads
    LoadI32(MemArg),
    LoadI64(MemArg),
    LoadF32(MemArg),
    LoadF64(MemArg),
    Load8SE(MemArg),
    Load8Ze(MemArg),
    Load16Se(MemArg),
    Load16Ze(MemArg),
    Load8I64Se(MemArg),
    Load8I64Ze(MemArg),
    Load16I64Se(MemArg),
    Load16I64Ze(MemArg),
    Load32I64Se(MemArg),
    Load32I64Ze(MemArg),
    // Stores
    StoreI32(MemArg),
    StoreI64(MemArg),
    StoreF32(MemArg),
    StoreF64(MemArg),
    Store8_32(MemArg),
    Store16_32(MemArg),
    Store8_64(MemArg),
    Store16_64(MemArg),
    Store32_64(MemArg),
    // Constants; the floats as their bit patterns
    I32Const(i32),
    I64Const(i64),
    F32Const(u32),
    F64Const(u64),
    // Memory
    MemorySize,
    MemoryGrow,
    // Operations on the stack alone, one for each raw opcode
    I32Eqz,
    I32Eq,
    I32Ne,
    I32LtS,
    I32LtU,
    I32GtS,
    I32GtU,
    I32LeS,
    I32LeU,
    I32GeS,
    I32GeU,
    I64Eqz,
    I64Eq,
    I64Ne,
    I64LtS,
    I64LtU,
    I64GtS,
    I64GtU,
    I64LeS,
    I64LeU,
    I64GeS,
    I64GeU,
    F32Eq,
    F32Ne,
    F32Lt,
    F32Gt,
    F32Le,
    F32Ge,
    F64Eq,
    F64Ne,
    F64Lt,
    F64Gt,
    F64Le,
    F64Ge,
    I32Clz,
    I32Ctz,
    I32Popcnt,
    I32Add,
    I32Sub,
    I32Mul,
    I32DivS,
    I32DivU,
    I32RemS,
    I32RemU,
    I32And,
    I32Or,
    I32Xor,
    I32Shl,
    I32ShrS,
    I32ShrU,
    I32Rotl,
    I32Rotr,
    I64Clz,
    I64Ctz,
    I64Popcnt,
    I64Add,
    I64Sub,
    I64Mul,
    I64DivS,
    I64DivU,
    I64RemS,
    I64RemU,
    I64And,
    I64Or,
    I64Xor,
    I64Shl,
    I64ShrS,
    I64ShrU,
    I64Rotl,
    I64Rotr,
    F32Abs,
    F32Neg,
    F32Ceil,
    F32Floor,
    F32Trunc,
    F32Nearest,
    F32Sqrt,
    F32Add,
    F32Sub,
    F32Mul,
    F32Div,
    F32Min,
    F32Max,
    F32Copysign,
    F64Add,
    F64Sub,
    F64Mul,
    F64Div,
    F64Min,
    F64Max,
    F64Copysign,
    F64Abs,
    F64Neg,
    F64Ceil,
    F64Floor,
    F64Trunc,
    F64Nearest,
    F64Sqrt,
    I32WrapI64,
    I32TruncF32S,
    I32TruncF32U,
    I32TruncF64S,
    I32TruncF64U,
    I64ExtendI32S,
    I64ExtendI32U,
    I64TruncF32S,
    I64TruncF32U,
    I64TruncF64S,
    I64TruncF64U,
    // Saturating conversions from float to integer
    I32TruncSatF32S,
    I32TruncSatF32U,
    I32TruncSatF64S,
    I32TruncSatF64U,
    I64TruncSatF32S,
    I64TruncSatF32U,
    I64TruncSatF64S,
    I64TruncSatF64U,
    F32ConvertI32S,
    F32ConvertI32U,
    F32ConvertI64S,
    F32ConvertI64U,
    F32DemoteF64,
    F64ConvertI32S,
    F64ConvertI32U,
    F64ConvertI64S,
    F64ConvertI64U,
    F64PromoteF32,
    I32ReinterpretF32,
    I64ReinterpretF64,
    F32ReinterpretI32,
    F64ReinterpretI64,
    // Sign extension
    I32Extend8S,
    I32Extend16S,
    I64Extend8S,
    I64Extend16S,
    I64Extend32S,
    // References
    RefNull(ValueType),
    RefFunc(u32),
    RefIsNull,
    RefAsNonNull,
    RefEq,
    SelectT(Vec<ValueType>),
}

/// The mathematical content of an [`Op`].
pub enum OpView {
    Nop,
    Unreachable,
    StartScope(TypeSignature, ScopeType),
    EndScope(ScopeType),
    If,
    Else,
    Br(u32),
    BrIf(u32),
    BrTable(Seq<u32>, u32),
    Return,
    Call(u32),
    CallIndirect(u32, u32),
    Drop,
    Select,
    GetLocal(u32),
    SetLocal(u32),
    TeeLocal(u32),
    GetGlobal(u32),
    SetGlobal(u32),
    TableGet(u32),
    TableSet(u32),
    LoadI32(MemArg),
    LoadI64(MemArg),
    LoadF32(MemArg),
    LoadF64(MemArg),
    Load8SE(MemArg),
    Load8Ze(MemArg),
    Load16Se(MemArg),
    Load16Ze(MemArg),
    Load8I64Se(MemArg),
    Load8I64Ze(MemArg),
    Load16I64Se(MemArg),
    Load16I64Ze(MemArg),
    Load32I64Se(MemArg),
    Load32I64Ze(MemArg),
    StoreI32(MemArg),
    StoreI64(MemArg),
    StoreF32(MemArg),
    StoreF64(MemArg),
    Store8_32(MemArg),
    Store16_32(MemArg),
    Store8_64(MemArg),
    Store16_64(MemArg),
    Store32_64(MemArg),
    I32Const(i32),
    I64Const(i64),
    F32Const(u32),
    F64Const(u64),
    MemorySize,
    MemoryGrow,
    I32Eqz,
    I32Eq,
    I32Ne,
    I32LtS,
    I32LtU,
    I32GtS,
    I32GtU,
    I32LeS,
    I32LeU,
    I32GeS,
    I32GeU,
    I64Eqz,
    I64Eq,
    I64Ne,
    I64LtS,
    I64LtU,
    I64GtS,
    I64GtU,
    I64LeS,
    I64LeU,
    I64GeS,
    I64GeU,
    F32Eq,
    F32Ne,
    F32Lt,
    F32Gt,
    F32Le,
    F32Ge,
    F64Eq,
    F64Ne,
    F64Lt,
    F64Gt,
    F64Le,
    F64Ge,
    I32Clz,
    I32Ctz,
    I32Popcnt,
    I32Add,
    I32Sub,
    I32Mul,
    I32DivS,
    I32DivU,
    I32RemS,
    I32RemU,
    I32And,
    I32Or,
    I32Xor,
    I32Shl,
    I32ShrS,
    I32ShrU,
    I32Rotl,
    I32Rotr,
    I64Clz,
    I64Ctz,
    I64Popcnt,
    I64Add,
    I64Sub,
    I64Mul,
    I64DivS,
    I64DivU,
    I64RemS,
    I64RemU,
    I64And,
    I64Or,
    I64Xor,
    I64Shl,
    I64ShrS,
    I64ShrU,
    I64Rotl,
    I64Rotr,
    F32Abs,
    F32Neg,
    F32Ceil,
    F32Floor,
    F32Trunc,
    F32Nearest,
    F32Sqrt,
    F32Add,
    F32Sub,
    F32Mul,
    F32Div,
    F32Min,
    F32Max,
    F32Copysign,
    F64Add,
    F64Sub,
    F64Mul,
    F64Div,
    F64Min,
    F64Max,
    F64Copysign,
    F64Abs,
    F64Neg,
    F64Ceil,
    F64Floor,
    F64Trunc,
    F64Nearest,
    F64Sqrt,
    I32WrapI64,
    I32TruncF32S,
    I32TruncF32U,
    I32TruncF64S,
    I32TruncF64U,
    I64ExtendI32S,
    I64ExtendI32U,
    I64TruncF32S,
    I64TruncF32U,
    I64TruncF64S,
    I64TruncF64U,
    I32TruncSatF32S,
    I32TruncSatF32U,
    I32TruncSatF64S,
    I32TruncSatF64U,
    I64TruncSatF32S,
    I64TruncSatF32U,
    I64TruncSatF64S,
    I64TruncSatF64U,
    F32ConvertI32S,
    F32ConvertI32U,
    F32ConvertI64S,
    F32ConvertI64U,
    F32DemoteF64,
    F64ConvertI32S,
    F64ConvertI32U,
    F64ConvertI64S,
    F64ConvertI64U,
    F64PromoteF32,
    I32ReinterpretF32,
    I64ReinterpretF64,
    F32ReinterpretI32,
    F64ReinterpretI64,
    I32Extend8S,
    I32Extend16S,
    I64Extend8S,
    I64Extend16S,
    I64Extend32S,
    RefNull(ValueType),
    RefFunc(u32),
    RefIsNull,
    RefAsNonNull,
    RefEq,
    SelectT(Seq<ValueType>),
}

impl View for Op {
    type V = OpView;

    open spec fn view(&self) -> OpView {
        match self {
            Op::Nop => OpView::Nop,
            Op::Unreachable => OpView::Unreachable,
            Op::StartScope(a, b) => OpView::StartScope(*a, *b),
            Op::EndScope(a) => OpView::EndScope(*a),
            Op::If => OpView::If,
            Op::Else => OpView::Else,
            Op::Br(a) => OpView::Br(*a),
            Op::BrIf(a) => OpView::BrIf(*a),
            Op::BrTable(a, b) => OpView::BrTable(a@, *b),
            Op::Return => OpView::Return,
            Op::Call(a) => OpView::Call(*a),
            Op::CallIndirect(a, b) => OpView::CallIndirect(*a, *b),
            Op::Drop => OpView::Drop,
            Op::Select => OpView::Select,
            Op::GetLocal(a) => OpView::GetLocal(*a),
            Op::SetLocal(a) => OpView::SetLocal(*a),
            Op::TeeLocal(a) => OpView::TeeLocal(*a),
            Op::GetGlobal(a) => OpView::GetGlobal(*a),
            Op::SetGlobal(a) => OpView::SetGlobal(*a),
            Op::TableGet(a) => OpView::TableGet(*a),
            Op::TableSet(a) => OpView::TableSet(*a),
            Op::LoadI32(a) => OpView::LoadI32(*a),
            Op::LoadI64(a) => OpView::LoadI64(*a),
            Op::LoadF32(a) => OpView::LoadF32(*a),
            Op::LoadF64(a) => OpView::LoadF64(*a),
            Op::Load8SE(a) => OpView::Load8SE(*a),
            Op::Load8Ze(a) => OpView::Load8Ze(*a),
            Op::Load16Se(a) => OpView::Load16Se(*a),
            Op::Load16Ze(a) => OpView::Load16Ze(*a),
            Op::Load8I64Se(a) => OpView::Load8I64Se(*a),
            Op::Load8I64Ze(a) => OpView::Load8I64Ze(*a),
            Op::Load16I64Se(a) => OpView::Load16I64Se(*a),
            Op::Load16I64Ze(a) => OpView::Load16I64Ze(*a),
            Op::Load32I64Se(a) => OpView::Load32I64Se(*a),
            Op::Load32I64Ze(a) => OpView::Load32I64Ze(*a),
            Op::StoreI32(a) => OpView::StoreI32(*a),
            Op::StoreI64(a) => OpView::StoreI64(*a),
            Op::StoreF32(a) => OpView::StoreF32(*a),
            Op::StoreF64(a) => OpView::StoreF64(*a),
            Op::Store8_32(a) => OpView::Store8_32(*a),
            Op::Store16_32(a) => OpView::Store16_32(*a),
            Op::Store8_64(a) => OpView::Store8_64(*a),
            Op::Store16_64(a) => OpView::Store16_64(*a),
            Op::Store32_64(a) => OpView::Store32_64(*a),
            Op::I32Const(a) => OpView::I32Const(*a),
            Op::I64Const(a) => OpView::I64Const(*a),
            Op::F32Const(a) => OpView::F32Const(*a),
            Op::F64Const(a) => OpView::F64Const(*a),
            Op::MemorySize => OpView::MemorySize,
            Op::MemoryGrow => OpView::MemoryGrow,
            Op::I32Eqz => OpView::I32Eqz,
            Op::I32Eq => OpView::I32Eq,
            Op::I32Ne => OpView::I32Ne,
            Op::I32LtS => OpView::I32LtS,
            Op::I32LtU => OpView::I32LtU,
            Op::I32GtS => OpView::I32GtS,
            Op::I32GtU => OpView::I32GtU,
            Op::I32LeS => OpView::I32LeS,
            Op::I32LeU => OpView::I32LeU,
            Op::I32GeS => OpView::I32GeS,
            Op::I32GeU => OpView::I32GeU,
            Op::I64Eqz => OpView::I64Eqz,
            Op::I64Eq => OpView::I64Eq,
            Op::I64Ne => OpView::I64Ne,
            Op::I64LtS => OpView::I64LtS,
            Op::I64LtU => OpView::I64LtU,
            Op::I64GtS => OpView::I64GtS,
            Op::I64GtU => OpView::I64GtU,
            Op::I64LeS => OpView::I64LeS,
            Op::I64LeU => OpView::I64LeU,
            Op::I64GeS => OpView::I64GeS,
            Op::I64GeU => OpView::I64GeU,
            Op::F32Eq => OpView::F32Eq,
            Op::F32Ne => OpView::F32Ne,
            Op::F32Lt => OpView::F32Lt,
            Op::F32Gt => OpView::F32Gt,
            Op::F32Le => OpView::F32Le,
            Op::F32Ge => OpView::F32Ge,
            Op::F64Eq => OpView::F64Eq,
            Op::F64Ne => OpView::F64Ne,
            Op::F64Lt => OpView::F64Lt,
            Op::F64Gt => OpView::F64Gt,
            Op::F64Le => OpView::F64Le,
            Op::F64Ge => OpView::F64Ge,
            Op::I32Clz => OpView::I32Clz,
            Op::I32Ctz => OpView::I32Ctz,
            Op::I32Popcnt => OpView::I32Popcnt,
            Op::I32Add => OpView::I32Add,
            Op::I32Sub => OpView::I32Sub,
            Op::I32Mul => OpView::I32Mul,
            Op::I32DivS => OpView::I32DivS,
            Op::I32DivU => OpView::I32DivU,
            Op::I32RemS => OpView::I32RemS,
            Op::I32RemU => OpView::I32RemU,
            Op::I32And => OpView::I32And,
            Op::I32Or => OpView::I32Or,
            Op::I32Xor => OpView::I32Xor,
            Op::I32Shl => OpView::I32Shl,
            Op::I32ShrS => OpView::I32ShrS,
            Op::I32ShrU => OpView::I32ShrU,
            Op::I32Rotl => OpView::I32Rotl,
            Op::I32Rotr => OpView::I32Rotr,
            Op::I64Clz => OpView::I64Clz,
            Op::I64Ctz => OpView::I64Ctz,
            Op::I64Popcnt => OpView::I64Popcnt,
            Op::I64Add => OpView::I64Add,
            Op::I64Sub => OpView::I64Sub,
            Op::I64Mul => OpView::I64Mul,
            Op::I64DivS => OpView::I64DivS,
            Op::I64DivU => OpView::I64DivU,
            Op::I64RemS => OpView::I64RemS,
            Op::I64RemU => OpView::I64RemU,
            Op::I64And => OpView::I64And,
            Op::I64Or => OpView::I64Or,
            Op::I64Xor => OpView::I64Xor,
            Op::I64Shl => OpView::I64Shl,
            Op::I64ShrS => OpView::I64ShrS,
            Op::I64ShrU => OpView::I64ShrU,
            Op::I64Rotl => OpView::I64Rotl,
            Op::I64Rotr => OpView::I64Rotr,
            Op::F32Abs => OpView::F32Abs,
            Op::F32Neg => OpView::F32Neg,
            Op::F32Ceil => OpView::F32Ceil,
            Op::F32Floor => OpView::F32Floor,
            Op::F32Trunc => OpView::F32Trunc,
            Op::F32Nearest => OpView::F32Nearest,
            Op::F32Sqrt => OpView::F32Sqrt,
            Op::F32Add => OpView::F32Add,
            Op::F32Sub => OpView::F32Sub,
            Op::F32Mul => OpView::F32Mul,
            Op::F32Div => OpView::F32Div,
            Op::F32Min => OpView::F32Min,
            Op::F32Max => OpView::F32Max,
            Op::F32Copysign => OpView::F32Copysign,
            Op::F64Add => OpView::F64Add,
            Op::F64Sub => OpView::F64Sub,
            Op::F64Mul => OpView::F64Mul,
            Op::F64Div => OpView::F64Div,
            Op::F64Min => OpView::F64Min,
            Op::F64Max => OpView::F64Max,
            Op::F64Copysign => OpView::F64Copysign,
            Op::F64Abs => OpView::F64Abs,
            Op::F64Neg => OpView::F64Neg,
            Op::F64Ceil => OpView::F64Ceil,
            Op::F64Floor => OpView::F64Floor,
            Op::F64Trunc => OpView::F64Trunc,
            Op::F64Nearest => OpView::F64Nearest,
            Op::F64Sqrt => OpView::F64Sqrt,
            Op::I32WrapI64 => OpView::I32WrapI64,
            Op::I32TruncF32S => OpView::I32TruncF32S,
            Op::I32TruncF32U => OpView::I32TruncF32U,
            Op::I32TruncF64S => OpView::I32TruncF64S,
            Op::I32TruncF64U => OpView::I32TruncF64U,
            Op::I64ExtendI32S => OpView::I64ExtendI32S,
            Op::I64ExtendI32U => OpView::I64ExtendI32U,
            Op::I64TruncF32S => OpView::I64TruncF32S,
            Op::I64TruncF32U => OpView::I64TruncF32U,
            Op::I64TruncF64S => OpView::I64TruncF64S,
            Op::I64TruncF64U => OpView::I64TruncF64U,
            Op::I32TruncSatF32S => OpView::I32TruncSatF32S,
            Op::I32TruncSatF32U => OpView::I32TruncSatF32U,
            Op::I32TruncSatF64S => OpView::I32TruncSatF64S,
            Op::I32TruncSatF64U => OpView::I32TruncSatF64U,
            Op::I64TruncSatF32S => OpView::I64TruncSatF32S,
            Op::I64TruncSatF32U => OpView::I64TruncSatF32U,
            Op::I64TruncSatF64S => OpView::I64TruncSatF64S,
            Op::I64TruncSatF64U => OpView::I64TruncSatF64U,
            Op::F32ConvertI32S => OpView::F32ConvertI32S,
            Op::F32ConvertI32U => OpView::F32ConvertI32U,
            Op::F32ConvertI64S => OpView::F32ConvertI64S,
            Op::F32ConvertI64U => OpView::F32ConvertI64U,
            Op::F32DemoteF64 => OpView::F32DemoteF64,
            Op::F64ConvertI32S => OpView::F64ConvertI32S,
            Op::F64ConvertI32U => OpView::F64ConvertI32U,
            Op::F64ConvertI64S => OpView::F64ConvertI64S,
            Op::F64ConvertI64U => OpView::F64ConvertI64U,
            Op::F64PromoteF32 => OpView::F64PromoteF32,
            Op::I32ReinterpretF32 => OpView::I32ReinterpretF32,
            Op::I64ReinterpretF64 => OpView::I64ReinterpretF64,
            Op::F32ReinterpretI32 => OpView::F32ReinterpretI32,
            Op::F64ReinterpretI64 => OpView::F64ReinterpretI64,
            Op::I32Extend8S => OpView::I32Extend8S,
            Op::I32Extend16S => OpView::I32Extend16S,
            Op::I64Extend8S => OpView::I64Extend8S,
            Op::I64Extend16S => OpView::I64Extend16S,
            Op::I64Extend32S => OpView::I64Extend32S,
            Op::RefNull(a) => OpView::RefNull(*a),
            Op::RefFunc(a) => OpView::RefFunc(*a),
            Op::RefIsNull => OpView::RefIsNull,
            Op::RefAsNonNull => OpView::RefAsNonNull,
            Op::RefEq => OpView::RefEq,
            Op::SelectT(a) => OpView::SelectT(a@),
        }
    }
}

/// A copy of a list of depths.
pub fn copy_depths(v: &Vec<u32>) -> (r: Vec<u32>)
    ensures
        r@ == v@,
{
    let mut r: Vec<u32> = Vec::new();
    let mut i: usize = 0;
    while i < v.len()
        invariant
            i <= v.len(),
            r@ == v@.subrange(0, i as int),
        decreases v.len() - i,
    {
        r.push(v[i]);
        i = i + 1;
        assert(r@ =~= v@.subrange(0, i as int));
    }
    assert(v@.subrange(0, v.len() as int) =~= v@);
    r
}

/// A copy of a list of value types.
pub fn copy_value_types(v: &Vec<ValueType>) -> (r: Vec<ValueType>)
    ensures
        r@ == v@,
{
    let mut r: Vec<ValueType> = Vec::new();
    let mut i: usize = 0;
    while i < v.len()
        invariant
            i <= v.len(),
            r@ == v@.subrange(0, i as int),
        decreases v.len() - i,
    {
        r.push(v[i]);
        i = i + 1;
        assert(r@ =~= v@.subrange(0, i as int));
    }
    assert(v@.subrange(0, v.len() as int) =~= v@);
    r
}

impl Op {
    /// A copy of the operation.
    pub fn duplicate(&self) -> (r: Op)
        ensures
            r@ == self@,
    {
        match self {
            Op::Nop => Op::Nop,
            Op::Unreachable => Op::Unreachable,
            Op::StartScope(a, b) => Op::StartScope(*a, *b),
            Op::EndScope(a) => Op::EndScope(*a),
            Op::If => Op::If,
            Op::Else => Op::Else,
            Op::Br(a) => Op::Br(*a),
            Op::BrIf(a) => Op::BrIf(*a),
            Op::BrTable(a, b) => Op::BrTable(copy_depths(a), *b),
            Op::Return => Op::Return,
            Op::Call(a) => Op::Call(*a),
            Op::CallIndirect(a, b) => Op::CallIndirect(*a, *b),
            Op::Drop => Op::Drop,
            Op::Select => Op::Select,
            Op::GetLocal(a) => Op::GetLocal(*a),
            Op::SetLocal(a) => Op::SetLocal(*a),
            Op::TeeLocal(a) => Op::TeeLocal(*a),
            Op::GetGlobal(a) => Op::GetGlobal(*a),
            Op::SetGlobal(a) => Op::SetGlobal(*a),
            Op::TableGet(a) => Op::TableGet(*a),
            Op::TableSet(a) => Op::TableSet(*a),
            Op::LoadI32(a) => Op::LoadI32(*a),
            Op::LoadI64(a) => Op::LoadI64(*a),
            Op::LoadF32(a) => Op::LoadF32(*a),
            Op::LoadF64(a) => Op::LoadF64(*a),
            Op::Load8SE(a) => Op::Load8SE(*a),
            Op::Load8Ze(a) => Op::Load8Ze(*a),
            Op::Load16Se(a) => Op::Load16Se(*a),
            Op::Load16Ze(a) => Op::Load16Ze(*a),
            Op::Load8I64Se(a) => Op::Load8I64Se(*a),
            Op::Load8I64Ze(a) => Op::Load8I64Ze(*a),
            Op::Load16I64Se(a) => Op::Load16I64Se(*a),
            Op::Load16I64Ze(a) => Op::Load16I64Ze(*a),
            Op::Load32I64Se(a) => Op::Load32I64Se(*a),
            Op::Load32I64Ze(a) => Op::Load32I64Ze(*a),
            Op::StoreI32(a) => Op::StoreI32(*a),
            Op::StoreI64(a) => Op::StoreI64(*a),
            Op::StoreF32(a) => Op::StoreF32(*a),
            Op::StoreF64(a) => Op::StoreF64(*a),
            Op::Store8_32(a) => Op::Store8_32(*a),
            Op::Store16_32(a) => Op::Store16_32(*a),
            Op::Store8_64(a) => Op::Store8_64(*a),
            Op::Store16_64(a) => Op::Store16_64(*a),
            Op::Store32_64(a) => Op::Store32_64(*a),
            Op::I32Const(a) => Op::I32Const(*a),
            Op::I64Const(a) => Op::I64Const(*a),
            Op::F32Const(a) => Op::F32Const(*a),
            Op::F64Const(a) => Op::F64Const(*a),
            Op::MemorySize => Op::MemorySize,
            Op::MemoryGrow => Op::MemoryGrow,
            Op::I32Eqz => Op::I32Eqz,
            Op::I32Eq => Op::I32Eq,
            Op::I32Ne => Op::I32Ne,
            Op::I32LtS => Op::I32LtS,
            Op::I32LtU => Op::I32LtU,
            Op::I32GtS => Op::I32GtS,
            Op::I32GtU => Op::I32GtU,
            Op::I32LeS => Op::I32LeS,
            Op::I32LeU => Op::I32LeU,
            Op::I32GeS => Op::I32GeS,
            Op::I32GeU => Op::I32GeU,
            Op::I64Eqz => Op::I64Eqz,
            Op::I64Eq => Op::I64Eq,
            Op::I64Ne => Op::I64Ne,
            Op::I64LtS => Op::I64LtS,
            Op::I64LtU => Op::I64LtU,
            Op::I64GtS => Op::I64GtS,
            Op::I64GtU => Op::I64GtU,
            Op::I64LeS => Op::I64LeS,
            Op::I64LeU => Op::I64LeU,
            Op::I64GeS => Op::I64GeS,
            Op::I64GeU => Op::I64GeU,
            Op::F32Eq => Op::F32Eq,
            Op::F32Ne => Op::F32Ne,
            Op::F32Lt => Op::F32Lt,
            Op::F32Gt => Op::F32Gt,
            Op::F32Le => Op::F32Le,
            Op::F32Ge => Op::F32Ge,
            Op::F64Eq => Op::F64Eq,
            Op::F64Ne => Op::F64Ne,
            Op::F64Lt => Op::F64Lt,
            Op::F64Gt => Op::F64Gt,
            Op::F64Le => Op::F64Le,
            Op::F64Ge => Op::F64Ge,
            Op::I32Clz => Op::I32Clz,
            Op::I32Ctz => Op::I32Ctz,
            Op::I32Popcnt => Op::I32Popcnt,
            Op::I32Add => Op::I32Add,
            Op::I32Sub => Op::I32Sub,
            Op::I32Mul => Op::I32Mul,
            Op::I32DivS => Op::I32DivS,
            Op::I32DivU => Op::I32DivU,
            Op::I32RemS => Op::I32RemS,
            Op::I32RemU => Op::I32RemU,
            Op::I32And => Op::I32And,
            Op::I32Or => Op::I32Or,
            Op::I32Xor => Op::I32Xor,
            Op::I32Shl => Op::I32Shl,
            Op::I32ShrS => Op::I32ShrS,
            Op::I32ShrU => Op::I32ShrU,
            Op::I32Rotl => Op::I32Rotl,
            Op::I32Rotr => Op::I32Rotr,
            Op::I64Clz => Op::I64Clz,
            Op::I64Ctz => Op::I64Ctz,
            Op::I64Popcnt => Op::I64Popcnt,
            Op::I64Add => Op::I64Add,
            Op::I64Sub => Op::I64Sub,
            Op::I64Mul => Op::I64Mul,
            Op::I64DivS => Op::I64DivS,
            Op::I64DivU => Op::I64DivU,
            Op::I64RemS => Op::I64RemS,
            Op::I64RemU => Op::I64RemU,
            Op::I64And => Op::I64And,
            Op::I64Or => Op::I64Or,
            Op::I64Xor => Op::I64Xor,
            Op::I64Shl => Op::I64Shl,
            Op::I64ShrS => Op::I64ShrS,
            Op::I64ShrU => Op::I64ShrU,
            Op::I64Rotl => Op::I64Rotl,
            Op::I64Rotr => Op::I64Rotr,
            Op::F32Abs => Op::F32Abs,
            Op::F32Neg => Op::F32Neg,
            Op::F32Ceil => Op::F32Ceil,
            Op::F32Floor => Op::F32Floor,
            Op::F32Trunc => Op::F32Trunc,
            Op::F32Nearest => Op::F32Nearest,
            Op::F32Sqrt => Op::F32Sqrt,
            Op::F32Add => Op::F32Add,
            Op::F32Sub => Op::F32Sub,
            Op::F32Mul => Op::F32Mul,
            Op::F32Div => Op::F32Div,
            Op::F32Min => Op::F32Min,
            Op::F32Max => Op::F32Max,
            Op::F32Copysign => Op::F32Copysign,
            Op::F64Add => Op::F64Add,
            Op::F64Sub => Op::F64Sub,
            Op::F64Mul => Op::F64Mul,
            Op::F64Div => Op::F64Div,
            Op::F64Min => Op::F64Min,
            Op::F64Max => Op::F64Max,
            Op::F64Copysign => Op::F64Copysign,
            Op::F64Abs => Op::F64Abs,
            Op::F64Neg => Op::F64Neg,
            Op::F64Ceil => Op::F64Ceil,
            Op::F64Floor => Op::F64Floor,
            Op::F64Trunc => Op::F64Trunc,
            Op::F64Nearest => Op::F64Nearest,
            Op::F64Sqrt => Op::F64Sqrt,
            Op::I32WrapI64 => Op::I32WrapI64,
            Op::I32TruncF32S => Op::I32TruncF32S,
            Op::I32TruncF32U => Op::I32TruncF32U,
            Op::I32TruncF64S => Op::I32TruncF64S,
            Op::I32TruncF64U => Op::I32TruncF64U,
            Op::I64ExtendI32S => Op::I64ExtendI32S,
            Op::I64ExtendI32U => Op::I64ExtendI32U,
            Op::I64TruncF32S => Op::I64TruncF32S,
            Op::I64TruncF32U => Op::I64TruncF32U,
            Op::I64TruncF64S => Op::I64TruncF64S,
            Op::I64TruncF64U => Op::I64TruncF64U,
            Op::I32TruncSatF32S => Op::I32TruncSatF32S,
            Op::I32TruncSatF32U => Op::I32TruncSatF32U,
            Op::I32TruncSatF64S => Op::I32TruncSatF64S,
            Op::I32TruncSatF64U => Op::I32TruncSatF64U,
            Op::I64TruncSatF32S => Op::I64TruncSatF32S,
            Op::I64TruncSatF32U => Op::I64TruncSatF32U,
            Op::I64TruncSatF64S => Op::I64TruncSatF64S,
            Op::I64TruncSatF64U => Op::I64TruncSatF64U,
            Op::F32ConvertI32S => Op::F32ConvertI32S,
            Op::F32ConvertI32U => Op::F32ConvertI32U,
            Op::F32ConvertI64S => Op::F32ConvertI64S,
            Op::F32ConvertI64U => Op::F32ConvertI64U,
            Op::F32DemoteF64 => Op::F32DemoteF64,
            Op::F64ConvertI32S => Op::F64ConvertI32S,
            Op::F64ConvertI32U => Op::F64ConvertI32U,
            Op::F64ConvertI64S => Op::F64ConvertI64S,
            Op::F64ConvertI64U => Op::F64ConvertI64U,
            Op::F64PromoteF32 => Op::F64PromoteF32,
            Op::I32ReinterpretF32 => Op::I32ReinterpretF32,
            Op::I64ReinterpretF64 => Op::I64ReinterpretF64,
            Op::F32ReinterpretI32 => Op::F32ReinterpretI32,
            Op::F64ReinterpretI64 => Op::F64ReinterpretI64,
            Op::I32Extend8S => Op::I32Extend8S,
            Op::I32Extend16S => Op::I32Extend16S,
            Op::I64Extend8S => Op::I64Extend8S,
            Op::I64Extend16S => Op::I64Extend16S,
            Op::I64Extend32S => Op::I64Extend32S,
            Op::RefNull(a) => Op::RefNull(*a),
            Op::RefFunc(a) => Op::RefFunc(*a),
            Op::RefIsNull => Op::RefIsNull,
            Op::RefAsNonNull => Op::RefAsNonNull,
            Op::RefEq => Op::RefEq,
            Op::SelectT(a) => Op::SelectT(copy_value_types(a)),
        }
    }
}

} // verus!
