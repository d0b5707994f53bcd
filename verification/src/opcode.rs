//! The raw opcodes, as the bytes of the binary format.
use vstd::prelude::*;

verus! {

/// A raw opcode. The decoder turns each into an `Op`.
#[derive(Debug, Clone, Copy, PartialEq, Eq, Structural)]
pub enum OpCode {
    Unreachable,
    Nop,
    Block,
    Loop,
    If,
    Else,
    // Exceptions proposal
    Try,
    Catch,
    Throw,
    Rethrow,
    ThrowRef,
    End,
    Br,
    BrIf,
    BrTable,
    Return,
    // Exception handling proposal
    Delegate,
    CatchAll,
    TryTable,
    Call,
    CallIndirect,
    // Tail calls and typed function references
    ReturnCall,
    ReturnCallIndirect,
    CallRef,
    ReturnCallRef,
    Drop,
    Select,
    // Reference types
    SelectT,
    TableGet,
    TableSet,
    RefNull,
    IsNull,
    RefFunc,
    RefAsNonNull,
    RefEq,
    // Typed function references
    BrOnNull,
    BrOnNonNull,
    GetLocal,
    SetLocal,
    Tee,
    GetGlobal,
    SetGlobal,
    LoadI32,
    LoadI64,
    LoadF32,
    LoadF64,
    Load8Se,
    Load16Se,
    Load8I64Se,
    Load16I64Se,
    Load32I64Se,
    Load8Ze,
    Load8I64Ze,
    Load32I64Ze,
    Load16Ze,
    Load16I64Ze,
    StoreI32,
    StoreI64,
    StoreF32,
    StoreF64,
    Store8_32,
    Store16_32,
    Store8_64,
    Store16_64,
    Store32_64,
    CurrentMemorySize,
    GrowMemory,
    I32Const,
    I64Const,
    F32Const,
    F64Const,
    I32Eqz,
    I32Eq,
    I32Ne,
    I32LtS,
    I32LtU,
    I32GtS,
    I32GtU,
    I32LeS,
    I32LeU,
    I32GeS,
    I32GeU,
    I64Eqz,
    I64Eq,
    I64Ne,
    I64LtS,
    I64LtU,
    I64GtS,
    I64GtU,
    I64LeS,
    I64LeU,
    I64GeS,
    I64GeU,
    F32Eq,
    F32Ne,
    F32Lt,
    F32Gt,
    F32Le,
    F32Ge,
    F64Eq,
    F64Ne,
    F64Lt,
    F64Gt,
    F64Le,
    F64Ge,
    I32Clz,
    I32Ctz,
    I32Popcnt,
    I32Add,
    I32Sub,
    I32Mul,
    I32DivS,
    I32DivU,
    I32RemS,
    I32RemU,
    I32And,
    I32Or,
    I32Xor,
    I32Shl,
    I32ShrS,
    I32ShrU,
    I32Rotl,
    I32Rotr,
    I64Clz,
    I64Ctz,
    I64Popcnt,
    I64Add,
    I64Sub,
    I64Mul,
    I64DivS,
    I64DivU,
    I64RemS,
    I64RemU,
    I64And,
    I64Or,
    I64Xor,
    I64Shl,
    I64ShrS,
    I64ShrU,
    I64Rotl,
    I64Rotr,
    F32Abs,
    F32Neg,
    F32Ceil,
    F32Floor,
    F32Trunc,
    F32Nearest,
    F32Sqrt,
    F32Add,
    F32Sub,
    F32Mul,
    F32Div,
    F32Min,
    F32Max,
    F32Copysign,
    F64Abs,
    F64Neg,
    F64Ceil,
    F64Floor,
    F64Trunc,
    F64Nearest,
    F64Sqrt,
    F64Add,
    F64Sub,
    F64Mul,
    F64Div,
    F64Min,
    F64Max,
    F64Copysign,
    I32WrapI64,
    I32TruncF32S,
    I32TruncF32U,
    I32TruncF64S,
    I32TruncF64U,
    I64ExtendI32S,
    I64ExtendI32U,
    I64TruncF32S,
    I64TruncF32U,
    I64TruncF64S,
    I64TruncF64U,
    F32ConvertI32S,
    F32ConvertI32U,
    F32ConvertI64S,
    F32ConvertI64U,
    F32DemoteF64,
    F64ConvertI32S,
    F64ConvertI32U,
    F64ConvertI64S,
    F64ConvertI64U,
    F64PromoteF32,
    I32ReinterpretF32,
    I64ReinterpretF64,
    F32ReinterpretI32,
    F64ReinterpretI64,
    // Sign-extension operators
    I32Extend8S,
    I32Extend16S,
    I64Extend8S,
    I64Extend16S,
    I64Extend32S,
    // Prefixes of the extension opcode spaces
    GCExtension,
    FCExtension,
    SIMDExtension,
    ThreadsExtension,
}

impl OpCode {
    /// The opcode that a byte stands for, if any.
    pub open spec fn spec_from_repr(value: u8) -> Option<OpCode> {
        match value {
            0x00u8 => Some(OpCode::Unreachable),
            0x01u8 => Some(OpCode::Nop),
            0x02u8 => Some(OpCode::Block),
            0x03u8 => Some(OpCode::Loop),
            0x04u8 => Some(OpCode::If),
            0x05u8 => Some(OpCode::Else),
            0x06u8 => Some(OpCode::Try),
            0x07u8 => Some(OpCode::Catch),
            0x08u8 => Some(OpCode::Throw),
            0x09u8 => Some(OpCode::Rethrow),
            0x0au8 => Some(OpCode::ThrowRef),
            0x0bu8 => Some(OpCode::End),
            0x0cu8 => Some(OpCode::Br),
            0x0du8 => Some(OpCode::BrIf),
            0x0eu8 => Some(OpCode::BrTable),
            0x0fu8 => Some(OpCode::Return),
            0x10u8 => Some(OpCode::Call),
            0x11u8 => Some(OpCode::CallIndirect),
            0x12u8 => Some(OpCode::ReturnCall),
            0x13u8 => Some(OpCode::ReturnCallIndirect),
            0x14u8 => Some(OpCode::CallRef),
            0x15u8 => Some(OpCode::ReturnCallRef),
            0x18u8 => Some(OpCode::Delegate),
            0x19u8 => Some(OpCode::CatchAll),
            0x1au8 => Some(OpCode::Drop),
            0x1bu8 => Some(OpCode::Select),
            0x1cu8 => Some(OpCode::SelectT),
            0x1du8 => Some(OpCode::TryTable),
            0x20u8 => Some(OpCode::GetLocal),
            0x21u8 => Some(OpCode::SetLocal),
            0x22u8 => Some(OpCode::Tee),
            0x23u8 => Some(OpCode::GetGlobal),
            0x24u8 => Some(OpCode::SetGlobal),
            0x25u8 => Some(OpCode::TableGet),
            0x26u8 => Some(OpCode::TableSet),
            0x28u8 => Some(OpCode::LoadI32),
            0x29u8 => Some(OpCode::LoadI64),
            0x2au8 => Some(OpCode::LoadF32),
            0x2bu8 => Some(OpCode::LoadF64),
            0x2cu8 => Some(OpCode::Load8Se),
            0x2du8 => Some(OpCode::Load8Ze),
            0x2eu8 => Some(OpCode::Load16Se),
            0x2fu8 => Some(OpCode::Load16Ze),
            0x30u8 => Some(OpCode::Load8I64Se),
            0x31u8 => Some(OpCode::Load8I64Ze),
            0x32u8 => Some(OpCode::Load16I64Se),
            0x33u8 => Some(OpCode::Load16I64Ze),
            0x34u8 => Some(OpCode::Load32I64Se),
            0x35u8 => Some(OpCode::Load32I64Ze),
            0x36u8 => Some(OpCode::StoreI32),
            0x37u8 => Some(OpCode::StoreI64),
            0x38u8 => Some(OpCode::StoreF32),
            0x39u8 => Some(OpCode::StoreF64),
            0x3au8 => Some(OpCode::Store8_32),
            0x3bu8 => Some(OpCode::Store16_32),
            0x3cu8 => Some(OpCode::Store8_64),
            0x3du8 => Some(OpCode::Store16_64),
            0x3eu8 => Some(OpCode::Store32_64),
            0x3fu8 => Some(OpCode::CurrentMemorySize),
            0x40u8 => Some(OpCode::GrowMemory),
            0x41u8 => Some(OpCode::I32Const),
            0x42u8 => Some(OpCode::I64Const),
            0x43u8 => Some(OpCode::F32Const),
            0x44u8 => Some(OpCode::F64Const),
            0x45u8 => Some(OpCode::I32Eqz),
            0x46u8 => Some(OpCode::I32Eq),
            0x47u8 => Some(OpCode::I32Ne),
            0x48u8 => Some(OpCode::I32LtS),
            0x49u8 => Some(OpCode::I32LtU),
            0x4au8 => Some(OpCode::I32GtS),
            0x4bu8 => Some(OpCode::I32GtU),
            0x4cu8 => Some(OpCode::I32LeS),
            0x4du8 => Some(OpCode::I32LeU),
            0x4eu8 => Some(OpCode::I32GeS),
            0x4fu8 => Some(OpCode::I32GeU),
            0x50u8 => Some(OpCode::I64Eqz),
            0x51u8 => Some(OpCode::I64Eq),
            0x52u8 => Some(OpCode::I64Ne),
            0x53u8 => Some(OpCode::I64LtS),
            0x54u8 => Some(OpCode::I64LtU),
            0x55u8 => Some(OpCode::I64GtS),
            0x56u8 => Some(OpCode::I64GtU),
            0x57u8 => Some(OpCode::I64LeS),
            0x58u8 => Some(OpCode::I64LeU),
            0x59u8 => Some(OpCode::I64GeS),
            0x5au8 => Some(OpCode::I64GeU),
            0x5bu8 => Some(OpCode::F32Eq),
            0x5cu8 => Some(OpCode::F32Ne),
            0x5du8 => Some(OpCode::F32Lt),
            0x5eu8 => Some(OpCode::F32Gt),
            0x5fu8 => Some(OpCode::F32Le),
            0x60u8 => Some(OpCode::F32Ge),
            0x61u8 => Some(OpCode::F64Eq),
            0x62u8 => Some(OpCode::F64Ne),
            0x63u8 => Some(OpCode::F64Lt),
            0x64u8 => Some(OpCode::F64Gt),
            0x65u8 => Some(OpCode::F64Le),
            0x66u8 => Some(OpCode::F64Ge),
            0x67u8 => Some(OpCode::I32Clz),
            0x68u8 => Some(OpCode::I32Ctz),
            0x69u8 => Some(OpCode::I32Popcnt),
            0x6au8 => Some(OpCode::I32Add),
            0x6bu8 => Some(OpCode::I32Sub),
            0x6cu8 => Some(OpCode::I32Mul),
            0x6du8 => Some(OpCode::I32DivS),
            0x6eu8 => Some(OpCode::I32DivU),
            0x6fu8 => Some(OpCode::I32RemS),
            0x70u8 => Some(OpCode::I32RemU),
            0x71u8 => Some(OpCode::I32And),
            0x72u8 => Some(OpCode::I32Or),
            0x73u8 => Some(OpCode::I32Xor),
            0x74u8 => Some(OpCode::I32Shl),
            0x75u8 => Some(OpCode::I32ShrS),
            0x76u8 => Some(OpCode::I32ShrU),
            0x77u8 => Some(OpCode::I32Rotl),
            0x78u8 => Some(OpCode::I32Rotr),
            0x79u8 => Some(OpCode::I64Clz),
            0x7au8 => Some(OpCode::I64Ctz),
            0x7bu8 => Some(OpCode::I64Popcnt),
            0x7cu8 => Some(OpCode::I64Add),
            0x7du8 => Some(OpCode::I64Sub),
            0x7eu8 => Some(OpCode::I64Mul),
            0x7fu8 => Some(OpCode::I64DivS),
            0x80u8 => Some(OpCode::I64DivU),
            0x81u8 => Some(OpCode::I64RemS),
            0x82u8 => Some(OpCode::I64RemU),
            0x83u8 => Some(OpCode::I64And),
            0x84u8 => Some(OpCode::I64Or),
            0x85u8 => Some(OpCode::I64Xor),
            0x86u8 => Some(OpCode::I64Shl),
            0x87u8 => Some(OpCode::I64ShrS),
            0x88u8 => Some(OpCode::I64ShrU),
            0x89u8 => Some(OpCode::I64Rotl),
            0x8au8 => Some(OpCode::I64Rotr),
            0x8bu8 => Some(OpCode::F32Abs),
            0x8cu8 => Some(OpCode::F32Neg),
            0x8du8 => Some(OpCode::F32Ceil),
            0x8eu8 => Some(OpCode::F32Floor),
            0x8fu8 => Some(OpCode::F32Trunc),
            0x90u8 => Some(OpCode::F32Nearest),
            0x91u8 => Some(OpCode::F32Sqrt),
            0x92u8 => Some(OpCode::F32Add),
            0x93u8 => Some(OpCode::F32Sub),
            0x94u8 => Some(OpCode::F32Mul),
            0x95u8 => Some(OpCode::F32Div),
            0x96u8 => Some(OpCode::F32Min),
            0x97u8 => Some(OpCode::F32Max),
            0x98u8 => Some(OpCode::F32Copysign),
            0x99u8 => Some(OpCode::F64Abs),
            0x9au8 => Some(OpCode::F64Neg),
            0x9bu8 => Some(OpCode::F64Ceil),
            0x9cu8 => Some(OpCode::F64Floor),
            0x9du8 => Some(OpCode::F64Trunc),
            0x9eu8 => Some(OpCode::F64Nearest),
            0x9fu8 => Some(OpCode::F64Sqrt),
            0xa0u8 => Some(OpCode::F64Add),
            0xa1u8 => Some(OpCode::F64Sub),
            0xa2u8 => Some(OpCode::F64Mul),
            0xa3u8 => Some(OpCode::F64Div),
            0xa4u8 => Some(OpCode::F64Min),
            0xa5u8 => Some(OpCode::F64Max),
            0xa6u8 => Some(OpCode::F64Copysign),
            0xa7u8 => Some(OpCode::I32WrapI64),
            0xa8u8 => Some(OpCode::I32TruncF32S),
            0xa9u8 => Some(OpCode::I32TruncF32U),
            0xaau8 => Some(OpCode::I32TruncF64S),
            0xabu8 => Some(OpCode::I32TruncF64U),
            0xacu8 => Some(OpCode::I64ExtendI32S),
            0xadu8 => Some(OpCode::I64ExtendI32U),
            0xaeu8 => Some(OpCode::I64TruncF32S),
            0xafu8 => Some(OpCode::I64TruncF32U),
            0xb0u8 => Some(OpCode::I64TruncF64S),
            0xb1u8 => Some(OpCode::I64TruncF64U),
            0xb2u8 => Some(OpCode::F32ConvertI32S),
            0xb3u8 => Some(OpCode::F32ConvertI32U),
            0xb4u8 => Some(OpCode::F32ConvertI64S),
            0xb5u8 => Some(OpCode::F32ConvertI64U),
            0xb6u8 => Some(OpCode::F32DemoteF64),
            0xb7u8 => Some(OpCode::F64ConvertI32S),
            0xb8u8 => Some(OpCode::F64ConvertI32U),
            0xb9u8 => Some(OpCode::F64ConvertI64S),
            0xbau8 => Some(OpCode::F64ConvertI64U),
            0xbbu8 => Some(OpCode::F64PromoteF32),
            0xbcu8 => Some(OpCode::I32ReinterpretF32),
            0xbdu8 => Some(OpCode::I64ReinterpretF64),
            0xbeu8 => Some(OpCode::F32ReinterpretI32),
            0xbfu8 => Some(OpCode::F64ReinterpretI64),
            0xc0u8 => Some(OpCode::I32Extend8S),
            0xc1u8 => Some(OpCode::I32Extend16S),
            0xc2u8 => Some(OpCode::I64Extend8S),
            0xc3u8 => Some(OpCode::I64Extend16S),
            0xc4u8 => Some(OpCode::I64Extend32S),
            0xd0u8 => Some(OpCode::RefNull),
            0xd1u8 => Some(OpCode::IsNull),
            0xd2u8 => Some(OpCode::RefFunc),
            0xd3u8 => Some(OpCode::RefAsNonNull),
            0xd4u8 => Some(OpCode::BrOnNull),
            0xd5u8 => Some(OpCode::RefEq),
            0xd6u8 => Some(OpCode::BrOnNonNull),
            0xfbu8 => Some(OpCode::GCExtension),
            0xfcu8 => Some(OpCode::FCExtension),
            0xfdu8 => Some(OpCode::SIMDExtension),
            0xfeu8 => Some(OpCode::ThreadsExtension),
            _ => None,
        }
    }

    /// The byte that stands for an opcode.
    pub open spec fn spec_repr(self) -> u8 {
        match self {
            OpCode::Unreachable => 0x00,
            OpCode::Nop => 0x01,
            OpCode::Block => 0x02,
            OpCode::Loop => 0x03,
            OpCode::If => 0x04,
            OpCode::Else => 0x05,
            OpCode::Try => 0x06,
            OpCode::Catch => 0x07,
            OpCode::Throw => 0x08,
            OpCode::Rethrow => 0x09,
            OpCode::ThrowRef => 0x0a,
            OpCode::End => 0x0b,
            OpCode::Br => 0x0c,
            OpCode::BrIf => 0x0d,
            OpCode::BrTable => 0x0e,
            OpCode::Return => 0x0f,
            OpCode::Delegate => 0x18,
            OpCode::CatchAll => 0x19,
            OpCode::TryTable => 0x1d,
            OpCode::Call => 0x10,
            OpCode::CallIndirect => 0x11,
            OpCode::ReturnCall => 0x12,
            OpCode::ReturnCallIndirect => 0x13,
            OpCode::CallRef => 0x14,
            OpCode::ReturnCallRef => 0x15,
            OpCode::Drop => 0x1a,
            OpCode::Select => 0x1b,
            OpCode::SelectT => 0x1c,
            OpCode::TableGet => 0x25,
            OpCode::TableSet => 0x26,
            OpCode::RefNull => 0xd0,
            OpCode::IsNull => 0xd1,
            OpCode::RefFunc => 0xd2,
            OpCode::RefAsNonNull => 0xd3,
            OpCode::RefEq => 0xd5,
            OpCode::BrOnNull => 0xd4,
            OpCode::BrOnNonNull => 0xd6,
            OpCode::GetLocal => 0x20,
            OpCode::SetLocal => 0x21,
            OpCode::Tee => 0x22,
            OpCode::GetGlobal => 0x23,
            OpCode::SetGlobal => 0x24,
            OpCode::LoadI32 => 0x28,
            OpCode::LoadI64 => 0x29,
            OpCode::LoadF32 => 0x2a,
            OpCode::LoadF64 => 0x2b,
            OpCode::Load8Se => 0x2c,
            OpCode::Load16Se => 0x2e,
            OpCode::Load8I64Se => 0x30,
            OpCode::Load16I64Se => 0x32,
            OpCode::Load32I64Se => 0x34,
            OpCode::Load8Ze => 0x2d,
            OpCode::Load8I64Ze => 0x31,
            OpCode::Load32I64Ze => 0x35,
            OpCode::Load16Ze => 0x2f,
            OpCode::Load16I64Ze => 0x33,
            OpCode::StoreI32 => 0x36,
            OpCode::StoreI64 => 0x37,
            OpCode::StoreF32 => 0x38,
            OpCode::StoreF64 => 0x39,
            OpCode::Store8_32 => 0x3a,
            OpCode::Store16_32 => 0x3b,
            OpCode::Store8_64 => 0x3c,
            OpCode::Store16_64 => 0x3d,
            OpCode::Store32_64 => 0x3e,
            OpCode::CurrentMemorySize => 0x3f,
            OpCode::GrowMemory => 0x40,
            OpCode::I32Const => 0x41,
            OpCode::I64Const => 0x42,
            OpCode::F32Const => 0x43,
            OpCode::F64Const => 0x44,
            OpCode::I32Eqz => 0x45,
            OpCode::I32Eq => 0x46,
            OpCode::I32Ne => 0x47,
            OpCode::I32LtS => 0x48,
            OpCode::I32LtU => 0x49,
            OpCode::I32GtS => 0x4a,
            OpCode::I32GtU => 0x4b,
            OpCode::I32LeS => 0x4c,
            OpCode::I32LeU => 0x4d,
            OpCode::I32GeS => 0x4e,
            OpCode::I32GeU => 0x4f,
            OpCode::I64Eqz => 0x50,
            OpCode::I64Eq => 0x51,
            OpCode::I64Ne => 0x52,
            OpCode::I64LtS => 0x53,
            OpCode::I64LtU => 0x54,
            OpCode::I64GtS => 0x55,
            OpCode::I64GtU => 0x56,
            OpCode::I64LeS => 0x57,
            OpCode::I64LeU => 0x58,
            OpCode::I64GeS => 0x59,
            OpCode::I64GeU => 0x5a,
            OpCode::F32Eq => 0x5b,
            OpCode::F32Ne => 0x5c,
            OpCode::F32Lt => 0x5d,
            OpCode::F32Gt => 0x5e,
            OpCode::F32Le => 0x5f,
            OpCode::F32Ge => 0x60,
            OpCode::F64Eq => 0x61,
            OpCode::F64Ne => 0x62,
            OpCode::F64Lt => 0x63,
            OpCode::F64Gt => 0x64,
            OpCode::F64Le => 0x65,
            OpCode::F64Ge => 0x66,
            OpCode::I32Clz => 0x67,
            OpCode::I32Ctz => 0x68,
            OpCode::I32Popcnt => 0x69,
            OpCode::I32Add => 0x6a,
            OpCode::I32Sub => 0x6b,
            OpCode::I32Mul => 0x6c,
            OpCode::I32DivS => 0x6d,
            OpCode::I32DivU => 0x6e,
            OpCode::I32RemS => 0x6f,
            OpCode::I32RemU => 0x70,
            OpCode::I32And => 0x71,
            OpCode::I32Or => 0x72,
            OpCode::I32Xor => 0x73,
            OpCode::I32Shl => 0x74,
            OpCode::I32ShrS => 0x75,
            OpCode::I32ShrU => 0x76,
            OpCode::I32Rotl => 0x77,
            OpCode::I32Rotr => 0x78,
            OpCode::I64Clz => 0x79,
            OpCode::I64Ctz => 0x7a,
            OpCode::I64Popcnt => 0x7b,
            OpCode::I64Add => 0x7c,
            OpCode::I64Sub => 0x7d,
            OpCode::I64Mul => 0x7e,
            OpCode::I64DivS => 0x7f,
            OpCode::I64DivU => 0x80,
            OpCode::I64RemS => 0x81,
            OpCode::I64RemU => 0x82,
            OpCode::I64And => 0x83,
            OpCode::I64Or => 0x84,
            OpCode::I64Xor => 0x85,
            OpCode::I64Shl => 0x86,
            OpCode::I64ShrS => 0x87,
            OpCode::I64ShrU => 0x88,
            OpCode::I64Rotl => 0x89,
            OpCode::I64Rotr => 0x8a,
            OpCode::F32Abs => 0x8b,
            OpCode::F32Neg => 0x8c,
            OpCode::F32Ceil => 0x8d,
            OpCode::F32Floor => 0x8e,
            OpCode::F32Trunc => 0x8f,
            OpCode::F32Nearest => 0x90,
            OpCode::F32Sqrt => 0x91,
            OpCode::F32Add => 0x92,
            OpCode::F32Sub => 0x93,
            OpCode::F32Mul => 0x94,
            OpCode::F32Div => 0x95,
            OpCode::F32Min => 0x96,
            OpCode::F32Max => 0x97,
            OpCode::F32Copysign => 0x98,
            OpCode::F64Abs => 0x99,
            OpCode::F64Neg => 0x9a,
            OpCode::F64Ceil => 0x9b,
            OpCode::F64Floor => 0x9c,
            OpCode::F64Trunc => 0x9d,
            OpCode::F64Nearest => 0x9e,
            OpCode::F64Sqrt => 0x9f,
            OpCode::F64Add => 0xa0,
            OpCode::F64Sub => 0xa1,
            OpCode::F64Mul => 0xa2,
            OpCode::F64Div => 0xa3,
            OpCode::F64Min => 0xa4,
            OpCode::F64Max => 0xa5,
            OpCode::F64Copysign => 0xa6,
            OpCode::I32WrapI64 => 0xa7,
            OpCode::I32TruncF32S => 0xa8,
            OpCode::I32TruncF32U => 0xa9,
            OpCode::I32TruncF64S => 0xaa,
            OpCode::I32TruncF64U => 0xab,
            OpCode::I64ExtendI32S => 0xac,
            OpCode::I64ExtendI32U => 0xad,
            OpCode::I64TruncF32S => 0xae,
            OpCode::I64TruncF32U => 0xaf,
            OpCode::I64TruncF64S => 0xb0,
            OpCode::I64TruncF64U => 0xb1,
            OpCode::F32ConvertI32S => 0xb2,
            OpCode::F32ConvertI32U => 0xb3,
            OpCode::F32ConvertI64S => 0xb4,
            OpCode::F32ConvertI64U => 0xb5,
            OpCode::F32DemoteF64 => 0xb6,
            OpCode::F64ConvertI32S => 0xb7,
            OpCode::F64ConvertI32U => 0xb8,
            OpCode::F64ConvertI64S => 0xb9,
            OpCode::F64ConvertI64U => 0xba,
            OpCode::F64PromoteF32 => 0xbb,
            OpCode::I32ReinterpretF32 => 0xbc,
            OpCode::I64ReinterpretF64 => 0xbd,
            OpCode::F32ReinterpretI32 => 0xbe,
            OpCode::F64ReinterpretI64 => 0xbf,
            OpCode::I32Extend8S => 0xc0,
            OpCode::I32Extend16S => 0xc1,
            OpCode::I64Extend8S => 0xc2,
            OpCode::I64Extend16S => 0xc3,
            OpCode::I64Extend32S => 0xc4,
            OpCode::GCExtension => 0xfb,
            OpCode::FCExtension => 0xfc,
            OpCode::SIMDExtension => 0xfd,
            OpCode::ThreadsExtension => 0xfe,
        }
    }

    /// The opcode that a byte stands for, if any.
    pub fn from_repr(value: u8) -> (r: Option<OpCode>)
        ensures
            r == OpCode::spec_from_repr(value),
    {
        match value {
            0x00 => Some(OpCode::Unreachable),
            0x01 => Some(OpCode::Nop),
            0x02 => Some(OpCode::Block),
            0x03 => Some(OpCode::Loop),
            0x04 => Some(OpCode::If),
            0x05 => Some(OpCode::Else),
            0x06 => Some(OpCode::Try),
            0x07 => Some(OpCode::Catch),
            0x08 => Some(OpCode::Throw),
            0x09 => Some(OpCode::Rethrow),
            0x0a => Some(OpCode::ThrowRef),
            0x0b => Some(OpCode::End),
            0x0c => Some(OpCode::Br),
            0x0d => Some(OpCode::BrIf),
            0x0e => Some(OpCode::BrTable),
            0x0f => Some(OpCode::Return),
            0x10 => Some(OpCode::Call),
            0x11 => Some(OpCode::CallIndirect),
            0x12 => Some(OpCode::ReturnCall),
            0x13 => Some(OpCode::ReturnCallIndirect),
            0x14 => Some(OpCode::CallRef),
            0x15 => Some(OpCode::ReturnCallRef),
            0x18 => Some(OpCode::Delegate),
            0x19 => Some(OpCode::CatchAll),
            0x1a => Some(OpCode::Drop),
            0x1b => Some(OpCode::Select),
            0x1c => Some(OpCode::SelectT),
            0x1d => Some(OpCode::TryTable),
            0x20 => Some(OpCode::GetLocal),
            0x21 => Some(OpCode::SetLocal),
            0x22 => Some(OpCode::Tee),
            0x23 => Some(OpCode::GetGlobal),
            0x24 => Some(OpCode::SetGlobal),
            0x25 => Some(OpCode::TableGet),
            0x26 => Some(OpCode::TableSet),
            0x28 => Some(OpCode::LoadI32),
            0x29 => Some(OpCode::LoadI64),
            0x2a => Some(OpCode::LoadF32),
            0x2b => Some(OpCode::LoadF64),
            0x2c => Some(OpCode::Load8Se),
            0x2d => Some(OpCode::Load8Ze),
            0x2e => Some(OpCode::Load16Se),
            0x2f => Some(OpCode::Load16Ze),
            0x30 => Some(OpCode::Load8I64Se),
            0x31 => Some(OpCode::Load8I64Ze),
            0x32 => Some(OpCode::Load16I64Se),
            0x33 => Some(OpCode::Load16I64Ze),
            0x34 => Some(OpCode::Load32I64Se),
            0x35 => Some(OpCode::Load32I64Ze),
            0x36 => Some(OpCode::StoreI32),
            0x37 => Some(OpCode::StoreI64),
            0x38 => Some(OpCode::StoreF32),
            0x39 => Some(OpCode::StoreF64),
            0x3a => Some(OpCode::Store8_32),
            0x3b => Some(OpCode::Store16_32),
            0x3c => Some(OpCode::Store8_64),
            0x3d => Some(OpCode::Store16_64),
            0x3e => Some(OpCode::Store32_64),
            0x3f => Some(OpCode::CurrentMemorySize),
            0x40 => Some(OpCode::GrowMemory),
            0x41 => Some(OpCode::I32Const),
            0x42 => Some(OpCode::I64Const),
            0x43 => Some(OpCode::F32Const),
            0x44 => Some(OpCode::F64Const),
            0x45 => Some(OpCode::I32Eqz),
            0x46 => Some(OpCode::I32Eq),
            0x47 => Some(OpCode::I32Ne),
            0x48 => Some(OpCode::I32LtS),
            0x49 => Some(OpCode::I32LtU),
            0x4a => Some(OpCode::I32GtS),
            0x4b => Some(OpCode::I32GtU),
            0x4c => Some(OpCode::I32LeS),
            0x4d => Some(OpCode::I32LeU),
            0x4e => Some(OpCode::I32GeS),
            0x4f => Some(OpCode::I32GeU),
            0x50 => Some(OpCode::I64Eqz),
            0x51 => Some(OpCode::I64Eq),
            0x52 => Some(OpCode::I64Ne),
            0x53 => Some(OpCode::I64LtS),
            0x54 => Some(OpCode::I64LtU),
            0x55 => Some(OpCode::I64GtS),
            0x56 => Some(OpCode::I64GtU),
            0x57 => Some(OpCode::I64LeS),
            0x58 => Some(OpCode::I64LeU),
            0x59 => Some(OpCode::I64GeS),
            0x5a => Some(OpCode::I64GeU),
            0x5b => Some(OpCode::F32Eq),
            0x5c => Some(OpCode::F32Ne),
            0x5d => Some(OpCode::F32Lt),
            0x5e => Some(OpCode::F32Gt),
            0x5f => Some(OpCode::F32Le),
            0x60 => Some(OpCode::F32Ge),
            0x61 => Some(OpCode::F64Eq),
            0x62 => Some(OpCode::F64Ne),
            0x63 => Some(OpCode::F64Lt),
            0x64 => Some(OpCode::F64Gt),
            0x65 => Some(OpCode::F64Le),
            0x66 => Some(OpCode::F64Ge),
            0x67 => Some(OpCode::I32Clz),
            0x68 => Some(OpCode::I32Ctz),
            0x69 => Some(OpCode::I32Popcnt),
            0x6a => Some(OpCode::I32Add),
            0x6b => Some(OpCode::I32Sub),
            0x6c => Some(OpCode::I32Mul),
            0x6d => Some(OpCode::I32DivS),
            0x6e => Some(OpCode::I32DivU),
            0x6f => Some(OpCode::I32RemS),
            0x70 => Some(OpCode::I32RemU),
            0x71 => Some(OpCode::I32And),
            0x72 => Some(OpCode::I32Or),
            0x73 => Some(OpCode::I32Xor),
            0x74 => Some(OpCode::I32Shl),
            0x75 => Some(OpCode::I32ShrS),
            0x76 => Some(OpCode::I32ShrU),
            0x77 => Some(OpCode::I32Rotl),
            0x78 => Some(OpCode::I32Rotr),
            0x79 => Some(OpCode::I64Clz),
            0x7a => Some(OpCode::I64Ctz),
            0x7b => Some(OpCode::I64Popcnt),
            0x7c => Some(OpCode::I64Add),
            0x7d => Some(OpCode::I64Sub),
            0x7e => Some(OpCode::I64Mul),
            0x7f => Some(OpCode::I64DivS),
            0x80 => Some(OpCode::I64DivU),
            0x81 => Some(OpCode::I64RemS),
            0x82 => Some(OpCode::I64RemU),
            0x83 => Some(OpCode::I64And),
            0x84 => Some(OpCode::I64Or),
            0x85 => Some(OpCode::I64Xor),
            0x86 => Some(OpCode::I64Shl),
            0x87 => Some(OpCode::I64ShrS),
            0x88 => Some(OpCode::I64ShrU),
            0x89 => Some(OpCode::I64Rotl),
            0x8a => Some(OpCode::I64Rotr),
            0x8b => Some(OpCode::F32Abs),
            0x8c => Some(OpCode::F32Neg),
            0x8d => Some(OpCode::F32Ceil),
            0x8e => Some(OpCode::F32Floor),
            0x8f => Some(OpCode::F32Trunc),
            0x90 => Some(OpCode::F32Nearest),
            0x91 => Some(OpCode::F32Sqrt),
            0x92 => Some(OpCode::F32Add),
            0x93 => Some(OpCode::F32Sub),
            0x94 => Some(OpCode::F32Mul),
            0x95 => Some(OpCode::F32Div),
            0x96 => Some(OpCode::F32Min),
            0x97 => Some(OpCode::F32Max),
            0x98 => Some(OpCode::F32Copysign),
            0x99 => Some(OpCode::F64Abs),
            0x9a => Some(OpCode::F64Neg),
            0x9b => Some(OpCode::F64Ceil),
            0x9c => Some(OpCode::F64Floor),
            0x9d => Some(OpCode::F64Trunc),
            0x9e => Some(OpCode::F64Nearest),
            0x9f => Some(OpCode::F64Sqrt),
            0xa0 => Some(OpCode::F64Add),
            0xa1 => Some(OpCode::F64Sub),
            0xa2 => Some(OpCode::F64Mul),
            0xa3 => Some(OpCode::F64Div),
            0xa4 => Some(OpCode::F64Min),
            0xa5 => Some(OpCode::F64Max),
            0xa6 => Some(OpCode::F64Copysign),
            0xa7 => Some(OpCode::I32WrapI64),
            0xa8 => Some(OpCode::I32TruncF32S),
            0xa9 => Some(OpCode::I32TruncF32U),
            0xaa => Some(OpCode::I32TruncF64S),
            0xab => Some(OpCode::I32TruncF64U),
            0xac => Some(OpCode::I64ExtendI32S),
            0xad => Some(OpCode::I64ExtendI32U),
            0xae => Some(OpCode::I64TruncF32S),
            0xaf => Some(OpCode::I64TruncF32U),
            0xb0 => Some(OpCode::I64TruncF64S),
            0xb1 => Some(OpCode::I64TruncF64U),
            0xb2 => Some(OpCode::F32ConvertI32S),
            0xb3 => Some(OpCode::F32ConvertI32U),
            0xb4 => Some(OpCode::F32ConvertI64S),
            0xb5 => Some(OpCode::F32ConvertI64U),
            0xb6 => Some(OpCode::F32DemoteF64),
            0xb7 => Some(OpCode::F64ConvertI32S),
            0xb8 => Some(OpCode::F64ConvertI32U),
            0xb9 => Some(OpCode::F64ConvertI64S),
            0xba => Some(OpCode::F64ConvertI64U),
            0xbb => Some(OpCode::F64PromoteF32),
            0xbc => Some(OpCode::I32ReinterpretF32),
            0xbd => Some(OpCode::I64ReinterpretF64),
            0xbe => Some(OpCode::F32ReinterpretI32),
            0xbf => Some(OpCode::F64ReinterpretI64),
            0xc0 => Some(OpCode::I32Extend8S),
            0xc1 => Some(OpCode::I32Extend16S),
            0xc2 => Some(OpCode::I64Extend8S),
            0xc3 => Some(OpCode::I64Extend16S),
            0xc4 => Some(OpCode::I64Extend32S),
            0xd0 => Some(OpCode::RefNull),
            0xd1 => Some(OpCode::IsNull),
            0xd2 => Some(OpCode::RefFunc),
            0xd3 => Some(OpCode::RefAsNonNull),
            0xd4 => Some(OpCode::BrOnNull),
            0xd5 => Some(OpCode::RefEq),
            0xd6 => Some(OpCode::BrOnNonNull),
            0xfb => Some(OpCode::GCExtension),
            0xfc => Some(OpCode::FCExtension),
            0xfd => Some(OpCode::SIMDExtension),
            0xfe => Some(OpCode::ThreadsExtension),
            _ => None,
        }
    }

    /// The byte that stands for this opcode.
    pub fn repr(self) -> (r: u8)
        ensures
            r == self.spec_repr(),
    {
        match self {
            OpCode::Unreachable => 0x00,
            OpCode::Nop => 0x01,
            OpCode::Block => 0x02,
            OpCode::Loop => 0x03,
            OpCode::If => 0x04,
            OpCode::Else => 0x05,
            OpCode::Try => 0x06,
            OpCode::Catch => 0x07,
            OpCode::Throw => 0x08,
            OpCode::Rethrow => 0x09,
            OpCode::ThrowRef => 0x0a,
            OpCode::End => 0x0b,
            OpCode::Br => 0x0c,
            OpCode::BrIf => 0x0d,
            OpCode::BrTable => 0x0e,
            OpCode::Return => 0x0f,
            OpCode::Delegate => 0x18,
            OpCode::CatchAll => 0x19,
            OpCode::TryTable => 0x1d,
            OpCode::Call => 0x10,
            OpCode::CallIndirect => 0x11,
            OpCode::ReturnCall => 0x12,
            OpCode::ReturnCallIndirect => 0x13,
            OpCode::CallRef => 0x14,
            OpCode::ReturnCallRef => 0x15,
            OpCode::Drop => 0x1a,
            OpCode::Select => 0x1b,
            OpCode::SelectT => 0x1c,
            OpCode::TableGet => 0x25,
            OpCode::TableSet => 0x26,
            OpCode::RefNull => 0xd0,
            OpCode::IsNull => 0xd1,
            OpCode::RefFunc => 0xd2,
            OpCode::RefAsNonNull => 0xd3,
            OpCode::RefEq => 0xd5,
            OpCode::BrOnNull => 0xd4,
            OpCode::BrOnNonNull => 0xd6,
            OpCode::GetLocal => 0x20,
            OpCode::SetLocal => 0x21,
            OpCode::Tee => 0x22,
            OpCode::GetGlobal => 0x23,
            OpCode::SetGlobal => 0x24,
            OpCode::LoadI32 => 0x28,
            OpCode::LoadI64 => 0x29,
            OpCode::LoadF32 => 0x2a,
            OpCode::LoadF64 => 0x2b,
            OpCode::Load8Se => 0x2c,
            OpCode::Load16Se => 0x2e,
            OpCode::Load8I64Se => 0x30,
            OpCode::Load16I64Se => 0x32,
            OpCode::Load32I64Se => 0x34,
            OpCode::Load8Ze => 0x2d,
            OpCode::Load8I64Ze => 0x31,
            OpCode::Load32I64Ze => 0x35,
            OpCode::Load16Ze => 0x2f,
            OpCode::Load16I64Ze => 0x33,
            OpCode::StoreI32 => 0x36,
            OpCode::StoreI64 => 0x37,
            OpCode::StoreF32 => 0x38,
            OpCode::StoreF64 => 0x39,
            OpCode::Store8_32 => 0x3a,
            OpCode::Store16_32 => 0x3b,
            OpCode::Store8_64 => 0x3c,
            OpCode::Store16_64 => 0x3d,
            OpCode::Store32_64 => 0x3e,
            OpCode::CurrentMemorySize => 0x3f,
            OpCode::GrowMemory => 0x40,
            OpCode::I32Const => 0x41,
            OpCode::I64Const => 0x42,
            OpCode::F32Const => 0x43,
            OpCode::F64Const => 0x44,
            OpCode::I32Eqz => 0x45,
            OpCode::I32Eq => 0x46,
            OpCode::I32Ne => 0x47,
            OpCode::I32LtS => 0x48,
            OpCode::I32LtU => 0x49,
            OpCode::I32GtS => 0x4a,
            OpCode::I32GtU => 0x4b,
            OpCode::I32LeS => 0x4c,
            OpCode::I32LeU => 0x4d,
            OpCode::I32GeS => 0x4e,
            OpCode::I32GeU => 0x4f,
            OpCode::I64Eqz => 0x50,
            OpCode::I64Eq => 0x51,
            OpCode::I64Ne => 0x52,
            OpCode::I64LtS => 0x53,
            OpCode::I64LtU => 0x54,
            OpCode::I64GtS => 0x55,
            OpCode::I64GtU => 0x56,
            OpCode::I64LeS => 0x57,
            OpCode::I64LeU => 0x58,
            OpCode::I64GeS => 0x59,
            OpCode::I64GeU => 0x5a,
            OpCode::F32Eq => 0x5b,
            OpCode::F32Ne => 0x5c,
            OpCode::F32Lt => 0x5d,
            OpCode::F32Gt => 0x5e,
            OpCode::F32Le => 0x5f,
            OpCode::F32Ge => 0x60,
            OpCode::F64Eq => 0x61,
            OpCode::F64Ne => 0x62,
            OpCode::F64Lt => 0x63,
            OpCode::F64Gt => 0x64,
            OpCode::F64Le => 0x65,
            OpCode::F64Ge => 0x66,
            OpCode::I32Clz => 0x67,
            OpCode::I32Ctz => 0x68,
            OpCode::I32Popcnt => 0x69,
            OpCode::I32Add => 0x6a,
            OpCode::I32Sub => 0x6b,
            OpCode::I32Mul => 0x6c,
            OpCode::I32DivS => 0x6d,
            OpCode::I32DivU => 0x6e,
            OpCode::I32RemS => 0x6f,
            OpCode::I32RemU => 0x70,
            OpCode::I32And => 0x71,
            OpCode::I32Or => 0x72,
            OpCode::I32Xor => 0x73,
            OpCode::I32Shl => 0x74,
            OpCode::I32ShrS => 0x75,
            OpCode::I32ShrU => 0x76,
            OpCode::I32Rotl => 0x77,
            OpCode::I32Rotr => 0x78,
            OpCode::I64Clz => 0x79,
            OpCode::I64Ctz => 0x7a,
            OpCode::I64Popcnt => 0x7b,
            OpCode::I64Add => 0x7c,
            OpCode::I64Sub => 0x7d,
            OpCode::I64Mul => 0x7e,
            OpCode::I64DivS => 0x7f,
            OpCode::I64DivU => 0x80,
            OpCode::I64RemS => 0x81,
            OpCode::I64RemU => 0x82,
            OpCode::I64And => 0x83,
            OpCode::I64Or => 0x84,
            OpCode::I64Xor => 0x85,
            OpCode::I64Shl => 0x86,
            OpCode::I64ShrS => 0x87,
            OpCode::I64ShrU => 0x88,
            OpCode::I64Rotl => 0x89,
            OpCode::I64Rotr => 0x8a,
            OpCode::F32Abs => 0x8b,
            OpCode::F32Neg => 0x8c,
            OpCode::F32Ceil => 0x8d,
            OpCode::F32Floor => 0x8e,
            OpCode::F32Trunc => 0x8f,
            OpCode::F32Nearest => 0x90,
            OpCode::F32Sqrt => 0x91,
            OpCode::F32Add => 0x92,
            OpCode::F32Sub => 0x93,
            OpCode::F32Mul => 0x94,
            OpCode::F32Div => 0x95,
            OpCode::F32Min => 0x96,
            OpCode::F32Max => 0x97,
            OpCode::F32Copysign => 0x98,
            OpCode::F64Abs => 0x99,
            OpCode::F64Neg => 0x9a,
            OpCode::F64Ceil => 0x9b,
            OpCode::F64Floor => 0x9c,
            OpCode::F64Trunc => 0x9d,
            OpCode::F64Nearest => 0x9e,
            OpCode::F64Sqrt => 0x9f,
            OpCode::F64Add => 0xa0,
            OpCode::F64Sub => 0xa1,
            OpCode::F64Mul => 0xa2,
            OpCode::F64Div => 0xa3,
            OpCode::F64Min => 0xa4,
            OpCode::F64Max => 0xa5,
            OpCode::F64Copysign => 0xa6,
            OpCode::I32WrapI64 => 0xa7,
            OpCode::I32TruncF32S => 0xa8,
            OpCode::I32TruncF32U => 0xa9,
            OpCode::I32TruncF64S => 0xaa,
            OpCode::I32TruncF64U => 0xab,
            OpCode::I64ExtendI32S => 0xac,
            OpCode::I64ExtendI32U => 0xad,
            OpCode::I64TruncF32S => 0xae,
            OpCode::I64TruncF32U => 0xaf,
            OpCode::I64TruncF64S => 0xb0,
            OpCode::I64TruncF64U => 0xb1,
            OpCode::F32ConvertI32S => 0xb2,
            OpCode::F32ConvertI32U => 0xb3,
            OpCode::F32ConvertI64S => 0xb4,
            OpCode::F32ConvertI64U => 0xb5,
            OpCode::F32DemoteF64 => 0xb6,
            OpCode::F64ConvertI32S => 0xb7,
            OpCode::F64ConvertI32U => 0xb8,
            OpCode::F64ConvertI64S => 0xb9,
            OpCode::F64ConvertI64U => 0xba,
            OpCode::F64PromoteF32 => 0xbb,
            OpCode::I32ReinterpretF32 => 0xbc,
            OpCode::I64ReinterpretF64 => 0xbd,
            OpCode::F32ReinterpretI32 => 0xbe,
            OpCode::F64ReinterpretI64 => 0xbf,
            OpCode::I32Extend8S => 0xc0,
            OpCode::I32Extend16S => 0xc1,
            OpCode::I64Extend8S => 0xc2,
            OpCode::I64Extend16S => 0xc3,
            OpCode::I64Extend32S => 0xc4,
            OpCode::GCExtension => 0xfb,
            OpCode::FCExtension => 0xfc,
            OpCode::SIMDExtension => 0xfd,
            OpCode::ThreadsExtension => 0xfe,
        }
    }
}

/// Every opcode is the one that its own byte stands for.
pub proof fn lemma_from_repr_of_repr(opcode: OpCode)
    ensures
        OpCode::spec_from_repr(opcode.spec_repr()) == Some(opcode),
{
}

/// A byte that stands for an opcode is that opcode's byte.
pub proof fn lemma_repr_of_from_repr(value: u8)
    ensures
        OpCode::spec_from_repr(value) matches Some(opcode) ==> opcode.spec_repr() == value,
{
}

} // verus!
