use wasbox::decode::{
    decode, mk_block, mk_function, mk_if_else, mk_loop, mk_program, read_memarg, scan,
    DecodeError, DecodeFailure, Malformed, Program, Proposal, Scope, ScopeType,
};
use wasbox::module::leb128::LEB128Reader;
use wasbox::op::{MemArg, Op};
use wasbox::opcode::OpCode;
use wasbox::{TypeSignature, ValueType};

const UNIT: TypeSignature = TypeSignature::ValueType(ValueType::Unit);

#[test]
fn a_body_decodes_to_its_operations() {
    // local.get 0; i32.const -3; i32.add; end
    let program = decode(&[0x20, 0x00, 0x41, 0x7d, 0x6a, 0x0b]).unwrap();
    assert_eq!(
        program.ops,
        vec![
            Op::GetLocal(0),
            Op::I32Const(-3),
            Op::I32Add,
            Op::EndScope(ScopeType::Program)
        ]
    );
    assert_eq!(program.local_types, vec![]);
    assert_eq!(program.return_types, vec![]);
    assert_eq!(decode(&[]).unwrap(), Program::new());
}

#[test]
fn structured_control_becomes_scope_markers() {
    // block; loop (result i32); if (type 3); else; end; end; end; end
    let bytes = [0x02, 0x40, 0x03, 0x7f, 0x04, 0x03, 0x05, 0x0b, 0x0b, 0x0b, 0x0b];
    let program = decode(&bytes).unwrap();
    assert_eq!(
        program.ops,
        vec![
            Op::StartScope(UNIT, ScopeType::Block),
            Op::StartScope(TypeSignature::ValueType(ValueType::I32), ScopeType::Loop),
            Op::StartScope(TypeSignature::Index(3), ScopeType::IfElse),
            Op::If,
            Op::Else,
            Op::EndScope(ScopeType::IfElse),
            Op::EndScope(ScopeType::Loop),
            Op::EndScope(ScopeType::Block),
            Op::EndScope(ScopeType::Program),
        ]
    );
}

#[test]
fn immediates_are_read_with_their_operations() {
    let bytes = [
        0x0c, 0x02, // br 2
        0x0e, 0x02, 0x00, 0x01, 0x03, // br_table 0 1, default 3
        0x11, 0x04, 0x00, // call_indirect type 4 table 0
        0x28, 0x02, 0x80, 0x01, // i32.load align 2 offset 128
        0x3c, 0x00, 0x05, // i64.store8 offset 5
        0x3f, 0x00, 0x40, 0x00, // memory.size, memory.grow
        0x42, 0x80, 0x7f, // i64.const -128
        0x43, 0x00, 0x00, 0xc0, 0x3f, // f32.const 1.5
        0x44, 0x00, 0x00, 0x00, 0x00, 0x00, 0x00, 0x04, 0xc0, // f64.const -2.5
        0x1c, 0x02, 0x7f, 0x70, // select (i32 funcref)
        0xd0, 0x6f, // ref.null extern
        0xd2, 0x07, // ref.func 7
        0x25, 0x01, 0x26, 0x02, // table.get 1, table.set 2
        0xfc, 0x00, 0xfc, 0x07, // i32.trunc_sat_f32_s, i64.trunc_sat_f64_u
        0x00, // unreachable leaves nothing
        0x01, // nop
    ];
    assert_eq!(
        decode(&bytes).unwrap().ops,
        vec![
            Op::Br(2),
            Op::BrTable(vec![0, 1], 3),
            Op::CallIndirect(4, 0),
            Op::LoadI32(MemArg { offset: 128, align: 2 }),
            Op::Store8_64(MemArg { offset: 5, align: 0 }),
            Op::MemorySize,
            Op::MemoryGrow,
            Op::I64Const(-128),
            Op::F32Const(1.5f32.to_bits()),
            Op::F64Const((-2.5f64).to_bits()),
            Op::SelectT(vec![ValueType::I32, ValueType::FuncRef]),
            Op::RefNull(ValueType::ExternRef),
            Op::RefFunc(7),
            Op::TableGet(1),
            Op::TableSet(2),
            Op::I32TruncSatF32S,
            Op::I64TruncSatF64U,
            Op::Nop,
        ]
    );
}

#[test]
fn every_opcode_without_an_immediate_decodes_to_its_operation() {
    let cases = [
        (0x0fu8, Op::Return),
        (0x1a, Op::Drop),
        (0x1b, Op::Select),
        (0x45, Op::I32Eqz),
        (0x5a, Op::I64GeU),
        (0x5b, Op::F32Eq),
        (0x66, Op::F64Ge),
        (0x78, Op::I32Rotr),
        (0x8a, Op::I64Rotr),
        (0x98, Op::F32Copysign),
        (0xa6, Op::F64Copysign),
        (0xa7, Op::I32WrapI64),
        (0xbb, Op::F64PromoteF32),
        (0xbf, Op::F64ReinterpretI64),
        (0xc0, Op::I32Extend8S),
        (0xc4, Op::I64Extend32S),
        (0xd1, Op::RefIsNull),
        (0xd3, Op::RefAsNonNull),
        (0xd5, Op::RefEq),
    ];
    for (byte, op) in cases {
        assert_eq!(decode(&[byte]).unwrap().ops, vec![op]);
    }
}

#[test]
fn a_decode_error_names_its_rule() {
    assert_eq!(decode(&[0x27]), Err(DecodeError::InvalidOpcode(0x27)));
    assert_eq!(decode(&[0xff]), Err(DecodeError::InvalidOpcode(0xff)));
    assert_eq!(
        decode(&[0x06]),
        Err(DecodeError::UnimplementedOpcode(0x06, Proposal::Exceptions))
    );
    assert_eq!(
        decode(&[0x12, 0x00]),
        Err(DecodeError::UnimplementedOpcode(0x12, Proposal::TypedFunctionReferences))
    );
    assert_eq!(
        decode(&[0x18]),
        Err(DecodeError::UnimplementedOpcode(0x18, Proposal::ExceptionHandling))
    );
    assert_eq!(
        decode(&[0xd4]),
        Err(DecodeError::UnimplementedOpcode(0xd4, Proposal::ReferenceTypes))
    );
    assert_eq!(
        decode(&[0xfb, 0x00]),
        Err(DecodeError::UnimplementedOpcode(0xfb, Proposal::GarbageCollection))
    );
    assert_eq!(
        decode(&[0xfc, 0x08]),
        Err(DecodeError::UnimplementedOpcode(0xfc, Proposal::BulkMemory))
    );
    assert_eq!(
        decode(&[0xfd, 0x00]),
        Err(DecodeError::UnimplementedOpcode(0xfd, Proposal::Simd))
    );
    assert_eq!(
        decode(&[0xfe, 0x00]),
        Err(DecodeError::UnimplementedOpcode(0xfe, Proposal::Threads))
    );
    assert_eq!(
        decode(&[0x02, 0xff, 0xff, 0xff, 0xff, 0x0f]),
        Err(DecodeError::InvalidSignature(1))
    );
    assert_eq!(
        decode(&[0x3f, 0x01]),
        Err(DecodeError::FailedToDecode(DecodeFailure::ReservedByteNonZero(1)))
    );
    assert_eq!(
        decode(&[0x02, 0x40, 0x05]),
        Err(DecodeError::FailedToDecode(DecodeFailure::ElseWithoutIf))
    );
    assert_eq!(
        decode(&[0x0b, 0x0b]),
        Err(DecodeError::FailedToDecode(DecodeFailure::EndWithoutScope))
    );
    assert_eq!(
        decode(&[0x41]),
        Err(DecodeError::MalformedMemory(Malformed::UnexpectedEnd))
    );
    assert_eq!(
        decode(&[0x44, 1, 2, 3]),
        Err(DecodeError::MalformedMemory(Malformed::UnexpectedEnd))
    );
}

#[test]
fn a_memory_immediate_has_a_bounded_alignment_and_offset() {
    // i32.load with alignment 3
    assert_eq!(
        decode(&[0x28, 0x03, 0x00]),
        Err(DecodeError::MalformedMemory(Malformed::InvalidAlignment))
    );
    // i64.load with alignment 3
    assert_eq!(
        decode(&[0x29, 0x03, 0x00]).unwrap().ops,
        vec![Op::LoadI64(MemArg { offset: 0, align: 3 })]
    );
    // i32.load8_u with alignment 1
    assert_eq!(
        decode(&[0x2d, 0x01, 0x00]),
        Err(DecodeError::MalformedMemory(Malformed::InvalidAlignment))
    );
    // an offset of 2^32
    assert_eq!(
        decode(&[0x28, 0x00, 0x80, 0x80, 0x80, 0x80, 0x10]),
        Err(DecodeError::MalformedMemory(Malformed::OffsetTooLarge))
    );
    // an offset of 2^32 - 1
    let mut reader = LEB128Reader::new(&[0x02, 0xff, 0xff, 0xff, 0xff, 0x0f], 0);
    assert_eq!(
        read_memarg(&mut reader, 2),
        Ok(MemArg { offset: 0xffff_ffff, align: 2 })
    );
    assert_eq!(reader.position(), 6);
}

#[test]
fn a_scan_finds_the_end_of_an_expression() {
    // if; i32.const 1; else; br_table [0] 0; end; call_indirect 1 0; end
    let bytes = [
        0x04, 0x40, 0x41, 0x01, 0x05, 0x0e, 0x01, 0x00, 0x00, 0x0b, 0x11, 0x0b, 0x00, 0x0b, 0x20,
    ];
    let mut reader = LEB128Reader::new(&bytes, 0);
    assert_eq!(scan(&mut reader), Ok(14));
    assert_eq!(reader.position(), 14);
    // the constant 0x0b of an i32.const is no end
    let mut reader = LEB128Reader::new(&[0x41, 0x0b, 0x0b], 0);
    assert_eq!(scan(&mut reader), Ok(3));
    let mut reader = LEB128Reader::new(&[0x05], 0);
    assert_eq!(
        scan(&mut reader),
        Err(DecodeError::FailedToDecode(DecodeFailure::ElseWithoutIf))
    );
    let mut reader = LEB128Reader::new(&[0x02, 0x40, 0x0b], 0);
    assert_eq!(
        scan(&mut reader),
        Err(DecodeError::MalformedMemory(Malformed::UnexpectedEnd))
    );
    let mut reader = LEB128Reader::new(&[0xc8], 0);
    assert_eq!(scan(&mut reader), Err(DecodeError::InvalidOpcode(0xc8)));
}

#[test]
fn a_scan_passes_over_immediates_that_the_decoder_refuses() {
    // i32.load8_u with the alignment hint 1; end
    let bytes = [0x2d, 0x01, 0x00, 0x0b];
    let mut reader = LEB128Reader::new(&bytes, 0);
    assert_eq!(scan(&mut reader), Ok(4));
    assert_eq!(reader.position(), 4);
    assert_eq!(
        decode(&bytes).err(),
        Some(DecodeError::MalformedMemory(Malformed::InvalidAlignment))
    );
    // i32.load with the offset 2^32; end
    let bytes = [0x28, 0x02, 0x80, 0x80, 0x80, 0x80, 0x10, 0x0b];
    let mut reader = LEB128Reader::new(&bytes, 0);
    assert_eq!(scan(&mut reader), Ok(8));
    assert_eq!(
        decode(&bytes).err(),
        Some(DecodeError::MalformedMemory(Malformed::OffsetTooLarge))
    );
    // memory.size with the reserved byte 1; end
    let bytes = [0x3f, 0x01, 0x0b];
    let mut reader = LEB128Reader::new(&bytes, 0);
    assert_eq!(scan(&mut reader), Ok(3));
    assert_eq!(
        decode(&bytes).err(),
        Some(DecodeError::FailedToDecode(DecodeFailure::ReservedByteNonZero(1)))
    );
    // a typed select whose two type bytes are 0x0b; end
    let mut reader = LEB128Reader::new(&[0x1c, 0x02, 0x0b, 0x0b, 0x0b, 0x0b], 0);
    assert_eq!(scan(&mut reader), Ok(5));
    // ref.null of the type byte 0x0b; end
    let mut reader = LEB128Reader::new(&[0xd0, 0x0b, 0x0b, 0x0b], 0);
    assert_eq!(scan(&mut reader), Ok(3));
    // a block of a type that is none; end; end
    let mut reader = LEB128Reader::new(&[0x02, 0x0b, 0x0b, 0x0b, 0x0b], 0);
    assert_eq!(scan(&mut reader), Ok(4));
    // a typed select that is cut short
    let mut reader = LEB128Reader::new(&[0x1c, 0x03, 0x7f, 0x0b], 0);
    assert_eq!(
        scan(&mut reader),
        Err(DecodeError::MalformedMemory(Malformed::UnexpectedEnd))
    );
}

#[test]
fn a_scan_stops_at_an_opcode_whose_immediates_it_does_not_know() {
    let mut reader = LEB128Reader::new(&[0x06, 0x0b], 0);
    assert!(matches!(
        scan(&mut reader),
        Err(DecodeError::UnimplementedOpcode(0x06, _))
    ));
    // the prefix 0xfc: a saturating truncation is passed over, anything else is not
    let mut reader = LEB128Reader::new(&[0xfc, 0x03, 0x0b], 0);
    assert_eq!(scan(&mut reader), Ok(3));
    let mut reader = LEB128Reader::new(&[0xfc, 0x0a, 0x00, 0x00, 0x0b], 0);
    assert!(matches!(
        scan(&mut reader),
        Err(DecodeError::UnimplementedOpcode(0xfc, _))
    ));
}

#[test]
fn opcodes_have_their_bytes() {
    assert_eq!(OpCode::from_repr(0x00), Some(OpCode::Unreachable));
    assert_eq!(OpCode::from_repr(0x0b), Some(OpCode::End));
    assert_eq!(OpCode::from_repr(0x6a), Some(OpCode::I32Add));
    assert_eq!(OpCode::from_repr(0xfc), Some(OpCode::FCExtension));
    assert_eq!(OpCode::from_repr(0x16), None);
    assert_eq!(OpCode::from_repr(0xc5), None);
    let mut known = 0;
    for byte in 0..=255u8 {
        if let Some(opcode) = OpCode::from_repr(byte) {
            assert_eq!(opcode.repr(), byte);
            known += 1;
        }
    }
    assert_eq!(known, 203);
}

#[test]
fn scopes_are_made_with_their_type() {
    let sig = TypeSignature::Index(2);
    assert_eq!(mk_program(), Scope { scope_type: ScopeType::Program, signature: UNIT });
    assert_eq!(mk_loop(sig), Scope { scope_type: ScopeType::Loop, signature: sig });
    assert_eq!(mk_block(sig), Scope { scope_type: ScopeType::Block, signature: sig });
    assert_eq!(mk_if_else(sig), Scope { scope_type: ScopeType::IfElse, signature: sig });
    assert_eq!(
        mk_function(vec![ValueType::F64]).signature,
        TypeSignature::ValueType(ValueType::F64)
    );
    assert_eq!(mk_function(vec![]).signature, UNIT);
    assert_eq!(mk_function(vec![ValueType::I32, ValueType::I32]).signature, UNIT);
    let mut program = Program::default();
    program.push(Op::Nop);
    assert_eq!(program.ops, vec![Op::Nop]);
    assert_eq!(program.duplicate(), program);
}
