use wasbox::decode::{Program, ScopeType};
use wasbox::exec::{execute, Continuation, Fault, Value};
use wasbox::frame::{pop_values, push_values, Frame};
use wasbox::machine::{adjust_memarg, execute_branch, resolve_type, same_func_type};
use wasbox::numeric::{
    binary, clz32, clz64, ctz32, ctz64, div_s32, div_s64, div_u32, div_u64, host_float, popcount,
    ref_eq, rem_s32, rem_s64, rem_u32, rem_u64, rotl32, rotl64, rotr32, rotr64, unary,
};
use wasbox::op::{MemArg, Op};
use wasbox::stack::Stack;
use wasbox::{FuncType, Type, TypeSignature, ValueType, VectorMemory};

#[test]
fn cells_hold_each_type_in_its_own_way() {
    let mut stack = Stack::new();
    assert_eq!(stack.width(), 0);
    stack.push_i32(-2);
    assert_eq!(stack.top_u64(), Ok(0xffff_ffff_ffff_fffe));
    assert_eq!(stack.top_i32(), Ok(-2));
    assert_eq!(stack.top_u32(), Ok(0xffff_fffe));
    assert_eq!(stack.top_i64(), Ok(-2));
    stack.push_u32(0xffff_fffe);
    assert_eq!(stack.top_u64(), Ok(0xffff_fffe));
    assert_eq!(stack.pop_i32(), Ok(-2));
    stack.push_i64(i64::MIN);
    assert_eq!(stack.pop_u64(), Ok(0x8000_0000_0000_0000));
    stack.push_u64(u64::MAX);
    assert_eq!(stack.pop_i64(), Ok(-1));
    stack.push_f32(1.5f32.to_bits());
    assert_eq!(stack.top_f32(), Ok(0x3fc0_0000));
    assert_eq!(stack.pop_f32(), Ok(0x3fc0_0000));
    stack.push_f64(1.5f64.to_bits());
    assert_eq!(stack.top_f64(), Ok(0x3ff8_0000_0000_0000));
    assert_eq!(stack.pop_f64(), Ok(0x3ff8_0000_0000_0000));
    assert_eq!(stack.width(), 1);
    assert_eq!(stack.pop_u32(), Ok(0xffff_fffe));
    assert_eq!(stack.width(), 0);
}

#[test]
fn an_empty_stack_underflows() {
    let mut stack = Stack::default();
    assert_eq!(stack.pop_u64(), Err(Fault::StackUnderflow));
    assert_eq!(stack.pop_i32(), Err(Fault::StackUnderflow));
    assert_eq!(stack.pop_i64(), Err(Fault::StackUnderflow));
    assert_eq!(stack.pop_u32(), Err(Fault::StackUnderflow));
    assert_eq!(stack.pop_f32(), Err(Fault::StackUnderflow));
    assert_eq!(stack.pop_f64(), Err(Fault::StackUnderflow));
    assert_eq!(stack.pop_ref(), Err(Fault::StackUnderflow));
    assert_eq!(stack.pop_value(), Err(Fault::StackUnderflow));
    assert_eq!(stack.top_i32(), Err(Fault::StackUnderflow));
    assert_eq!(stack.top_u32(), Err(Fault::StackUnderflow));
    assert_eq!(stack.top_i64(), Err(Fault::StackUnderflow));
    assert_eq!(stack.top_u64(), Err(Fault::StackUnderflow));
    assert_eq!(stack.top_f32(), Err(Fault::StackUnderflow));
    assert_eq!(stack.top_f64(), Err(Fault::StackUnderflow));
    assert_eq!(stack.width(), 0);
}

#[test]
fn references_are_an_index_or_null() {
    let mut stack = Stack::new();
    stack.push_ref(Some(7));
    stack.push_ref(None);
    stack.push_ref(Some(0));
    assert_eq!(stack.pop_ref(), Ok(Some(0)));
    assert_eq!(stack.top_u64(), Ok(0xffff_ffff));
    assert_eq!(stack.pop_ref(), Ok(None));
    assert_eq!(stack.pop_ref(), Ok(Some(7)));
    // the index 2^32 - 1 reads as null
    stack.push_ref(Some(u32::MAX));
    assert_eq!(stack.pop_ref(), Ok(None));
    stack.push_u64(0x1_0000_0005);
    assert_eq!(stack.pop_value(), Ok(Value::I32(5)));
}

#[test]
fn shrinking_cuts_the_stack_and_never_widens_it() {
    let mut stack = Stack::new();
    for i in 0..5 {
        stack.push_i32(i);
    }
    stack.shrink_to(7);
    assert_eq!(stack.width(), 5);
    stack.shrink_to(2);
    assert_eq!(stack.width(), 2);
    assert_eq!(stack.pop_i32(), Ok(1));
    stack.shrink_to(0);
    assert_eq!(stack.width(), 0);
}

#[test]
fn values_go_to_the_stack_and_come_back() {
    let values = [
        Value::I32(-5),
        Value::I64(i64::MAX),
        Value::F32(0x7fc0_0001),
        Value::F64(0xfff0_0000_0000_0000),
        Value::FuncRef(Some(3)),
        Value::FuncRef(None),
        Value::ExternRef(Some(9)),
        Value::Unit,
    ];
    for value in values {
        let mut stack = Stack::new();
        value.push_to(&mut stack);
        assert_eq!(stack.width(), 1);
        assert_eq!(Value::pop_from(value.type_of(), &mut stack), Ok(value));
        assert_eq!(stack.width(), 0);
        assert_eq!(
            Value::pop_from(value.type_of(), &mut stack),
            Err(Fault::StackUnderflow)
        );
    }
    let mut stack = Stack::new();
    Value::V128(0x0011_2233_4455_6677_8899_aabb_ccdd_eeff).push_to(&mut stack);
    assert_eq!(stack.width(), 2);
    // the high half is on top, and comes back as the high half
    assert_eq!(stack.top_u64(), Ok(0x0011_2233_4455_6677));
    assert_eq!(
        Value::pop_from(ValueType::V128, &mut stack),
        Ok(Value::V128(0x0011_2233_4455_6677_8899_aabb_ccdd_eeff))
    );
    assert_eq!(stack.width(), 0);
}

#[test]
fn the_top_of_the_stack_reads_by_type() {
    let mut stack = Stack::new();
    stack.push_i64(-9);
    assert_eq!(Value::top_of(ValueType::I64, &mut stack), Ok(Value::I64(-9)));
    assert_eq!(Value::top_of(ValueType::I32, &mut stack), Ok(Value::I32(-9)));
    assert_eq!(Value::top_of(ValueType::F64, &mut stack), Ok(Value::F64((-9i64) as u64)));
    assert_eq!(
        Value::top_of(ValueType::FuncRef, &mut stack),
        Ok(Value::FuncRef(Some(0xffff_fff7)))
    );
    assert_eq!(stack.width(), 1);
    assert_eq!(Value::top_of(ValueType::Unit, &mut stack), Ok(Value::Unit));
    assert_eq!(stack.width(), 0);
    assert_eq!(Value::top_of(ValueType::I32, &mut stack), Err(Fault::StackUnderflow));
    assert_eq!(Value::zero(ValueType::F64), Value::F64(0));
    assert_eq!(Value::zero(ValueType::ExternRef), Value::ExternRef(None));
}

#[test]
fn the_top_of_the_stack_reads_as_a_pop_would() {
    let mut stack = Stack::new();
    stack.push_ref(None);
    assert_eq!(Value::top_of(ValueType::FuncRef, &mut stack), Ok(Value::FuncRef(None)));
    assert_eq!(Value::top_of(ValueType::ExternRef, &mut stack), Ok(Value::ExternRef(None)));
    assert_eq!(stack.width(), 1);
    assert_eq!(Value::pop_from(ValueType::FuncRef, &mut stack), Ok(Value::FuncRef(None)));
    stack.push_ref(Some(4));
    assert_eq!(Value::top_of(ValueType::FuncRef, &mut stack), Ok(Value::FuncRef(Some(4))));
    // a V128 is the two cells on top, and one cell alone is too few
    assert_eq!(Value::top_of(ValueType::V128, &mut stack), Err(Fault::StackUnderflow));
    assert_eq!(stack.width(), 1);
    let mut stack = Stack::new();
    Value::V128(0x8899_aabb_ccdd_eeff_0011_2233_4455_6677).push_to(&mut stack);
    assert_eq!(
        Value::top_of(ValueType::V128, &mut stack),
        Ok(Value::V128(0x8899_aabb_ccdd_eeff_0011_2233_4455_6677))
    );
    assert_eq!(stack.width(), 2);
    assert_eq!(
        Value::pop_from(ValueType::V128, &mut stack),
        Ok(Value::V128(0x8899_aabb_ccdd_eeff_0011_2233_4455_6677))
    );
}

#[test]
fn a_local_that_is_teed_a_null_holds_a_null() {
    let mut program = Program::new();
    program.local_types.push(ValueType::FuncRef);
    let mut frame = Frame::new(1, program);
    frame.locals[0] = Value::FuncRef(Some(3));
    frame.stack.push_ref(None);
    assert_eq!(frame.set_local_from_stack(0, false), Ok(()));
    assert_eq!(frame.locals[0], Value::FuncRef(None));
    assert_eq!(frame.stack.width(), 1);
}

#[test]
fn equality_with_nan_takes_every_nan_for_equal() {
    let nan = Value::F32(f32::NAN.to_bits());
    let other_nan = Value::F32(0xffc0_0001);
    assert!(nan.eq_w_nan(&other_nan));
    assert!(!nan.eq_w_nan(&Value::F32(1.0f32.to_bits())));
    assert!(Value::F32(0).eq_w_nan(&Value::F32(0x8000_0000)));
    assert!(Value::F64(f64::NAN.to_bits()).eq_w_nan(&Value::F64(0x7ff0_0000_0000_0001)));
    assert!(!Value::F64(1.0f64.to_bits()).eq_w_nan(&Value::F64(2.0f64.to_bits())));
    assert!(!Value::F32(0).eq_w_nan(&Value::F64(0)));
    assert!(Value::I32(4).eq_w_nan(&Value::I32(4)));
    assert!(!Value::I32(4).eq_w_nan(&Value::I64(4)));
}

#[test]
fn lists_of_values_keep_their_order() {
    let mut stack = Stack::new();
    let values = vec![Value::I32(1), Value::I64(2), Value::F32(3)];
    push_values(&values, &mut stack);
    assert_eq!(stack.top_u64(), Ok(3));
    let types = vec![ValueType::I32, ValueType::I64, ValueType::F32];
    assert_eq!(pop_values(&types, &mut stack), Ok(values));
    stack.push_i32(1);
    assert_eq!(pop_values(&types, &mut stack), Err(Fault::StackUnderflow));
}

#[test]
fn integer_operations_have_their_exact_values() {
    assert_eq!(div_s32(7, -2), Ok(-3));
    assert_eq!(div_s32(-7, 2), Ok(-3));
    assert_eq!(div_s32(-7, -2), Ok(3));
    assert_eq!(div_s32(i32::MIN, -1), Err(Fault::IntegerOverflow));
    assert_eq!(div_s32(i32::MIN, 1), Ok(i32::MIN));
    assert_eq!(div_s32(5, 0), Err(Fault::IntegerDivisionByZero));
    assert_eq!(rem_s32(7, -2), Ok(1));
    assert_eq!(rem_s32(-7, 2), Ok(-1));
    assert_eq!(rem_s32(i32::MIN, -1), Ok(0));
    assert_eq!(rem_s32(1, 0), Err(Fault::IntegerDivisionByZero));
    assert_eq!(div_u32(u32::MAX, 2), Ok(0x7fff_ffff));
    assert_eq!(div_u32(1, 0), Err(Fault::IntegerDivisionByZero));
    assert_eq!(rem_u32(u32::MAX, 10), Ok(5));
    assert_eq!(rem_u32(1, 0), Err(Fault::IntegerDivisionByZero));
    assert_eq!(div_s64(i64::MIN, -1), Err(Fault::IntegerOverflow));
    assert_eq!(div_s64(i64::MIN, 2), Ok(i64::MIN / 2));
    assert_eq!(div_s64(-9, 0), Err(Fault::IntegerDivisionByZero));
    assert_eq!(rem_s64(i64::MIN, -1), Ok(0));
    assert_eq!(rem_s64(-9, 4), Ok(-1));
    assert_eq!(div_u64(u64::MAX, 3), Ok(u64::MAX / 3));
    assert_eq!(rem_u64(u64::MAX, 0), Err(Fault::IntegerDivisionByZero));
    assert_eq!(clz32(0), 32);
    assert_eq!(clz32(1), 31);
    assert_eq!(ctz32(0), 32);
    assert_eq!(ctz32(0x8000_0000), 31);
    assert_eq!(clz64(0), 64);
    assert_eq!(clz64(0x10), 59);
    assert_eq!(ctz64(0x10), 4);
    assert_eq!(popcount(0), 0);
    assert_eq!(popcount(u64::MAX), 64);
    assert_eq!(popcount(0xf0f0), 8);
    assert_eq!(rotl32(0x8000_0001, 1), 3);
    assert_eq!(rotl32(0x1234_5678, 32), 0x1234_5678);
    assert_eq!(rotr32(3, 1), 0x8000_0001);
    assert_eq!(rotr32(0x1234_5678, 36), 0x8123_4567);
    assert_eq!(rotl64(0x8000_0000_0000_0001, 65), 3);
    assert_eq!(rotr64(1, 1), 0x8000_0000_0000_0000);
    assert_eq!(ref_eq(None, None), 1);
    assert_eq!(ref_eq(Some(4), Some(4)), 1);
    assert_eq!(ref_eq(None, Some(4)), 0);
    assert_eq!(ref_eq(Some(4), Some(5)), 0);
}

#[test]
fn random_integer_operations_agree_with_the_language() {
    let mut x: u64 = 0x2545_f491_4f6c_dd1d;
    let mut next = || {
        x ^= x << 13;
        x ^= x >> 7;
        x ^= x << 17;
        x
    };
    for _ in 0..5000 {
        let (a, b) = (next(), next() >> (next() % 64));
        let (a32, b32) = (a as u32 as i32, b as u32 as i32);
        if b32 != 0 && !(a32 == i32::MIN && b32 == -1) {
            assert_eq!(div_s32(a32, b32), Ok(a32 / b32));
            assert_eq!(rem_s32(a32, b32), Ok(a32 % b32));
        }
        let (a64, b64) = (a as i64, b as i64);
        if b64 != 0 && !(a64 == i64::MIN && b64 == -1) {
            assert_eq!(div_s64(a64, b64), Ok(a64 / b64));
            assert_eq!(rem_s64(a64, b64), Ok(a64 % b64));
        }
        assert_eq!(popcount(a), a.count_ones() as u64);
        assert_eq!(rotl32(a as u32, b as u32), (a as u32).rotate_left(b as u32));
        assert_eq!(rotr32(a as u32, b as u32), (a as u32).rotate_right(b as u32));
        assert_eq!(rotl64(a, b as u32), a.rotate_left(b as u32));
        assert_eq!(rotr64(a, b as u32), a.rotate_right(b as u32));
        assert_eq!(clz64(b), b.leading_zeros() as u64);
        assert_eq!(ctz64(b), b.trailing_zeros() as u64);
        assert_eq!(
            binary(&Op::I32Shl, a, b),
            Some(Ok(a32.wrapping_shl(b as u32) as i64 as u64))
        );
        assert_eq!(
            binary(&Op::I32ShrS, a, b),
            Some(Ok(a32.wrapping_shr(b as u32) as i64 as u64))
        );
        assert_eq!(binary(&Op::I64ShrU, a, b), Some(Ok(a.wrapping_shr(b as u32))));
        assert_eq!(
            binary(&Op::I64Mul, a, b),
            Some(Ok(a64.wrapping_mul(b64) as u64))
        );
        assert_eq!(
            binary(&Op::I32Sub, a, b),
            Some(Ok(a32.wrapping_sub(b32) as i64 as u64))
        );
        assert_eq!(binary(&Op::I64LtS, a, b), Some(Ok((a64 < b64) as u64)));
        assert_eq!(binary(&Op::I32GeU, a, b), Some(Ok(((a as u32) >= (b as u32)) as u64)));
        assert_eq!(unary(&Op::I64Extend16S, a), Some(Ok(a as i16 as i64 as u64)));
        assert_eq!(unary(&Op::I32Extend8S, a), Some(Ok(a as i8 as i32 as i64 as u64)));
        assert_eq!(unary(&Op::I32WrapI64, a), Some(Ok(a32 as i64 as u64)));
        assert_eq!(unary(&Op::I64ExtendI32U, a), Some(Ok(a as u32 as u64)));
    }
}

#[test]
fn wrapping_arithmetic_on_cells_obeys_its_laws() {
    let cell = |v: i32| v as i64 as u64;
    let add = |a: u64, b: u64| binary(&Op::I32Add, a, b).unwrap().unwrap();
    let (a, b, c) = (cell(i32::MAX), cell(5), cell(-7));
    assert_eq!(add(add(a, b), c), add(a, add(b, c)));
    assert_eq!(add(a, b), cell(i32::MIN + 4));
    assert_eq!(binary(&Op::I32Mul, a, cell(0)), Some(Ok(0)));
    assert_eq!(binary(&Op::I32Xor, a, a), Some(Ok(0)));
    assert_eq!(binary(&Op::I32Or, c, c), Some(Ok(c)));
    for x in -128..=127i32 {
        let low = x & 0xff;
        let wide = low | (if low < 0x80 { 0 } else { 0xffff_ff00u32 as i32 });
        assert_eq!(unary(&Op::I32Extend8S, cell(wide)), Some(Ok(cell(x))));
    }
    assert_eq!(unary(&Op::RefIsNull, 0xffff_ffff), Some(Ok(1)));
    assert_eq!(unary(&Op::RefIsNull, 0), Some(Ok(0)));
    assert_eq!(unary(&Op::RefAsNonNull, 0xffff_ffff), Some(Err(Fault::NullReference)));
    assert_eq!(unary(&Op::RefAsNonNull, 3), Some(Ok(3)));
    assert_eq!(binary(&Op::RefEq, 3, 3), Some(Ok(1)));
    assert_eq!(binary(&Op::RefEq, 0xffff_ffff, 3), Some(Ok(0)));
    assert_eq!(unary(&Op::I32Add, 1), None);
    assert_eq!(binary(&Op::I32Eqz, 1, 1), None);
    assert_eq!(host_float(&Op::I32Add), None);
    assert!(host_float(&Op::F64Sqrt).is_some());
    assert_eq!(unary(&Op::F64Sqrt, 0), None);
}

fn frame_with(ops: Vec<Op>) -> Frame {
    Frame::new(0, Program { ops, local_types: vec![], return_types: vec![] })
}

#[test]
fn a_branch_closes_scopes_and_cuts_the_stack() {
    let unit = TypeSignature::ValueType(ValueType::Unit);
    let int = TypeSignature::ValueType(ValueType::I32);
    let ops = vec![
        Op::StartScope(int, ScopeType::Block),
        Op::StartScope(unit, ScopeType::Loop),
        Op::StartScope(unit, ScopeType::Block),
        Op::Br(2),
        Op::EndScope(ScopeType::Block),
        Op::EndScope(ScopeType::Loop),
        Op::EndScope(ScopeType::Block),
        Op::Nop,
    ];
    // three scopes open, five cells on the stack; branch at index 3
    let build = || {
        let mut frame = frame_with(ops.clone());
        frame.stack.push_i32(10);
        frame.push_control(Type::ValueType(ValueType::I32), ScopeType::Block);
        frame.stack.push_i32(11);
        frame.stack.push_i32(12);
        frame.push_control(Type::ValueType(ValueType::Unit), ScopeType::Loop);
        frame.stack.push_i32(13);
        frame.push_control(Type::ValueType(ValueType::Unit), ScopeType::Block);
        frame.stack.push_i32(14);
        frame.pc = 4;
        frame
    };
    // to the innermost block: one scope less, the stack cut to its entry
    let mut frame = build();
    assert_eq!(execute_branch(&mut frame, 0), Ok(()));
    assert_eq!(frame.control_stack.len(), 2);
    assert_eq!(frame.stack.width(), 4);
    assert_eq!(frame.pc, 5);
    // to the loop: it stays open, and runs again from its start
    let mut frame = build();
    assert_eq!(execute_branch(&mut frame, 1), Ok(()));
    assert_eq!(frame.control_stack.len(), 2);
    assert_eq!(frame.stack.width(), 3);
    assert_eq!(frame.pc, 2);
    // to the outer block: its result is carried across
    let mut frame = build();
    assert_eq!(execute_branch(&mut frame, 2), Ok(()));
    assert_eq!(frame.control_stack.len(), 0);
    assert_eq!(frame.stack.width(), 2);
    assert_eq!(frame.stack.pop_i32(), Ok(14));
    assert_eq!(frame.stack.pop_i32(), Ok(10));
    assert_eq!(frame.pc, 7);
    let mut frame = build();
    assert_eq!(execute_branch(&mut frame, 3), Err(Fault::ControlStackUnderflow));
}

#[test]
fn a_frame_keeps_its_locals_and_scopes() {
    let mut frame = Frame::new(
        2,
        Program {
            ops: vec![],
            local_types: vec![ValueType::I64, ValueType::I32],
            return_types: vec![ValueType::I32],
        },
    );
    assert_eq!(frame.locals, vec![Value::Unit, Value::Unit]);
    assert_eq!(frame.return_types, vec![ValueType::I32]);
    assert_eq!(frame.pop_control().err(), Some(Fault::ControlStackUnderflow));
    frame.stack.push_i64(77);
    assert_eq!(frame.set_local_from_stack(0, false), Ok(()));
    assert_eq!(frame.stack.width(), 1);
    assert_eq!(frame.set_local_from_stack(1, true), Ok(()));
    assert_eq!(frame.locals, vec![Value::I64(77), Value::I32(77)]);
    assert_eq!(frame.set_local_from_stack(1, true), Err(Fault::StackUnderflow));
    assert_eq!(frame.set_local_from_stack(2, true), Err(Fault::LocalIndexOutOfBounds));
    assert_eq!(frame.push_local_to_stack(2), Err(Fault::LocalIndexOutOfBounds));
    assert_eq!(frame.push_local_to_stack(0), Ok(()));
    frame.push_control(
        Type::FunctionType(FuncType {
            params: vec![],
            results: vec![ValueType::I64],
        }),
        ScopeType::Block,
    );
    assert_eq!(frame.control_stack[0].stack_width, 1);
    frame.stack.push_i64(5);
    let (control, results) = frame.pop_control().unwrap();
    assert_eq!(control.scope_type, ScopeType::Block);
    assert_eq!(results, vec![Value::I64(5)]);
    assert_eq!(frame.stack.width(), 1);
}

#[test]
fn signatures_resolve_against_the_types_of_the_module() {
    let types = vec![
        FuncType { params: vec![ValueType::I32], results: vec![] },
        FuncType { params: vec![ValueType::I32], results: vec![] },
        FuncType { params: vec![], results: vec![ValueType::I32] },
    ];
    assert_eq!(
        resolve_type(&types, TypeSignature::ValueType(ValueType::F32)),
        Ok(Type::ValueType(ValueType::F32))
    );
    assert_eq!(
        resolve_type(&types, TypeSignature::Index(2)),
        Ok(Type::FunctionType(types[2].clone()))
    );
    assert_eq!(
        resolve_type(&types, TypeSignature::Index(3)),
        Err(Fault::UnresolvableTypeIndex(3))
    );
    assert!(same_func_type(&types[0], &types[1]));
    assert!(!same_func_type(&types[0], &types[2]));
    let mut stack = Stack::new();
    stack.push_i32(-1);
    assert_eq!(
        adjust_memarg(&mut stack, &MemArg { offset: 16, align: 0 }),
        Ok(Some(0xffff_ffff + 16))
    );
    assert_eq!(
        adjust_memarg(&mut stack, &MemArg { offset: 16, align: 0 }),
        Err(Fault::StackUnderflow)
    );
}

/// Runs the operations on the given cells and gives what comes back and
/// the cells left.
fn run_ops(ops: Vec<Op>, cells: &[u64]) -> (Result<Continuation, Fault>, Vec<u64>) {
    let mut frame = frame_with(ops);
    for cell in cells {
        frame.stack.push_u64(*cell);
    }
    let mut memory = VectorMemory::new(0, Some(0));
    let mut ticks = 0;
    let result = execute(
        &mut frame,
        &mut memory,
        &mut vec![],
        &mut vec![],
        &mut ticks,
        100,
        &[],
        &[],
    );
    let mut left = vec![];
    while let Ok(cell) = frame.stack.pop_u64() {
        left.insert(0, cell);
    }
    (result, left)
}

#[test]
fn short_programs_leave_what_their_operations_make() {
    let cell = |v: i32| v as i64 as u64;
    for (a, b, c) in [(1, 2, 3), (i32::MAX, 5, -7), (i32::MIN, -1, i32::MIN), (0, 0, 0)] {
        let sum = a.wrapping_add(b).wrapping_add(c);
        let first = vec![Op::I32Const(a), Op::I32Const(b), Op::I32Add, Op::I32Const(c), Op::I32Add];
        let second = vec![Op::I32Const(a), Op::I32Const(b), Op::I32Const(c), Op::I32Add, Op::I32Add];
        assert_eq!(run_ops(first, &[]), (Ok(Continuation::ProgramEnd), vec![cell(sum)]));
        assert_eq!(run_ops(second, &[]), (Ok(Continuation::ProgramEnd), vec![cell(sum)]));
        assert_eq!(
            run_ops(vec![Op::I32Const(a), Op::I32Const(0), Op::I32Mul], &[]),
            (Ok(Continuation::ProgramEnd), vec![0])
        );
        assert_eq!(
            run_ops(vec![Op::I32Const(a), Op::I32Const(a), Op::I32Xor], &[]),
            (Ok(Continuation::ProgramEnd), vec![0])
        );
        assert_eq!(
            run_ops(vec![Op::I32Const(a), Op::I32Const(a), Op::I32Or], &[]),
            (Ok(Continuation::ProgramEnd), vec![cell(a)])
        );
    }
}

#[test]
fn an_operation_without_its_operands_underflows_and_one_with_them_changes_the_width() {
    assert_eq!(run_ops(vec![Op::I32Add], &[1]).0, Err(Fault::StackUnderflow));
    assert_eq!(run_ops(vec![Op::I32Eqz], &[]).0, Err(Fault::StackUnderflow));
    assert_eq!(run_ops(vec![Op::Select], &[1, 2]).0, Err(Fault::StackUnderflow));
    assert_eq!(run_ops(vec![Op::Drop], &[]).0, Err(Fault::StackUnderflow));
    assert_eq!(run_ops(vec![Op::I32Add], &[9, 1, 2]), (Ok(Continuation::ProgramEnd), vec![9, 3]));
    assert_eq!(run_ops(vec![Op::Select], &[9, 1, 2, 0]), (Ok(Continuation::ProgramEnd), vec![9, 2]));
    assert_eq!(run_ops(vec![Op::Drop], &[9, 1]), (Ok(Continuation::ProgramEnd), vec![9]));
    assert_eq!(run_ops(vec![Op::I64Const(4)], &[9]), (Ok(Continuation::ProgramEnd), vec![9, 4]));
}

#[test]
fn sign_extension_and_saturation_run_on_the_top_cell() {
    let cell = |v: i32| v as i64 as u64;
    for x in [-128i32, -1, 0, 1, 127] {
        let wide = (x & 0xff) | 0x5a00;
        assert_eq!(
            run_ops(vec![Op::I32Extend8S], &[7, cell(wide)]),
            (Ok(Continuation::ProgramEnd), vec![7, cell(x)])
        );
    }
    let single = |v: f32| v.to_bits() as u64;
    let double = |v: f64| v.to_bits();
    let end = Ok(Continuation::ProgramEnd);
    assert_eq!(run_ops(vec![Op::I32TruncSatF32S], &[single(f32::NAN)]), (end, vec![0]));
    assert_eq!(
        run_ops(vec![Op::I32TruncSatF32S], &[single(f32::NEG_INFINITY)]),
        (end, vec![cell(i32::MIN)])
    );
    assert_eq!(run_ops(vec![Op::I32TruncSatF32S], &[single(3e9)]), (end, vec![cell(i32::MAX)]));
    assert_eq!(run_ops(vec![Op::I32TruncSatF32S], &[single(-2.9)]), (end, vec![cell(-2)]));
    assert_eq!(run_ops(vec![Op::I32TruncSatF64U], &[double(-1.5)]), (end, vec![0]));
    assert_eq!(
        run_ops(vec![Op::I32TruncSatF64U], &[double(1e10)]),
        (end, vec![u32::MAX as u64])
    );
    assert_eq!(
        run_ops(vec![Op::I64TruncSatF64S], &[double(f64::INFINITY)]),
        (end, vec![i64::MAX as u64])
    );
    assert_eq!(
        run_ops(vec![Op::I64TruncSatF32U], &[single(2.5)]),
        (end, vec![2])
    );
}
