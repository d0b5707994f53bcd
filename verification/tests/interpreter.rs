use wasbox::exec::{
    ExecError, Execution, ExecutionOptions, Fault, FloatOp, FloatRequest, Value,
};
use wasbox::instance::{finish_start, instantiate, mk_instance, start_execution, LinkError};
use wasbox::module::Module;
use wasbox::{Memory, VectorMemory};

/// What the host makes of a floating-point operation.
fn host(request: FloatRequest) -> u64 {
    let a32 = f32::from_bits(request.a as u32);
    let b32 = f32::from_bits(request.b as u32);
    let a64 = f64::from_bits(request.a);
    let b64 = f64::from_bits(request.b);
    let f32_cell = |v: f32| v.to_bits() as u64;
    match request.op {
        FloatOp::F32Ceil => f32_cell(a32.ceil()),
        FloatOp::F32Floor => f32_cell(a32.floor()),
        FloatOp::F32Trunc => f32_cell(a32.trunc()),
        FloatOp::F32Nearest => f32_cell(a32.round_ties_even()),
        FloatOp::F32Sqrt => f32_cell(a32.sqrt()),
        FloatOp::F32Add => f32_cell(a32 + b32),
        FloatOp::F32Sub => f32_cell(a32 - b32),
        FloatOp::F32Mul => f32_cell(a32 * b32),
        FloatOp::F32Div => f32_cell(a32 / b32),
        FloatOp::F64Ceil => a64.ceil().to_bits(),
        FloatOp::F64Floor => a64.floor().to_bits(),
        FloatOp::F64Trunc => a64.trunc().to_bits(),
        FloatOp::F64Nearest => a64.round_ties_even().to_bits(),
        FloatOp::F64Sqrt => a64.sqrt().to_bits(),
        FloatOp::F64Add => (a64 + b64).to_bits(),
        FloatOp::F64Sub => (a64 - b64).to_bits(),
        FloatOp::F64Mul => (a64 * b64).to_bits(),
        FloatOp::F64Div => (a64 / b64).to_bits(),
        FloatOp::F32ConvertI32S => f32_cell(request.a as u32 as i32 as f32),
        FloatOp::F32ConvertI32U => f32_cell(request.a as u32 as f32),
        FloatOp::F32ConvertI64S => f32_cell(request.a as i64 as f32),
        FloatOp::F32ConvertI64U => f32_cell(request.a as f32),
        FloatOp::F32DemoteF64 => f32_cell(a64 as f32),
        FloatOp::F64ConvertI32S => (request.a as u32 as i32 as f64).to_bits(),
        FloatOp::F64ConvertI32U => (request.a as u32 as f64).to_bits(),
        FloatOp::F64ConvertI64S => (request.a as i64 as f64).to_bits(),
        FloatOp::F64ConvertI64U => (request.a as f64).to_bits(),
        FloatOp::F64PromoteF32 => (a32 as f64).to_bits(),
    }
}

/// Runs an execution to its end, with the host doing the float arithmetic.
fn drive(execution: &mut Execution<VectorMemory>) -> Result<(), ExecError> {
    loop {
        execution.run()?;
        match execution.pending() {
            Some(request) => execution.resume(host(request)),
            None => return Ok(()),
        }
    }
}

fn start(wat: &str) -> Execution<VectorMemory> {
    let bytes = wat::parse_str(wat).unwrap();
    let instance = mk_instance(Module::load(&bytes).unwrap()).unwrap();
    let memory = if instance.memories.is_empty() {
        VectorMemory::new(0, Some(0))
    } else {
        instance.memories[0].clone()
    };
    Execution::new(instance, memory)
}

fn invoke(
    execution: &mut Execution<VectorMemory>,
    name: &str,
    args: &[Value],
) -> Result<Vec<Value>, ExecError> {
    let index = execution.instance().find_funcidx(name).unwrap();
    execution.prepare(index, args)?;
    drive(execution)?;
    Ok(execution.result().unwrap().to_vec())
}

fn fault(
    execution: &mut Execution<VectorMemory>,
    name: &str,
    args: &[Value],
) -> Fault {
    match invoke(execution, name, args) {
        Err(ExecError::Fault(f)) => f,
        other => panic!("a fault was expected, not {other:?}"),
    }
}

#[test]
fn test_start_function_execution() {
    // WASM module with start function that increments memory 3 times
    let wasm_bytes = wat::parse_str(
        r#"
            (module
              (memory (data "A"))
              (func $inc
                (i32.store8
                  (i32.const 0)
                  (i32.add
                    (i32.load8_u (i32.const 0))
                    (i32.const 1)
                  )
                )
              )
              (func $get (result i32)
                (return (i32.load8_u (i32.const 0)))
              )
              (func $main
                (call $inc)
                (call $inc)
                (call $inc)
              )
              (start $main)
              (export "get" (func $get))
            )
        "#,
    )
    .unwrap();

    // Load and instantiate module (start function should run automatically)
    let module = wasbox::Module::load(&wasm_bytes).unwrap();
    let instance = wasbox::mk_instance(module).unwrap();

    // Create execution context and call the get function
    let memory = instance.memories[0].clone();
    let mut execution = wasbox::Execution::new(instance, memory);

    // Find the "get" function and call it
    let get_func_idx = execution.instance().find_funcidx("get").unwrap();
    execution.prepare(get_func_idx, &[]).unwrap();
    execution.run().unwrap();

    // Check that the result is 68 (65 + 3 increments)
    let result = execution.result().unwrap();
    assert_eq!(result.len(), 1);
    assert_eq!(result[0], wasbox::Value::I32(68));
}

#[test]
fn a_start_function_that_traps_fails_the_instantiation() {
    let bytes = wat::parse_str(
        r#"(module (func $main (drop (i32.div_u (i32.const 1) (i32.const 0)))) (start $main))"#,
    )
    .unwrap();
    assert!(matches!(
        mk_instance(Module::load(&bytes).unwrap()),
        Err(LinkError::ActiveExpressionError(Fault::IntegerDivisionByZero))
    ));
}

const DISPATCH: &str = r#"
    (module
      (type $t (func (param i32) (result i32)))
      (table 32 funcref)
      (func $times2 (type $t) (i32.mul (local.get 0) (i32.const 2)))
      (func $times3 (type $t) (i32.mul (local.get 0) (i32.const 3)))
      (func $pair (param i32 i32) (result i32) (local.get 0))
      (func (export "dispatch") (param i32 i32) (result i32)
        (call_indirect (type $t) (local.get 1) (local.get 0)))
      (elem (i32.const 0) $times2 $times3)
      (elem (i32.const 5) $pair)
    )
"#;

#[test]
fn an_indirect_call_goes_through_the_table() {
    let mut execution = start(DISPATCH);
    assert_eq!(
        invoke(&mut execution, "dispatch", &[Value::I32(0), Value::I32(21)]),
        Ok(vec![Value::I32(42)])
    );
    assert_eq!(
        invoke(&mut execution, "dispatch", &[Value::I32(1), Value::I32(10)]),
        Ok(vec![Value::I32(30)])
    );
}

#[test]
fn an_indirect_call_traps_on_a_null_a_missing_or_a_mistyped_element() {
    let mut execution = start(DISPATCH);
    // within the table, never written
    assert_eq!(
        fault(&mut execution, "dispatch", &[Value::I32(2), Value::I32(0)]),
        Fault::UninitializedElement
    );
    // beyond the table
    assert_eq!(
        fault(&mut execution, "dispatch", &[Value::I32(32), Value::I32(0)]),
        Fault::UndefinedElement
    );
    assert_eq!(
        fault(&mut execution, "dispatch", &[Value::I32(-1), Value::I32(0)]),
        Fault::UndefinedElement
    );
    // a function of another type
    assert_eq!(
        fault(&mut execution, "dispatch", &[Value::I32(5), Value::I32(0)]),
        Fault::IndirectCallTypeMismatch
    );
}

const BLOCK: &str = r#"
    (module
      (func (export "f") (param i32) (result i32)
        (block (result i32) (br_if 0 (local.get 0)) (i32.const 7))
        (i32.const 9)
        (i32.add))
      (func (export "g") (param i32) (result i32)
        (block (result i32) (br_if 0 (i32.const 5) (local.get 0)) (drop) (i32.const 7))
        (i32.const 9)
        (i32.add))
    )
"#;

#[test]
fn a_conditional_branch_that_is_not_taken_falls_through() {
    let mut execution = start(BLOCK);
    assert_eq!(
        invoke(&mut execution, "f", &[Value::I32(0)]),
        Ok(vec![Value::I32(16)])
    );
    assert_eq!(
        invoke(&mut execution, "g", &[Value::I32(0)]),
        Ok(vec![Value::I32(16)])
    );
}

#[test]
fn a_conditional_branch_that_is_taken_carries_the_result_of_its_block() {
    let mut execution = start(BLOCK);
    assert_eq!(
        invoke(&mut execution, "g", &[Value::I32(1)]),
        Ok(vec![Value::I32(14)])
    );
    // with no value for the block on the stack, the branch underflows
    assert_eq!(
        fault(&mut execution, "f", &[Value::I32(1)]),
        Fault::StackUnderflow
    );
}

const ARITHMETIC: &str = r#"
    (module
      (func (export "div_s") (param i32 i32) (result i32)
        (i32.div_s (local.get 0) (local.get 1)))
      (func (export "div_u") (param i32 i32) (result i32)
        (i32.div_u (local.get 0) (local.get 1)))
      (func (export "rem_s") (param i32 i32) (result i32)
        (i32.rem_s (local.get 0) (local.get 1)))
      (func (export "div_s64") (param i64 i64) (result i64)
        (i64.div_s (local.get 0) (local.get 1)))
      (func (export "trunc") (param f32) (result i32)
        (i32.trunc_f32_s (local.get 0)))
      (func (export "trunc_sat") (param f32) (result i32)
        (i32.trunc_sat_f32_s (local.get 0)))
      (func (export "ops") (param i32 i32) (result i32)
        (i32.xor
          (i32.rotl (local.get 0) (local.get 1))
          (i32.shl (i32.popcnt (local.get 0)) (i32.clz (local.get 1)))))
      (func (export "wide") (param i64) (result i64)
        (i64.add
          (i64.extend_i32_s (i32.wrap_i64 (local.get 0)))
          (i64.extend8_s (local.get 0))))
    )
"#;

#[test]
fn division_of_the_least_integer_by_minus_one_overflows() {
    let mut execution = start(ARITHMETIC);
    let index = execution.instance().find_funcidx("div_s").unwrap();
    execution
        .prepare(
            index,
            &[Value::I32(0x80000000u32 as i32), Value::I32(0xffffffffu32 as i32)],
        )
        .unwrap();
    assert_eq!(execution.run(), Err(ExecError::Fault(Fault::IntegerOverflow)));
    assert_eq!(
        fault(&mut execution, "div_s64", &[Value::I64(i64::MIN), Value::I64(-1)]),
        Fault::IntegerOverflow
    );
}

#[test]
fn division_by_zero_traps_and_other_divisions_truncate() {
    let mut execution = start(ARITHMETIC);
    assert_eq!(
        fault(&mut execution, "div_u", &[Value::I32(17), Value::I32(0)]),
        Fault::IntegerDivisionByZero
    );
    assert_eq!(
        fault(&mut execution, "div_s", &[Value::I32(0), Value::I32(0)]),
        Fault::IntegerDivisionByZero
    );
    assert_eq!(
        fault(&mut execution, "rem_s", &[Value::I32(1), Value::I32(0)]),
        Fault::IntegerDivisionByZero
    );
    assert_eq!(
        invoke(&mut execution, "div_s", &[Value::I32(-7), Value::I32(2)]),
        Ok(vec![Value::I32(-3)])
    );
    assert_eq!(
        invoke(&mut execution, "rem_s", &[Value::I32(-7), Value::I32(2)]),
        Ok(vec![Value::I32(-1)])
    );
    assert_eq!(
        invoke(&mut execution, "rem_s", &[Value::I32(i32::MIN), Value::I32(-1)]),
        Ok(vec![Value::I32(0)])
    );
    assert_eq!(
        invoke(&mut execution, "div_u", &[Value::I32(-1), Value::I32(2)]),
        Ok(vec![Value::I32(0x7fff_ffff)])
    );
}

#[test]
fn truncation_traps_where_saturation_does_not() {
    let mut execution = start(ARITHMETIC);
    let f = |v: f32| Value::F32(v.to_bits());
    assert_eq!(fault(&mut execution, "trunc", &[f(f32::NAN)]), Fault::InvalidConversion);
    assert_eq!(
        fault(&mut execution, "trunc", &[f(2147483648.0)]),
        Fault::IntegerOverflow
    );
    assert_eq!(
        fault(&mut execution, "trunc", &[f(f32::NEG_INFINITY)]),
        Fault::IntegerOverflow
    );
    assert_eq!(
        invoke(&mut execution, "trunc", &[f(-2147483648.0)]),
        Ok(vec![Value::I32(i32::MIN)])
    );
    assert_eq!(invoke(&mut execution, "trunc", &[f(-3.99)]), Ok(vec![Value::I32(-3)]));
    assert_eq!(invoke(&mut execution, "trunc_sat", &[f(f32::NAN)]), Ok(vec![Value::I32(0)]));
    assert_eq!(
        invoke(&mut execution, "trunc_sat", &[f(1e20)]),
        Ok(vec![Value::I32(i32::MAX)])
    );
    assert_eq!(
        invoke(&mut execution, "trunc_sat", &[f(f32::NEG_INFINITY)]),
        Ok(vec![Value::I32(i32::MIN)])
    );
}

#[test]
fn bit_operations_count_shift_and_rotate() {
    let mut execution = start(ARITHMETIC);
    let a = 0x8000_00f1u32;
    let b = 0x0000_4005u32;
    let expected = a.rotate_left(b) ^ (a.count_ones() << (b.leading_zeros() % 32));
    assert_eq!(
        invoke(&mut execution, "ops", &[Value::I32(a as i32), Value::I32(b as i32)]),
        Ok(vec![Value::I32(expected as i32)])
    );
    assert_eq!(
        invoke(&mut execution, "wide", &[Value::I64(0x1_8000_0080)]),
        Ok(vec![Value::I64(i32::MIN as i64)])
    );
}

const MEMORY: &str = r#"
    (module
      (memory 1 2)
      (func (export "size") (result i32) (memory.size))
      (func (export "grow") (param i32) (result i32) (memory.grow (local.get 0)))
      (func (export "load") (param i32) (result i32) (i32.load (local.get 0)))
      (func (export "load_far") (param i32) (result i32) (i32.load offset=65532 (local.get 0)))
      (func (export "store") (param i32 i64) (i64.store32 (local.get 0) (local.get 1)))
      (func (export "load8_s") (param i32) (result i64) (i64.load8_s (local.get 0)))
      (func (export "load16_u") (param i32) (result i32) (i32.load16_u (local.get 0)))
    )
"#;

#[test]
fn memory_grows_by_pages_up_to_its_maximum() {
    let mut execution = start(MEMORY);
    assert_eq!(invoke(&mut execution, "size", &[]), Ok(vec![Value::I32(1)]));
    assert_eq!(invoke(&mut execution, "grow", &[Value::I32(1)]), Ok(vec![Value::I32(1)]));
    assert_eq!(invoke(&mut execution, "size", &[]), Ok(vec![Value::I32(2)]));
    assert_eq!(invoke(&mut execution, "grow", &[Value::I32(1)]), Ok(vec![Value::I32(-1)]));
    assert_eq!(invoke(&mut execution, "size", &[]), Ok(vec![Value::I32(2)]));
    assert_eq!(execution.memory().size() % 65536, 0);
    assert_eq!(execution.memory().size(), 2 * 65536);
}

#[test]
fn growing_by_a_negative_number_of_pages_leaves_minus_one() {
    let mut execution = start(MEMORY);
    assert_eq!(invoke(&mut execution, "grow", &[Value::I32(-1)]), Ok(vec![Value::I32(-1)]));
    assert_eq!(
        invoke(&mut execution, "grow", &[Value::I32(i32::MIN)]),
        Ok(vec![Value::I32(-1)])
    );
    assert_eq!(invoke(&mut execution, "size", &[]), Ok(vec![Value::I32(1)]));
    assert_eq!(invoke(&mut execution, "grow", &[Value::I32(0)]), Ok(vec![Value::I32(1)]));
}

#[test]
fn a_load_that_ends_past_the_memory_is_out_of_bounds() {
    let mut execution = start(MEMORY);
    assert_eq!(invoke(&mut execution, "load", &[Value::I32(65532)]), Ok(vec![Value::I32(0)]));
    assert_eq!(
        fault(&mut execution, "load", &[Value::I32(65533)]),
        Fault::MemoryOutOfBounds
    );
    assert_eq!(fault(&mut execution, "load", &[Value::I32(-1)]), Fault::MemoryOutOfBounds);
    assert_eq!(invoke(&mut execution, "load_far", &[Value::I32(0)]), Ok(vec![Value::I32(0)]));
    assert_eq!(
        fault(&mut execution, "load_far", &[Value::I32(1)]),
        Fault::MemoryOutOfBounds
    );
    assert_eq!(
        fault(&mut execution, "store", &[Value::I32(65533), Value::I64(1)]),
        Fault::MemoryOutOfBounds
    );
}

#[test]
fn stores_narrow_and_loads_extend() {
    let mut execution = start(MEMORY);
    assert_eq!(
        invoke(
            &mut execution,
            "store",
            &[Value::I32(8), Value::I64(0x1122_3344_8566_77f8)]
        ),
        Ok(vec![])
    );
    assert_eq!(&execution.memory().data()[8..13], &[0xf8, 0x77, 0x66, 0x85, 0]);
    assert_eq!(
        invoke(&mut execution, "load", &[Value::I32(8)]),
        Ok(vec![Value::I32(0x8566_77f8u32 as i32)])
    );
    assert_eq!(invoke(&mut execution, "load8_s", &[Value::I32(8)]), Ok(vec![Value::I64(-8)]));
    assert_eq!(
        invoke(&mut execution, "load16_u", &[Value::I32(10)]),
        Ok(vec![Value::I32(0x8566)])
    );
}

const CONTROL: &str = r#"
    (module
      (global $count (mut i32) (i32.const 0))
      (global $limit i32 (i32.const 10))
      (func (export "sum") (param i32) (result i32) (local i32)
        (block
          (loop
            (br_if 1 (i32.eqz (local.get 0)))
            (local.set 1 (i32.add (local.get 1) (local.get 0)))
            (local.set 0 (i32.sub (local.get 0) (i32.const 1)))
            (br 0)))
        (local.get 1))
      (func (export "nested") (param i32) (result i32) (local i32 i32)
        (loop $outer
          (local.set 2 (i32.const 0))
          (loop $inner
            (local.set 1 (i32.add (local.get 1) (i32.const 1)))
            (local.set 2 (i32.add (local.get 2) (i32.const 1)))
            (br_if $inner (i32.lt_u (local.get 2) (i32.const 3))))
          (local.set 0 (i32.sub (local.get 0) (i32.const 1)))
          (br_if $outer (local.get 0)))
        (local.get 1))
      (func (export "outer") (param i32) (result i32) (local i32)
        (loop $outer
          (local.set 1 (i32.add (local.get 1) (i32.const 1)))
          (loop $inner
            (local.set 0 (i32.sub (local.get 0) (i32.const 1)))
            (br_if $outer (local.get 0))))
        (local.get 1))
      (func (export "choose") (param i32) (result i32)
        (if (result i32) (local.get 0)
          (then (if (result i32) (i32.eq (local.get 0) (i32.const 2))
                  (then (i32.const 22))
                  (else (i32.const 11))))
          (else (i32.const 33))))
      (func (export "no_else") (param i32) (result i32) (local i32)
        (local.set 1 (i32.const 4))
        (if (local.get 0) (then (local.set 1 (i32.const 5))))
        (local.get 1))
      (func (export "table") (param i32) (result i32)
        (block $c (block $b (block $a
          (br_table $a $b $c (local.get 0)))
          (return (i32.const 100)))
          (return (i32.const 101)))
        (i32.const 102))
      (func (export "early") (param i32) (result i32)
        (if (local.get 0) (then (return (i32.const 1))))
        (i32.const 0))
      (func (export "select") (param i32) (result i64)
        (select (i64.const 7) (i64.const 8) (local.get 0)))
      (func (export "leave") (param i32) (result i32)
        (block (result i32)
          (i32.const 1) (i32.const 2) (i32.const 3)
          (br 0)))
      (func $fact (export "fact") (param i64) (result i64)
        (if (result i64) (i64.eqz (local.get 0))
          (then (i64.const 1))
          (else (i64.mul (local.get 0) (call $fact (i64.sub (local.get 0) (i64.const 1)))))))
      (func (export "bump") (result i32)
        (global.set $count (i32.add (global.get $count) (i32.const 1)))
        (i32.add (global.get $count) (global.get $limit)))
      (func (export "forever") (loop (br 0)))
      (func $deep (export "deep") (call $deep))
    )
"#;

#[test]
fn loops_branch_back_and_blocks_branch_out() {
    let mut execution = start(CONTROL);
    assert_eq!(invoke(&mut execution, "sum", &[Value::I32(10)]), Ok(vec![Value::I32(55)]));
    assert_eq!(invoke(&mut execution, "sum", &[Value::I32(0)]), Ok(vec![Value::I32(0)]));
    assert_eq!(invoke(&mut execution, "nested", &[Value::I32(4)]), Ok(vec![Value::I32(12)]));
    // a branch from an inner loop to the outer one starts the outer one again
    assert_eq!(invoke(&mut execution, "outer", &[Value::I32(5)]), Ok(vec![Value::I32(5)]));
    assert_eq!(invoke(&mut execution, "leave", &[Value::I32(0)]), Ok(vec![Value::I32(3)]));
}

#[test]
fn if_and_else_choose_their_arm() {
    let mut execution = start(CONTROL);
    assert_eq!(invoke(&mut execution, "choose", &[Value::I32(0)]), Ok(vec![Value::I32(33)]));
    assert_eq!(invoke(&mut execution, "choose", &[Value::I32(1)]), Ok(vec![Value::I32(11)]));
    assert_eq!(invoke(&mut execution, "choose", &[Value::I32(2)]), Ok(vec![Value::I32(22)]));
    assert_eq!(invoke(&mut execution, "no_else", &[Value::I32(0)]), Ok(vec![Value::I32(4)]));
    assert_eq!(invoke(&mut execution, "no_else", &[Value::I32(9)]), Ok(vec![Value::I32(5)]));
    assert_eq!(invoke(&mut execution, "early", &[Value::I32(1)]), Ok(vec![Value::I32(1)]));
    assert_eq!(invoke(&mut execution, "early", &[Value::I32(0)]), Ok(vec![Value::I32(0)]));
    assert_eq!(invoke(&mut execution, "select", &[Value::I32(1)]), Ok(vec![Value::I64(7)]));
    assert_eq!(invoke(&mut execution, "select", &[Value::I32(0)]), Ok(vec![Value::I64(8)]));
}

#[test]
fn a_branch_table_picks_its_depth_or_the_default() {
    let mut execution = start(CONTROL);
    assert_eq!(invoke(&mut execution, "table", &[Value::I32(0)]), Ok(vec![Value::I32(100)]));
    assert_eq!(invoke(&mut execution, "table", &[Value::I32(1)]), Ok(vec![Value::I32(101)]));
    assert_eq!(invoke(&mut execution, "table", &[Value::I32(2)]), Ok(vec![Value::I32(102)]));
    assert_eq!(invoke(&mut execution, "table", &[Value::I32(77)]), Ok(vec![Value::I32(102)]));
}

#[test]
fn calls_push_frames_and_returns_pop_them() {
    let mut execution = start(CONTROL);
    assert_eq!(
        invoke(&mut execution, "fact", &[Value::I64(10)]),
        Ok(vec![Value::I64(3628800)])
    );
    assert_eq!(execution.frame_stack_len(), 0);
}

#[test]
fn an_immutable_global_keeps_its_value_and_a_mutable_one_changes() {
    let mut execution = start(CONTROL);
    assert_eq!(invoke(&mut execution, "bump", &[]), Ok(vec![Value::I32(11)]));
    assert_eq!(invoke(&mut execution, "bump", &[]), Ok(vec![Value::I32(12)]));
    let globals = &execution.instance().globals;
    assert_eq!(globals[0].value, Value::I32(2));
    assert_eq!(globals[1].value, Value::I32(10));
    assert!(!globals[1].decl.mutable);
}

#[test]
fn the_tick_limit_stops_a_loop_and_the_depth_limit_a_recursion() {
    let bytes = wat::parse_str(CONTROL).unwrap();
    let instance = mk_instance(Module::load(&bytes).unwrap()).unwrap();
    let mut execution = Execution::with_options(
        instance,
        VectorMemory::new(0, None),
        ExecutionOptions { tick_limit: 1000, stack_depth_limit: 10 },
    );
    assert_eq!(fault(&mut execution, "forever", &[]), Fault::OutOfTicks);
    // the next invocation counts its ticks from 0
    assert_eq!(invoke(&mut execution, "sum", &[Value::I32(2)]), Ok(vec![Value::I32(3)]));
    // the ticks of the callees count for the invocation
    assert_eq!(invoke(&mut execution, "fact", &[Value::I64(5)]), Ok(vec![Value::I64(120)]));
    assert_eq!(fault(&mut execution, "sum", &[Value::I32(200)]), Fault::OutOfTicks);

    let instance = mk_instance(Module::load(&bytes).unwrap()).unwrap();
    let mut execution = Execution::with_options(
        instance,
        VectorMemory::new(0, None),
        ExecutionOptions { tick_limit: 1000, stack_depth_limit: 10 },
    );
    assert_eq!(fault(&mut execution, "deep", &[]), Fault::CallStackDepthLimit);
    // the fault has torn the frame stack down
    assert_eq!(execution.frame_stack_len(), 0);
    assert_eq!(fault(&mut execution, "fact", &[Value::I64(10)]), Fault::CallStackDepthLimit);
    assert_eq!(invoke(&mut execution, "fact", &[Value::I64(8)]), Ok(vec![Value::I64(40320)]));
    assert_eq!(
        ExecutionOptions::default(),
        ExecutionOptions { tick_limit: 100_000_000, stack_depth_limit: 100_000 }
    );
}

#[test]
fn running_without_a_prepared_function_finds_none() {
    let mut execution = start(CONTROL);
    assert_eq!(
        execution.run(),
        Err(ExecError::LinkageError(LinkError::FunctionNotFound))
    );
    assert!(execution.result().is_none());
    assert_eq!(execution.pending(), None);
    execution.resume(5);
    assert_eq!(execution.frame_stack_len(), 0);
}

const FLOATS: &str = r#"
    (module
      (func (export "hypot") (param f64 f64) (result f64)
        (f64.sqrt (f64.add (f64.mul (local.get 0) (local.get 0))
                           (f64.mul (local.get 1) (local.get 1)))))
      (func (export "mix") (param f32 i32) (result f32)
        (f32.div (f32.nearest (local.get 0)) (f32.convert_i32_s (local.get 1))))
      (func (export "order") (param f32 f32) (result i32)
        (i32.add
          (i32.add (f32.lt (local.get 0) (local.get 1))
                   (i32.shl (f32.eq (local.get 0) (local.get 1)) (i32.const 1)))
          (i32.shl (f32.ge (local.get 0) (local.get 1)) (i32.const 2))))
      (func (export "least") (param f64 f64) (result f64)
        (f64.min (local.get 0) (local.get 1)))
      (func (export "signs") (param f32 f32) (result f32)
        (f32.copysign (f32.abs (f32.neg (local.get 0))) (local.get 1)))
      (func (export "bits") (param f32) (result i32)
        (i32.reinterpret_f32 (f32.reinterpret_i32 (i32.reinterpret_f32 (local.get 0)))))
      (func (export "widen") (param f32) (result f64) (f64.promote_f32 (local.get 0)))
    )
"#;

#[test]
fn float_arithmetic_goes_to_the_host_and_comes_back() {
    let mut execution = start(FLOATS);
    let index = execution.instance().find_funcidx("hypot").unwrap();
    execution
        .prepare(index, &[Value::F64(3.0f64.to_bits()), Value::F64(4.0f64.to_bits())])
        .unwrap();
    assert_eq!(execution.run(), Ok(()));
    assert_eq!(
        execution.pending(),
        Some(FloatRequest { op: FloatOp::F64Mul, a: 3.0f64.to_bits(), b: 3.0f64.to_bits() })
    );
    assert!(execution.result().is_none());
    assert_eq!(drive_rest(&mut execution), Ok(vec![Value::F64(5.0f64.to_bits())]));
    assert_eq!(
        invoke(&mut execution, "mix", &[Value::F32(2.5f32.to_bits()), Value::I32(-4)]),
        Ok(vec![Value::F32((-0.5f32).to_bits())])
    );
    assert_eq!(
        invoke(&mut execution, "widen", &[Value::F32(0.1f32.to_bits())]),
        Ok(vec![Value::F64((0.1f32 as f64).to_bits())])
    );
}

fn drive_rest(execution: &mut Execution<VectorMemory>) -> Result<Vec<Value>, ExecError> {
    while let Some(request) = execution.pending() {
        execution.resume(host(request));
        execution.run()?;
    }
    Ok(execution.result().unwrap().to_vec())
}

#[test]
fn float_comparison_and_signs_work_on_the_bits() {
    let mut execution = start(FLOATS);
    let f = |v: f32| Value::F32(v.to_bits());
    let d = |v: f64| Value::F64(v.to_bits());
    assert_eq!(invoke(&mut execution, "order", &[f(1.0), f(2.0)]), Ok(vec![Value::I32(1)]));
    assert_eq!(invoke(&mut execution, "order", &[f(-0.0), f(0.0)]), Ok(vec![Value::I32(6)]));
    assert_eq!(invoke(&mut execution, "order", &[f(3.0), f(-8.0)]), Ok(vec![Value::I32(4)]));
    assert_eq!(invoke(&mut execution, "order", &[f(f32::NAN), f(1.0)]), Ok(vec![Value::I32(0)]));
    assert_eq!(invoke(&mut execution, "least", &[d(0.0), d(-0.0)]), Ok(vec![d(-0.0)]));
    assert_eq!(invoke(&mut execution, "least", &[d(-1.5), d(2.0)]), Ok(vec![d(-1.5)]));
    let least = invoke(&mut execution, "least", &[d(f64::NAN), d(2.0)]).unwrap();
    assert!(least[0].eq_w_nan(&d(f64::NAN)));
    assert_eq!(invoke(&mut execution, "signs", &[f(2.0), f(-1.0)]), Ok(vec![f(-2.0)]));
    assert_eq!(invoke(&mut execution, "signs", &[f(-2.0), f(1.0)]), Ok(vec![f(2.0)]));
    assert_eq!(
        invoke(&mut execution, "bits", &[Value::F32(0x7fa1_2345)]),
        Ok(vec![Value::I32(0x7fa1_2345)])
    );
}

const REFERENCES: &str = r#"
    (module
      (table $t 2 funcref)
      (func $f)
      (elem declare func $f)
      (func (export "is_null") (param i32) (result i32)
        (ref.is_null (table.get $t (local.get 0))))
      (func (export "put") (param i32)
        (table.set $t (ref.func $f) (local.get 0)))
      (func (export "null") (result i32)
        (ref.is_null (ref.null func)))
    )
"#;

#[test]
fn references_are_null_until_they_are_set() {
    let mut execution = start(REFERENCES);
    assert_eq!(invoke(&mut execution, "null", &[]), Ok(vec![Value::I32(1)]));
    assert_eq!(invoke(&mut execution, "is_null", &[Value::I32(1)]), Ok(vec![Value::I32(1)]));
    assert_eq!(invoke(&mut execution, "put", &[Value::I32(1)]), Ok(vec![]));
    assert_eq!(invoke(&mut execution, "is_null", &[Value::I32(1)]), Ok(vec![Value::I32(0)]));
    assert_eq!(invoke(&mut execution, "is_null", &[Value::I32(0)]), Ok(vec![Value::I32(1)]));
    assert_eq!(
        execution.instance().tables[0].elements,
        vec![None, Some(Value::FuncRef(Some(0)))]
    );
    assert_eq!(
        fault(&mut execution, "is_null", &[Value::I32(2)]),
        Fault::MemoryOutOfBounds
    );
}

/// A module with one function without parameters, of the given result
/// types and body.
fn single_function(results: &[u8], body: &[u8]) -> Vec<u8> {
    let mut bytes = vec![0, 0x61, 0x73, 0x6d, 1, 0, 0, 0];
    // type section
    bytes.extend_from_slice(&[1, 4 + results.len() as u8, 1, 0x60, 0, results.len() as u8]);
    bytes.extend_from_slice(results);
    // function section
    bytes.extend_from_slice(&[3, 2, 1, 0]);
    // code section: no locals, the body, end
    bytes.extend_from_slice(&[10, 4 + body.len() as u8, 1, 2 + body.len() as u8, 0]);
    bytes.extend_from_slice(body);
    bytes.push(0x0b);
    bytes
}

fn run_single(results: &[u8], body: &[u8]) -> Result<Vec<Value>, ExecError> {
    let instance = mk_instance(Module::load(&single_function(results, body)).unwrap()).unwrap();
    let mut execution = Execution::new(instance, VectorMemory::new(65536, None));
    execution.prepare(0, &[])?;
    drive(&mut execution)?;
    Ok(execution.result().unwrap().to_vec())
}

#[test]
fn operations_on_what_is_not_there_trap() {
    // global.get 5 without globals
    assert_eq!(
        run_single(&[0x7f], &[0x23, 0x05]),
        Err(ExecError::Fault(Fault::GlobalIndexOutOfBounds))
    );
    // global.set 0 without globals
    assert_eq!(
        run_single(&[], &[0x41, 0x01, 0x24, 0x00]),
        Err(ExecError::Fault(Fault::GlobalIndexOutOfBounds))
    );
    // table.get on a table that does not exist
    assert_eq!(
        run_single(&[], &[0x41, 0x00, 0x25, 0x03, 0x1a]),
        Err(ExecError::Fault(Fault::GlobalIndexOutOfBounds))
    );
    // ref.null of a type that is no reference
    assert_eq!(
        run_single(&[], &[0xd0, 0x7f, 0x1a]),
        Err(ExecError::Fault(Fault::InvalidRefType))
    );
    // local.get 0 without locals
    assert_eq!(
        run_single(&[0x7f], &[0x20, 0x00]),
        Err(ExecError::Fault(Fault::LocalIndexOutOfBounds))
    );
    // i32.add on one operand
    assert_eq!(
        run_single(&[0x7f], &[0x41, 0x01, 0x6a]),
        Err(ExecError::Fault(Fault::StackUnderflow))
    );
    // br 5 with one scope open
    assert_eq!(
        run_single(&[], &[0x0c, 0x05]),
        Err(ExecError::Fault(Fault::ControlStackUnderflow))
    );
    // a block of a type that does not exist
    assert_eq!(
        run_single(&[], &[0x02, 0x09, 0x0b]),
        Err(ExecError::Fault(Fault::UnresolvableTypeIndex(9)))
    );
    // ref.as_non_null of null
    assert_eq!(
        run_single(&[], &[0xd0, 0x70, 0xd3, 0x1a]),
        Err(ExecError::Fault(Fault::NullReference))
    );
    // a call of a function that does not exist
    assert_eq!(
        run_single(&[], &[0x10, 0x07]),
        Err(ExecError::LinkageError(LinkError::FunctionNotFound))
    );
    // a result that is not on the stack
    assert_eq!(
        run_single(&[0x7f], &[0x01]),
        Err(ExecError::Fault(Fault::StackUnderflow))
    );
}

#[test]
fn constants_and_references_push_their_cells() {
    assert_eq!(run_single(&[0x7e], &[0x42, 0x7f]), Ok(vec![Value::I64(-1)]));
    assert_eq!(
        run_single(&[0x7d], &[0x43, 0x00, 0x00, 0x80, 0xbf]),
        Ok(vec![Value::F32((-1.0f32).to_bits())])
    );
    assert_eq!(run_single(&[0x70], &[0xd2, 0x09]), Ok(vec![Value::FuncRef(Some(9))]));
    assert_eq!(run_single(&[0x6f], &[0xd0, 0x6f]), Ok(vec![Value::ExternRef(None)]));
    // ref.eq of a reference with itself, and of null with a reference
    assert_eq!(
        run_single(&[0x7f], &[0xd2, 0x04, 0xd2, 0x04, 0xd5]),
        Ok(vec![Value::I32(1)])
    );
    assert_eq!(
        run_single(&[0x7f], &[0xd0, 0x70, 0xd2, 0x04, 0xd5]),
        Ok(vec![Value::I32(0)])
    );
    assert_eq!(
        run_single(&[0x7f], &[0xd0, 0x70, 0xd0, 0x70, 0xd5]),
        Ok(vec![Value::I32(1)])
    );
    // unreachable leaves no operation behind, and nop does nothing
    assert_eq!(run_single(&[0x7f], &[0x00, 0x41, 0x05, 0x01]), Ok(vec![Value::I32(5)]));
}

#[test]
fn a_loop_with_parameters_carries_them_around() {
    let mut execution = start(
        r#"
        (module
          (func (export "countdown") (param i32) (result i32)
            (local.get 0)
            (loop (param i32) (result i32)
              (i32.sub (i32.const 1))
              (local.tee 0)
              (local.get 0)
              (br_if 0)))
          (func (export "pair") (param i32) (result i32 i64)
            (block (result i32 i64)
              (local.get 0)
              (i64.const 9)
              (br 0)))
        )
    "#,
    );
    assert_eq!(
        invoke(&mut execution, "countdown", &[Value::I32(5)]),
        Ok(vec![Value::I32(0)])
    );
    assert_eq!(
        invoke(&mut execution, "pair", &[Value::I32(3)]),
        Ok(vec![Value::I32(3), Value::I64(9)])
    );
}

const GLOBALS: &str = r#"
    (module
      (global $fixed i32 (i32.const 7))
      (global $free (mut i32) (i32.const 1))
      (func (export "set_fixed") (param i32) (global.set $fixed (local.get 0)))
      (func (export "set_free") (param i32) (global.set $free (local.get 0)))
      (func (export "fixed") (result i32) (global.get $fixed))
      (func (export "free") (result i32) (global.get $free)))
"#;

#[test]
fn a_global_that_is_not_mutable_cannot_be_set() {
    let mut execution = start(GLOBALS);
    assert_eq!(
        fault(&mut execution, "set_fixed", &[Value::I32(5)]),
        Fault::GlobalIndexOutOfBounds
    );
    assert_eq!(invoke(&mut execution, "fixed", &[]), Ok(vec![Value::I32(7)]));
    assert_eq!(execution.instance().globals[0].value, Value::I32(7));
    assert_eq!(invoke(&mut execution, "set_free", &[Value::I32(5)]), Ok(vec![]));
    assert_eq!(invoke(&mut execution, "free", &[]), Ok(vec![Value::I32(5)]));
    assert_eq!(invoke(&mut execution, "fixed", &[]), Ok(vec![Value::I32(7)]));
}

const FLOAT_START: &str = r#"
    (module
      (memory 1 2)
      (func $main
        (f32.store (i32.const 8) (f32.add (f32.const 1.5) (f32.const 2.25)))
        (drop (memory.grow (i32.const 1))))
      (start $main))
"#;

#[test]
fn a_start_function_with_float_arithmetic_needs_the_host() {
    let bytes = wat::parse_str(FLOAT_START).unwrap();
    assert_eq!(
        mk_instance(Module::load(&bytes).unwrap()).err(),
        Some(LinkError::ActiveExpressionError(Fault::UnexpectedResult(
            wasbox::exec::Continuation::Float(FloatRequest {
                op: FloatOp::F32Add,
                a: 1.5f32.to_bits() as u64,
                b: 2.25f32.to_bits() as u64,
            })
        )))
    );
    let module = Module::load(&bytes).unwrap();
    let start = module.start_function.unwrap();
    let instance = instantiate(module).unwrap();
    assert_eq!(instance.memories[0].size(), 65536);
    let mut execution = start_execution(instance, start).unwrap();
    // the start function stops for the host
    assert_eq!(execution.run(), Ok(()));
    let request = execution.pending().unwrap();
    assert_eq!(request.op, FloatOp::F32Add);
    execution.resume(host(request));
    drive(&mut execution).unwrap();
    let instance = finish_start(execution).unwrap();
    assert_eq!(instance.memories.len(), 1);
    assert_eq!(instance.memories[0].size(), 2 * 65536);
    assert_eq!(instance.memories[0].get_f32(8), Ok(3.75f32.to_bits()));
    // the bound of the memory is the declared one
    let mut memory = instance.memories[0].clone();
    assert_eq!(memory.grow(3 * 65536), Err(Fault::CannotGrowMemory));
}

#[test]
fn a_start_function_that_waits_for_the_host_is_not_finished() {
    let bytes = wat::parse_str(FLOAT_START).unwrap();
    let module = Module::load(&bytes).unwrap();
    let start = module.start_function.unwrap();
    let mut execution = start_execution(instantiate(module).unwrap(), start).unwrap();
    assert_eq!(execution.run(), Ok(()));
    assert!(matches!(
        finish_start(execution),
        Err(LinkError::ActiveExpressionError(Fault::UnexpectedResult(_)))
    ));
}

#[test]
fn a_start_function_that_is_not_there_is_not_found() {
    let bytes = wat::parse_str("(module (memory 1))").unwrap();
    let instance = instantiate(Module::load(&bytes).unwrap()).unwrap();
    assert_eq!(start_execution(instance, 3).err(), Some(LinkError::FunctionNotFound));
}
