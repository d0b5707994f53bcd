//! The interpreter: values, faults, and the execution of decoded function
//! bodies against an instance and a memory.
use crate::float::{float_eq, float_is_nan, is_nan, spec_float_eq};
use crate::frame::{pop_values, push_values, spec_pop_values, spec_push_values, Frame, FrameView};
use crate::instance::{
    spec_frame_for_funcidx, spec_imported_functions, Instance, InstanceView, LinkError,
    TableInstance, Unsupported,
};
use crate::machine::{
    growable_set, lemma_step_keeps, machine_of, spec_step, step, Machine, Step,
};
use crate::memory::Memory;
use crate::module::Global;
use crate::stack::{ref_of, spec_cell_i32, spec_cell_ref, spec_i32_of, spec_ref_of, Stack};
use crate::{views, FuncType, FuncTypeView, ValueType};
use vstd::prelude::*;

verus! {

/// A floating-point operation that the interpreter leaves to its host.
#[derive(Debug, Clone, Copy, PartialEq, Eq, Structural)]
pub enum FloatOp {
    F32Ceil,
    F32Floor,
    F32Trunc,
    F32Nearest,
    F32Sqrt,
    F32Add,
    F32Sub,
    F32Mul,
    F32Div,
    F64Ceil,
    F64Floor,
    F64Trunc,
    F64Nearest,
    F64Sqrt,
    F64Add,
    F64Sub,
    F64Mul,
    F64Div,
    F32ConvertI32S,
    F32ConvertI32U,
    F32ConvertI64S,
    F32ConvertI64U,
    F32DemoteF64,
    F64ConvertI32S,
    F64ConvertI32U,
    F64ConvertI64S,
    F64ConvertI64U,
    F64PromoteF32,
}

/// A floating-point operation to perform, with its operands as cells, the
/// first operand in `a`. A unary operation has 0 in `b`. The cell of the
/// result goes back onto the stack.
#[derive(Debug, Clone, Copy, PartialEq, Eq, Structural)]
pub struct FloatRequest {
    pub op: FloatOp,
    pub a: u64,
    pub b: u64,
}

/// Why the interpreter handed control back.
#[derive(Debug, Clone, Copy, PartialEq, Eq, Structural)]
pub enum Continuation {
    /// A call of the function with this index.
    Call(u32),
    /// The program ran out of instructions.
    ProgramEnd,
    /// An explicit return, or the end of the function body. The stack holds
    /// the return values.
    DoneReturn,
    /// A floating-point operation for the host to perform.
    Float(FloatRequest),
}

/// A runtime trap.
#[derive(Debug, Clone, Copy, PartialEq, Eq, Structural)]
pub enum Fault {
    /// Ran out of execution ticks
    OutOfTicks,
    /// Result of an expression etc was an unexpected continuation
    UnexpectedResult(Continuation),
    /// Value stack underflow
    StackUnderflow,
    /// Control stack underflow
    ControlStackUnderflow,
    /// Local variable index out of bounds
    LocalIndexOutOfBounds,
    /// Global variable index out of bounds, or a write to a global that is
    /// not mutable
    GlobalIndexOutOfBounds,
    /// Memory access out of bounds
    MemoryOutOfBounds,
    /// Memory growth not supported for this memory type, or memory is at maximum size
    CannotGrowMemory,
    /// Unresolvable type index
    UnresolvableTypeIndex(u32),
    /// Invalid reference type
    InvalidRefType,
    /// Null reference dereference
    NullReference,
    /// Integer division by zero
    IntegerDivisionByZero,
    /// Integer overflow
    IntegerOverflow,
    /// Undefined element
    UndefinedElement,
    /// Uninitialized element
    UninitializedElement,
    /// Invalid conversion to integer
    InvalidConversion,
    /// Indirect call type mismatch
    IndirectCallTypeMismatch,
    /// More nested calls than the limit allows
    CallStackDepthLimit,
    /// An argument of another type than the parameter
    ArgumentTypeMismatch,
}

/// A global variable: its declaration and its current value.
#[derive(Debug, Clone, Copy, PartialEq, Eq)]
pub struct GlobalVar {
    pub decl: Global,
    pub value: Value,
}

/// A value: an integer, the bit pattern of a float, or a reference, where
/// `None` is null.
#[derive(Debug, Clone, Copy, PartialEq, Eq, Structural)]
pub enum Value {
    I32(i32),
    I64(i64),
    F32(u32),
    F64(u64),
    V128(u128),
    FuncRef(Option<u32>),
    ExternRef(Option<u32>),
    Unit,
}

/// The value that stands on top of the cells `s` where a value of type
/// `ty` is expected, and the cells under it. A unit takes one cell, a
/// `V128` two, the high half on top.
pub open spec fn spec_pop_value(ty: ValueType, s: Seq<u64>) -> Result<(Value, Seq<u64>), Fault> {
    if s.len() == 0 {
        Err(Fault::StackUnderflow)
    } else {
        let c = s.last();
        let rest = s.drop_last();
        match ty {
            ValueType::Unit => Ok((Value::Unit, rest)),
            ValueType::I32 => Ok((Value::I32(spec_i32_of(c)), rest)),
            ValueType::I64 => Ok((Value::I64(c as i64), rest)),
            ValueType::F32 => Ok((Value::F32(c as u32), rest)),
            ValueType::F64 => Ok((Value::F64(c), rest)),
            ValueType::V128 => if rest.len() == 0 {
                Err(Fault::StackUnderflow)
            } else {
                Ok((Value::V128((c as u128) << 64 | rest.last() as u128), rest.drop_last()))
            },
            ValueType::FuncRef => Ok((Value::FuncRef(spec_ref_of(c)), rest)),
            ValueType::ExternRef => Ok((Value::ExternRef(spec_ref_of(c)), rest)),
        }
    }
}

/// The value that stands on top of the cells `s` where a value of type
/// `ty` is expected, as [`spec_pop_value`] reads it, for a local that is
/// set and the value kept on the stack; and the cells left, which are all
/// of them, but that a unit takes its cell away.
pub open spec fn spec_top_value(ty: ValueType, s: Seq<u64>) -> Result<(Value, Seq<u64>), Fault> {
    match spec_pop_value(ty, s) {
        Ok((v, rest)) => Ok(
            (
                v,
                if ty == ValueType::Unit {
                    rest
                } else {
                    s
                },
            ),
        ),
        Err(f) => Err(f),
    }
}

/// The cells `s` with the value `v` pushed: one cell, for a unit too, which
/// is 0; two for a `V128`, the low half first.
pub open spec fn spec_push_value(v: Value, s: Seq<u64>) -> Seq<u64> {
    match v {
        Value::I32(x) => s.push(spec_cell_i32(x)),
        Value::I64(x) => s.push(x as u64),
        Value::F32(x) => s.push(x as u64),
        Value::F64(x) => s.push(x),
        Value::V128(x) => s.push(x as u64).push((x >> 64) as u64),
        Value::FuncRef(x) => s.push(spec_cell_ref(x)),
        Value::ExternRef(x) => s.push(spec_cell_ref(x)),
        Value::Unit => s.push(0),
    }
}

/// Equality where every NaN equals every NaN, a zero equals a zero of the
/// other sign, and a value of one type never equals one of another.
pub open spec fn spec_eq_w_nan(a: Value, b: Value) -> bool {
    match (a, b) {
        (Value::F32(x), Value::F32(y)) => (is_nan(x as u64, false) && is_nan(y as u64, false))
            || spec_float_eq(x as u64, y as u64, false),
        (Value::F64(x), Value::F64(y)) => (is_nan(x, true) && is_nan(y, true)) || spec_float_eq(
            x,
            y,
            true,
        ),
        _ => a == b,
    }
}

impl Value {
    /// The type of a value.
    pub open spec fn spec_type_of(self) -> ValueType {
        match self {
            Value::I32(_) => ValueType::I32,
            Value::I64(_) => ValueType::I64,
            Value::F32(_) => ValueType::F32,
            Value::F64(_) => ValueType::F64,
            Value::V128(_) => ValueType::V128,
            Value::FuncRef(_) => ValueType::FuncRef,
            Value::ExternRef(_) => ValueType::ExternRef,
            Value::Unit => ValueType::Unit,
        }
    }

    /// The type of the value.
    #[verifier::when_used_as_spec(spec_type_of)]
    pub fn type_of(self) -> (t: ValueType)
        ensures
            t == self.spec_type_of(),
    {
        match self {
            Value::I32(_) => ValueType::I32,
            Value::I64(_) => ValueType::I64,
            Value::F32(_) => ValueType::F32,
            Value::F64(_) => ValueType::F64,
            Value::V128(_) => ValueType::V128,
            Value::FuncRef(_) => ValueType::FuncRef,
            Value::ExternRef(_) => ValueType::ExternRef,
            Value::Unit => ValueType::Unit,
        }
    }

    /// The zero of a type: 0, the float +0, or the null reference.
    pub open spec fn spec_zero(ty: ValueType) -> Value {
        match ty {
            ValueType::I32 => Value::I32(0),
            ValueType::I64 => Value::I64(0),
            ValueType::F32 => Value::F32(0),
            ValueType::F64 => Value::F64(0),
            ValueType::Unit => Value::Unit,
            ValueType::V128 => Value::V128(0),
            ValueType::FuncRef => Value::FuncRef(None),
            ValueType::ExternRef => Value::ExternRef(None),
        }
    }

    /// The zero of a type.
    #[verifier::when_used_as_spec(spec_zero)]
    pub fn zero(ty: ValueType) -> (v: Value)
        ensures
            v == Value::spec_zero(ty),
    {
        match ty {
            ValueType::I32 => Value::I32(0),
            ValueType::I64 => Value::I64(0),
            ValueType::F32 => Value::F32(0),
            ValueType::F64 => Value::F64(0),
            ValueType::Unit => Value::Unit,
            ValueType::V128 => Value::V128(0),
            ValueType::FuncRef => Value::FuncRef(None),
            ValueType::ExternRef => Value::ExternRef(None),
        }
    }

    /// Pops a value of the given type.
    pub fn pop_from(ty: ValueType, stack: &mut Stack) -> (r: Result<Self, Fault>)
        ensures
            match spec_pop_value(ty, old(stack)@) {
                Ok((v, rest)) => r == Ok::<Value, Fault>(v) && final(stack)@ == rest,
                Err(f) => r == Err::<Value, Fault>(f),
            },
    {
        Ok(
            match ty {
                ValueType::Unit => {
                    stack.pop_u64()?;
                    Value::Unit
                },
                ValueType::I32 => Value::I32(stack.pop_i32()?),
                ValueType::I64 => Value::I64(stack.pop_i64()?),
                ValueType::F32 => Value::F32(stack.pop_f32()?),
                ValueType::F64 => Value::F64(stack.pop_f64()?),
                ValueType::V128 => {
                    let high = stack.pop_u64()?;
                    let low = stack.pop_u64()?;
                    Value::V128((high as u128) << 64 | low as u128)
                },
                ValueType::FuncRef => Value::FuncRef(stack.pop_ref()?),
                ValueType::ExternRef => Value::ExternRef(stack.pop_ref()?),
            },
        )
    }

    /// Reads the value on top as one of the given type; see [`spec_top_value`].
    pub fn top_of(ty: ValueType, stack: &mut Stack) -> (r: Result<Self, Fault>)
        ensures
            match spec_top_value(ty, old(stack)@) {
                Ok((v, rest)) => r == Ok::<Value, Fault>(v) && final(stack)@ == rest,
                Err(f) => r == Err::<Value, Fault>(f) && final(stack)@ == old(stack)@,
            },
    {
        Ok(
            match ty {
                ValueType::Unit => {
                    stack.pop_u64()?;
                    Value::Unit
                },
                ValueType::I32 => Value::I32(stack.top_i32()?),
                ValueType::I64 => Value::I64(stack.top_i64()?),
                ValueType::F32 => Value::F32(stack.top_f32()?),
                ValueType::F64 => Value::F64(stack.top_f64()?),
                ValueType::V128 => {
                    let high = stack.pop_u64()?;
                    let low = match stack.pop_u64() {
                        Ok(low) => low,
                        Err(f) => {
                            stack.push_u64(high);
                            assert(stack@ =~= old(stack)@);
                            return Err(f);
                        },
                    };
                    stack.push_u64(low);
                    stack.push_u64(high);
                    assert(stack@ =~= old(stack)@);
                    Value::V128((high as u128) << 64 | low as u128)
                },
                ValueType::FuncRef => Value::FuncRef(ref_of(stack.top_u64()?)),
                ValueType::ExternRef => Value::ExternRef(ref_of(stack.top_u64()?)),
            },
        )
    }

    /// Pushes the value.
    pub fn push_to(&self, stack: &mut Stack)
        ensures
            final(stack)@ == spec_push_value(*self, old(stack)@),
    {
        match self {
            Value::I32(v) => stack.push_i32(*v),
            Value::I64(v) => stack.push_i64(*v),
            Value::F32(v) => stack.push_f32(*v),
            Value::F64(v) => stack.push_f64(*v),
            Value::V128(v) => {
                stack.push_u64(*v as u64);
                stack.push_u64((*v >> 64) as u64);
            },
            Value::FuncRef(v) => stack.push_ref(*v),
            Value::ExternRef(v) => stack.push_ref(*v),
            Value::Unit => {
                stack.push_u64(0);
            },
        }
    }

    /// Equality comparison where NaN == NaN.
    pub fn eq_w_nan(&self, other: &Self) -> (r: bool)
        ensures
            r == spec_eq_w_nan(*self, *other),
    {
        match (self, other) {
            (Value::F32(a), Value::F32(b)) => {
                (float_is_nan(*a as u64, false) && float_is_nan(*b as u64, false)) || float_eq(
                    *a as u64,
                    *b as u64,
                    false,
                )
            },
            (Value::F64(a), Value::F64(b)) => {
                (float_is_nan(*a, true) && float_is_nan(*b, true)) || float_eq(*a, *b, true)
            },
            _ => *self == *other,
        }
    }
}

/// How many ticks the evaluation of a constant expression may take.
pub const EXPR_TICK_LIMIT: usize = 1024;

/// What running a frame comes to, with `ticks` ticks used of `max_ticks`:
/// the machine, the ticks used, and why control came back. The end of the
/// operations is the end of the program. Each operation takes one tick,
/// and the last tick of the limit cannot be taken.
pub open spec fn spec_execute(
    growable: Set<nat>,
    types: Seq<FuncTypeView>,
    functions: Seq<usize>,
    s: Machine,
    ticks: nat,
    max_ticks: nat,
) -> (Machine, nat, Result<Continuation, Fault>)
    decreases max_ticks - ticks,
{
    if s.frame.pc >= s.frame.program.ops.len() {
        (s, ticks, Ok(Continuation::ProgramEnd))
    } else if ticks + 1 >= max_ticks {
        (s, ticks, Err(Fault::OutOfTicks))
    } else {
        match spec_step(growable, types, functions, s) {
            Step::Next(t) => spec_execute(growable, types, functions, t, ticks + 1, max_ticks),
            Step::Done(t, c) => (t, ticks + 1, Ok(c)),
            Step::Trap(f) => (s, ticks + 1, Err(f)),
        }
    }
}

/// Runs the frame until its program ends, it returns, it calls, it needs
/// the host for a floating-point operation, or it faults. `ticks` counts
/// the operations executed.
pub fn execute<M: Memory>(
    frame: &mut Frame,
    memory: &mut M,
    globals: &mut Vec<GlobalVar>,
    tables: &mut Vec<TableInstance>,
    ticks: &mut usize,
    max_ticks: usize,
    types: &[FuncType],
    functions: &[usize],
) -> (r: Result<Continuation, Fault>)
    ensures
        ({
            let e = spec_execute(
                growable_set(*old(memory)),
                views(types@),
                functions@,
                machine_of(*old(frame), *old(memory), old(globals)@, old(tables)@),
                *old(ticks) as nat,
                max_ticks as nat,
            );
            match e.2 {
                Ok(c) => r == Ok::<Continuation, Fault>(c) && machine_of(
                    *final(frame),
                    *final(memory),
                    final(globals)@,
                    final(tables)@,
                ) == e.0 && *final(ticks) == e.1,
                Err(f) => r == Err::<Continuation, Fault>(f),
            }
        }),
        forall|n: nat| final(memory).growable_to(n) == old(memory).growable_to(n),
        old(memory).bytes().len() % 65536 == 0 ==> final(memory).bytes().len() % 65536 == 0,
        r is Ok ==> spec_globals_kept(old(globals)@, final(globals)@),
        *old(ticks) <= *final(ticks),
        *final(ticks) <= *old(ticks) || *final(ticks) < max_ticks,
{
    let ghost growable = growable_set(*memory);
    let ghost start = machine_of(*frame, *memory, globals@, tables@);
    let ghost first = *ticks;
    proof {
        lemma_execute_keeps(
            growable,
            views(types@),
            functions@,
            start,
            first as nat,
            max_ticks as nat,
        );
    }
    loop
        invariant
            ({
                let e = spec_execute(
                    growable,
                    views(types@),
                    functions@,
                    start,
                    first as nat,
                    max_ticks as nat,
                );
                e.2 is Ok ==> spec_globals_kept(start.globals, e.0.globals)
            }),
            growable_set(*memory) == growable,
            growable == growable_set(*old(memory)),
            forall|n: nat| memory.growable_to(n) == old(memory).growable_to(n),
            old(memory).bytes().len() % 65536 == 0 ==> memory.bytes().len() % 65536 == 0,
            first == *old(ticks),
            first <= *ticks,
            *ticks <= first || *ticks < max_ticks,
            start == machine_of(*old(frame), *old(memory), old(globals)@, old(tables)@),
            spec_execute(growable, views(types@), functions@, start, first as nat, max_ticks as nat)
                == spec_execute(
                growable,
                views(types@),
                functions@,
                machine_of(*frame, *memory, globals@, tables@),
                *ticks as nat,
                max_ticks as nat,
            ),
        decreases max_ticks - *ticks,
    {
        if frame.pc >= frame.program.ops.len() {
            return Ok(Continuation::ProgramEnd);
        }
        if max_ticks == 0 || *ticks >= max_ticks - 1 {
            return Err(Fault::OutOfTicks);
        }
        *ticks = *ticks + 1;
        match step(frame, memory, globals, tables, types, functions)? {
            Some(c) => {
                return Ok(c);
            },
            None => {},
        }
        assert(growable_set(*memory) =~= growable);
    }
}

/// Why an execution failed: the call could not be set up, or it trapped.
#[derive(Debug, Clone, Copy, PartialEq, Eq, Structural)]
pub enum ExecError {
    LinkageError(LinkError),
    Fault(Fault),
}

/// The limits of an execution.
#[derive(Debug, Clone, Copy, PartialEq, Eq, Structural)]
pub struct ExecutionOptions {
    /// One more than the number of operations that an invocation may
    /// execute.
    pub tick_limit: usize,
    /// The number of frames that a call may find on the frame stack.
    pub stack_depth_limit: usize,
}

/// The tick limit of an execution that is given none.
pub const DEFAULT_TICK_LIMIT: usize = 100_000_000;

/// The depth limit of an execution that is given none.
pub const DEFAULT_STACK_DEPTH_LIMIT: usize = 100_000;

impl Default for ExecutionOptions {
    fn default() -> (r: Self)
        ensures
            r == (ExecutionOptions {
                tick_limit: DEFAULT_TICK_LIMIT,
                stack_depth_limit: DEFAULT_STACK_DEPTH_LIMIT,
            }),
    {
        ExecutionOptions {
            tick_limit: DEFAULT_TICK_LIMIT,
            stack_depth_limit: DEFAULT_STACK_DEPTH_LIMIT,
        }
    }
}

/// A context for executing functions in an instance.
pub struct Execution<M> where M: Memory {
    /// The instance.
    instance: Instance,
    /// The stack of frames for the current execution.
    frame_stack: Vec<Frame>,
    /// The memory for the current execution.
    memory: M,
    /// Final result of execution when all frames have executed.
    result: Option<Vec<Value>>,
    /// The floating-point operation that waits for the host.
    pending: Option<FloatRequest>,
    /// The operations executed so far.
    ticks: usize,
    options: ExecutionOptions,
}

/// The mathematical content of an [`Execution`].
pub struct ExecutionView {
    pub instance: InstanceView,
    pub frames: Seq<FrameView>,
    pub memory: Seq<u8>,
    pub result: Option<Seq<Value>>,
    pub pending: Option<FloatRequest>,
    pub ticks: usize,
    pub options: ExecutionOptions,
}

/// The ticks that are left of a limit.
pub open spec fn spec_ticks_left(x: ExecutionView) -> nat {
    if x.ticks < x.options.tick_limit {
        (x.options.tick_limit - x.ticks) as nat
    } else {
        0
    }
}

/// A run uses ticks and gives none back; it stays below the limit where
/// it uses any; and it uses one where the frame does anything but end.
pub proof fn lemma_execute_ticks(
    growable: Set<nat>,
    types: Seq<FuncTypeView>,
    functions: Seq<usize>,
    s: Machine,
    ticks: nat,
    max_ticks: nat,
)
    ensures
        ({
            let e = spec_execute(growable, types, functions, s, ticks, max_ticks);
            &&& ticks <= e.1
            &&& e.1 == ticks || e.1 < max_ticks
            &&& e.2 matches Ok(c) ==> c == Continuation::ProgramEnd || ticks < e.1
        }),
    decreases max_ticks - ticks,
{
    if s.frame.pc < s.frame.program.ops.len() && ticks + 1 < max_ticks {
        match spec_step(growable, types, functions, s) {
            Step::Next(t) => lemma_execute_ticks(
                growable,
                types,
                functions,
                t,
                ticks + 1,
                max_ticks,
            ),
            _ => {},
        }
    }
}

/// The frame of a call of the function with the given index, with its
/// arguments popped from the cells `stack` by the types of its
/// parameters, and the cells that are left.
pub open spec fn spec_call(x: InstanceView, funcidx: u32, stack: Seq<u64>) -> Result<
    (FrameView, Seq<u64>),
    ExecError,
> {
    let imported = spec_imported_functions(x.module.imports, x.module.imports.len());
    let local = funcidx - imported;
    if funcidx < imported {
        Err(ExecError::LinkageError(LinkError::UnsupportedFeature(Unsupported::ImportedFunctions)))
    } else if local >= x.programs.len() || local >= x.module.functions.len()
        || x.module.functions[local] >= x.module.types.len() {
        Err(ExecError::LinkageError(LinkError::FunctionNotFound))
    } else {
        match spec_pop_values(
            x.module.types[x.module.functions[local] as int].params,
            stack,
            Seq::empty(),
        ) {
            Ok((args, rest)) => match spec_frame_for_funcidx(x, funcidx, args) {
                Ok(f) => Ok((f, rest)),
                Err(e) => Err(ExecError::LinkageError(e)),
            },
            Err(f) => Err(ExecError::Fault(f)),
        }
    }
}

/// What running an execution comes to: the execution after, and whether
/// it went well. The topmost frame runs. Where it ends or returns, its
/// return values are popped and pushed onto the frame below, which runs
/// on; from the last frame they are the result. Where it calls, the frame
/// of the callee goes on top, unless the frame stack has reached the depth
/// limit. Where it needs the host, the operation is left pending. With no
/// frame there is no function to run.
pub open spec fn spec_run(growable: Set<nat>, x: ExecutionView) -> (
    ExecutionView,
    Result<(), ExecError>,
)
    decreases spec_ticks_left(x), x.frames.len(),
{
    if x.frames.len() == 0 {
        (x, Err(ExecError::LinkageError(LinkError::FunctionNotFound)))
    } else {
        let e = spec_execute(
            growable,
            x.instance.module.types,
            x.instance.module.functions,
            Machine {
                frame: x.frames.last(),
                memory: x.memory,
                globals: x.instance.globals,
                tables: x.instance.tables,
            },
            x.ticks as nat,
            x.options.tick_limit as nat,
        );
        proof {
            lemma_execute_ticks(
                growable,
                x.instance.module.types,
                x.instance.module.functions,
                Machine {
                    frame: x.frames.last(),
                    memory: x.memory,
                    globals: x.instance.globals,
                    tables: x.instance.tables,
                },
                x.ticks as nat,
                x.options.tick_limit as nat,
            );
        }
        let frame = e.0.frame;
        let below = x.frames.drop_last();
        let y = ExecutionView {
            instance: InstanceView { globals: e.0.globals, tables: e.0.tables, ..x.instance },
            memory: e.0.memory,
            ticks: e.1 as usize,
            frames: below,
            ..x
        };
        match e.2 {
            Err(f) => (y, Err(ExecError::Fault(f))),
            Ok(Continuation::Float(request)) => (
                ExecutionView { frames: below.push(frame), pending: Some(request), ..y },
                Ok(()),
            ),
            Ok(Continuation::Call(funcidx)) => match spec_call(y.instance, funcidx, frame.stack) {
                Ok((callee, rest)) => if x.frames.len() >= x.options.stack_depth_limit {
                    (y, Err(ExecError::Fault(Fault::CallStackDepthLimit)))
                } else {
                    spec_run(
                        growable,
                        ExecutionView {
                            frames: below.push(FrameView { stack: rest, ..frame }).push(callee),
                            ..y
                        },
                    )
                },
                Err(e) => (y, Err(e)),
            },
            Ok(_) => match spec_pop_values(frame.return_types, frame.stack, Seq::empty()) {
                Ok((values, _)) => if below.len() == 0 {
                    (ExecutionView { result: Some(values), ..y }, Ok(()))
                } else {
                    spec_run(
                        growable,
                        ExecutionView {
                            frames: below.drop_last().push(
                                FrameView {
                                    stack: spec_push_values(values, below.last().stack),
                                    ..below.last()
                                },
                            ),
                            ..y
                        },
                    )
                },
                Err(f) => (y, Err(ExecError::Fault(f))),
            },
        }
    }
}

/// A run changes nothing of the instance but its globals and tables, and
/// leaves the limits as they were.
pub proof fn lemma_run_keeps(growable: Set<nat>, x: ExecutionView)
    ensures
        ({
            let e = spec_run(growable, x);
            e.1 is Ok ==> e.0.instance == (InstanceView {
                globals: e.0.instance.globals,
                tables: e.0.instance.tables,
                ..x.instance
            }) && e.0.options == x.options
        }),
    decreases spec_ticks_left(x), x.frames.len(),
{
    if x.frames.len() > 0 {
        let m = Machine {
            frame: x.frames.last(),
            memory: x.memory,
            globals: x.instance.globals,
            tables: x.instance.tables,
        };
        let e = spec_execute(
            growable,
            x.instance.module.types,
            x.instance.module.functions,
            m,
            x.ticks as nat,
            x.options.tick_limit as nat,
        );
        lemma_execute_ticks(
            growable,
            x.instance.module.types,
            x.instance.module.functions,
            m,
            x.ticks as nat,
            x.options.tick_limit as nat,
        );
        let frame = e.0.frame;
        let below = x.frames.drop_last();
        let y = ExecutionView {
            instance: InstanceView { globals: e.0.globals, tables: e.0.tables, ..x.instance },
            memory: e.0.memory,
            ticks: e.1 as usize,
            frames: below,
            ..x
        };
        match e.2 {
            Ok(Continuation::Call(funcidx)) => match spec_call(y.instance, funcidx, frame.stack) {
                Ok((callee, rest)) => if x.frames.len() < x.options.stack_depth_limit {
                    lemma_run_keeps(
                        growable,
                        ExecutionView {
                            frames: below.push(FrameView { stack: rest, ..frame }).push(callee),
                            ..y
                        },
                    );
                },
                Err(_) => {},
            },
            Ok(Continuation::Float(_)) => {},
            Ok(_) => match spec_pop_values(frame.return_types, frame.stack, Seq::empty()) {
                Ok((values, _)) => if below.len() > 0 {
                    lemma_run_keeps(
                        growable,
                        ExecutionView {
                            frames: below.drop_last().push(
                                FrameView {
                                    stack: spec_push_values(values, below.last().stack),
                                    ..below.last()
                                },
                            ),
                            ..y
                        },
                    );
                },
                Err(_) => {},
            },
            Err(_) => {},
        }
    }
}

/// No frame changes the declaration of a global, nor the value of one that
/// is not mutable. Every frame leaves the memory a whole number of pages
/// where it was one, and of its size of before or of one that it can be
/// resized to, at most 65,536 pages.
pub proof fn lemma_execute_keeps(
    growable: Set<nat>,
    types: Seq<FuncTypeView>,
    functions: Seq<usize>,
    s: Machine,
    ticks: nat,
    max_ticks: nat,
)
    ensures
        ({
            let e = spec_execute(growable, types, functions, s, ticks, max_ticks);
            e.2 is Ok ==> {
                &&& e.0.frame.program == s.frame.program
                &&& spec_globals_kept(s.globals, e.0.globals)
                &&& s.memory.len() % 65536 == 0 ==> e.0.memory.len() % 65536 == 0
                &&& e.0.memory.len() == s.memory.len() || (growable.contains(e.0.memory.len())
                    && e.0.memory.len() <= 65536 * 65536)
            }
        }),
    decreases max_ticks - ticks,
{
    if s.frame.pc < s.frame.program.ops.len() && ticks + 1 < max_ticks {
        lemma_step_keeps(growable, types, functions, s);
        match spec_step(growable, types, functions, s) {
            Step::Next(t) => {
                lemma_execute_keeps(growable, types, functions, t, ticks + 1, max_ticks);
            },
            _ => {},
        }
    }
}

/// That `after` holds as many globals as `before`, each with its
/// declaration of before, and each that is not mutable with its value of
/// before.
pub open spec fn spec_globals_kept(before: Seq<GlobalVar>, after: Seq<GlobalVar>) -> bool {
    &&& after.len() == before.len()
    &&& forall|g: int|
        0 <= g < before.len() ==> (#[trigger] after[g]).decl == before[g].decl && (
        !before[g].decl.mutable ==> after[g] == before[g])
}

/// Every global that is not mutable has the same value after every run
/// that goes well as before it. And a memory that is a whole number of
/// pages before a run is one after it, of its size of before or of one
/// that it can be resized to, at most 65,536 pages.
pub proof fn lemma_run_keeps_global(growable: Set<nat>, x: ExecutionView)
    ensures
        ({
            let e = spec_run(growable, x);
            e.1 is Ok ==> {
                &&& spec_globals_kept(x.instance.globals, e.0.instance.globals)
                &&& x.memory.len() % 65536 == 0 ==> e.0.memory.len() % 65536 == 0
                &&& e.0.memory.len() == x.memory.len() || (growable.contains(e.0.memory.len())
                    && e.0.memory.len() <= 65536 * 65536)
            }
        }),
    decreases spec_ticks_left(x), x.frames.len(),
{
    if x.frames.len() > 0 {
        let m = Machine {
            frame: x.frames.last(),
            memory: x.memory,
            globals: x.instance.globals,
            tables: x.instance.tables,
        };
        let types = x.instance.module.types;
        let functions = x.instance.module.functions;
        let limit = x.options.tick_limit as nat;
        let e = spec_execute(growable, types, functions, m, x.ticks as nat, limit);
        lemma_execute_ticks(growable, types, functions, m, x.ticks as nat, limit);
        lemma_execute_keeps(growable, types, functions, m, x.ticks as nat, limit);
        let frame = e.0.frame;
        let below = x.frames.drop_last();
        let y = ExecutionView {
            instance: InstanceView { globals: e.0.globals, tables: e.0.tables, ..x.instance },
            memory: e.0.memory,
            ticks: e.1 as usize,
            frames: below,
            ..x
        };
        match e.2 {
            Ok(Continuation::Call(funcidx)) => match spec_call(y.instance, funcidx, frame.stack) {
                Ok((callee, rest)) => if x.frames.len() < x.options.stack_depth_limit {
                    lemma_run_keeps_global(
                        growable,
                        ExecutionView {
                            frames: below.push(FrameView { stack: rest, ..frame }).push(callee),
                            ..y
                        },
                    );
                },
                Err(_) => {},
            },
            Ok(Continuation::Float(_)) => {},
            Ok(_) => match spec_pop_values(frame.return_types, frame.stack, Seq::empty()) {
                Ok((values, _)) => if below.len() > 0 {
                    lemma_run_keeps_global(
                        growable,
                        ExecutionView {
                            frames: below.drop_last().push(
                                FrameView {
                                    stack: spec_push_values(values, below.last().stack),
                                    ..below.last()
                                },
                            ),
                            ..y
                        },
                    );
                },
                Err(_) => {},
            },
            Err(_) => {},
        }
    }
}

impl<M: Memory> View for Execution<M> {
    type V = ExecutionView;

    closed spec fn view(&self) -> ExecutionView {
        ExecutionView {
            instance: self.instance@,
            frames: views(self.frame_stack@),
            memory: self.memory.bytes(),
            result: match self.result {
                Some(v) => Some(v@),
                None => None,
            },
            pending: self.pending,
            ticks: self.ticks,
            options: self.options,
        }
    }
}

impl<M> Execution<M> where M: Memory {
    /// The sizes that the memory of the execution can be resized to.
    pub closed spec fn growable(&self) -> Set<nat> {
        growable_set(self.memory)
    }

    /// An execution of `instance` over `memory`, with the default limits.
    pub fn new(instance: Instance, memory: M) -> (r: Self)
        ensures
            r@ == (ExecutionView {
                instance: instance@,
                frames: Seq::empty(),
                memory: memory.bytes(),
                result: None,
                pending: None,
                ticks: 0,
                options: ExecutionOptions {
                    tick_limit: DEFAULT_TICK_LIMIT,
                    stack_depth_limit: DEFAULT_STACK_DEPTH_LIMIT,
                },
            }),
            r.growable() == growable_set(memory),
    {
        Self::with_options(instance, memory, ExecutionOptions::default())
    }

    /// An execution of `instance` over `memory`, with the given limits.
    pub fn with_options(instance: Instance, memory: M, options: ExecutionOptions) -> (r: Self)
        ensures
            r@ == (ExecutionView {
                instance: instance@,
                frames: Seq::empty(),
                memory: memory.bytes(),
                result: None,
                pending: None,
                ticks: 0,
                options,
            }),
            r.growable() == growable_set(memory),
    {
        let execution = Execution {
            instance,
            frame_stack: Vec::new(),
            memory,
            result: None,
            pending: None,
            ticks: 0,
            options,
        };
        assert(views(execution.frame_stack@) =~= Seq::empty());
        execution
    }

    /// The instance that is executed.
    pub fn instance(&self) -> (r: &Instance)
        ensures
            r@ == self@.instance,
    {
        &self.instance
    }

    /// The memory of the execution.
    pub fn memory(&self) -> (r: &M)
        ensures
            r.bytes() == self@.memory,
    {
        &self.memory
    }

    /// The values that the last run returned, if it ran to its end.
    pub fn result(&self) -> (r: Option<&[Value]>)
        ensures
            match self@.result {
                Some(values) => r is Some && r->Some_0@ == values,
                None => r is None,
            },
    {
        match &self.result {
            Some(v) => Some(v.as_slice()),
            None => None,
        }
    }

    /// The number of active calls.
    pub fn frame_stack_len(&self) -> (n: usize)
        ensures
            n == self@.frames.len(),
    {
        self.frame_stack.len()
    }

    /// The floating-point operation that waits for the host, if the last
    /// run stopped for one.
    pub fn pending(&self) -> (r: Option<FloatRequest>)
        ensures
            r == self@.pending,
    {
        self.pending
    }

    /// The execution apart: its instance and its memory.
    pub fn into_parts(self) -> (r: (Instance, M))
        ensures
            r.0@ == self@.instance,
            r.1.bytes() == self@.memory,
            growable_set(r.1) == self.growable(),
    {
        (self.instance, self.memory)
    }

    /// Hands over the cell of the result of the pending floating-point
    /// operation: it goes onto the stack of the topmost frame, and nothing
    /// is pending any more. Without a pending operation or a frame nothing
    /// changes.
    pub fn resume(&mut self, cell: u64)
        ensures
            final(self).growable() == old(self).growable(),
            final(self)@ == if old(self)@.pending is Some && old(self)@.frames.len() > 0 {
                ExecutionView {
                    pending: None,
                    frames: old(self)@.frames.drop_last().push(
                        FrameView {
                            stack: old(self)@.frames.last().stack.push(cell),
                            ..old(self)@.frames.last()
                        },
                    ),
                    ..old(self)@
                }
            } else {
                old(self)@
            },
    {
        if self.pending.is_none() {
            return ;
        }
        match self.frame_stack.pop() {
            Some(mut frame) => {
                assert(views(self.frame_stack@) =~= views(old(self).frame_stack@).drop_last());
                assert(views(old(self).frame_stack@).last() == old(self).frame_stack@.last()@);
                frame.stack.push_u64(cell);
                proof {
                    crate::lemma_views_push(self.frame_stack@, frame);
                }
                self.frame_stack.push(frame);
                self.pending = None;
            },
            None => {
                assert(views(self.frame_stack@) =~= views(old(self).frame_stack@));
            },
        }
    }

    /// Pushes the frame of a call of the function with the given index.
    /// The arguments must be of the types of its parameters. On an empty
    /// frame stack this begins an invocation, whose ticks count from 0.
    pub fn prepare(&mut self, funcidx: u32, args: &[Value]) -> (r: Result<(), ExecError>)
        ensures
            final(self).growable() == old(self).growable(),
            match spec_frame_for_funcidx(old(self)@.instance, funcidx, args@) {
                Ok(f) => r == Ok::<(), ExecError>(()) && final(self)@ == (ExecutionView {
                    frames: old(self)@.frames.push(f),
                    ticks: if old(self)@.frames.len() == 0 {
                        0
                    } else {
                        old(self)@.ticks
                    },
                    ..old(self)@
                }),
                Err(e) => r == Err::<(), ExecError>(ExecError::LinkageError(e)) && final(self)@
                    == old(self)@,
            },
    {
        let frame = match self.instance.frame_for_funcidx(funcidx, args) {
            Ok(f) => f,
            Err(e) => {
                return Err(ExecError::LinkageError(e));
            },
        };
        proof {
            crate::lemma_views_push(self.frame_stack@, frame);
        }
        if self.frame_stack.len() == 0 {
            self.ticks = 0;
        }
        self.frame_stack.push(frame);
        Ok(())
    }

    /// Pops the arguments of a call from the caller and builds the frame
    /// of the callee.
    fn call(&self, funcidx: u32, caller: &mut Frame) -> (r: Result<Frame, ExecError>)
        ensures
            match spec_call(self@.instance, funcidx, old(caller)@.stack) {
                Ok((callee, rest)) => r is Ok && r->Ok_0@ == callee && final(caller)@ == (FrameView {
                    stack: rest,
                    ..old(caller)@
                }),
                Err(e) => r is Err && r->Err_0 == e,
            },
    {
        let imported = self.instance.imported_functions();
        if (funcidx as usize) < imported {
            return Err(
                ExecError::LinkageError(
                    LinkError::UnsupportedFeature(Unsupported::ImportedFunctions),
                ),
            );
        }
        let local = funcidx as usize - imported;
        if local >= self.instance.programs.len() || local >= self.instance.module.functions.len() {
            return Err(ExecError::LinkageError(LinkError::FunctionNotFound));
        }
        let type_idx = self.instance.module.functions[local];
        if type_idx >= self.instance.module.types.len() {
            return Err(ExecError::LinkageError(LinkError::FunctionNotFound));
        }
        assert(views(self.instance.module.types@)[type_idx as int]
            == self.instance.module.types@[type_idx as int]@);
        let args = match pop_values(&self.instance.module.types[type_idx].params, &mut caller.stack) {
            Ok(a) => a,
            Err(f) => {
                return Err(ExecError::Fault(f));
            },
        };
        match self.instance.frame_for_funcidx(funcidx, args.as_slice()) {
            Ok(f) => Ok(f),
            Err(e) => Err(ExecError::LinkageError(e)),
        }
    }

    /// Runs the execution until the last frame has returned, a
    /// floating-point operation waits for the host, or a fault. A fault
    /// tears the frame stack down.
    pub fn run(&mut self) -> (r: Result<(), ExecError>)
        ensures
            final(self).growable() == old(self).growable(),
            old(self)@.memory.len() % 65536 == 0 ==> final(self)@.memory.len() % 65536 == 0,
            r is Ok ==> spec_globals_kept(
                old(self)@.instance.globals,
                final(self)@.instance.globals,
            ),
            ({
                let e = spec_run(old(self).growable(), old(self)@);
                match e.1 {
                    Ok(()) => r == Ok::<(), ExecError>(()) && final(self)@ == e.0,
                    Err(err) => r == Err::<(), ExecError>(err) && final(self)@.frames.len() == 0,
                }
            }),
    {
        let ghost growable = self.growable();
        let ghost start = self@;
        proof {
            lemma_run_keeps_global(growable, start);
        }
        loop
            invariant
                growable == old(self).growable(),
                self.growable() == growable,
                start == old(self)@,
                spec_run(growable, start).1 is Ok ==> spec_globals_kept(
                    start.instance.globals,
                    spec_run(growable, start).0.instance.globals,
                ),
                old(self)@.memory.len() % 65536 == 0 ==> self@.memory.len() % 65536 == 0,
                spec_run(growable, start).1 == spec_run(growable, self@).1,
                spec_run(growable, start).1 is Ok ==> spec_run(growable, start).0 == spec_run(
                    growable,
                    self@,
                ).0,
            decreases spec_ticks_left(self@), self@.frames.len(),
        {
            let ghost x = self@;
            let mut frame = match self.frame_stack.pop() {
                Some(f) => f,
                None => {
                    assert(views(self.frame_stack@) =~= Seq::empty());
                    return Err(ExecError::LinkageError(LinkError::FunctionNotFound));
                },
            };
            assert(views(self.frame_stack@) =~= x.frames.drop_last());
            assert(frame@ == x.frames.last());
            proof {
                lemma_execute_ticks(
                    growable,
                    x.instance.module.types,
                    x.instance.module.functions,
                    Machine {
                        frame: x.frames.last(),
                        memory: x.memory,
                        globals: x.instance.globals,
                        tables: x.instance.tables,
                    },
                    x.ticks as nat,
                    x.options.tick_limit as nat,
                );
            }
            let result = execute(
                &mut frame,
                &mut self.memory,
                &mut self.instance.globals,
                &mut self.instance.tables,
                &mut self.ticks,
                self.options.tick_limit,
                self.instance.module.types.as_slice(),
                self.instance.module.functions.as_slice(),
            );
            assert(growable_set(self.memory) =~= growable);
            match result {
                Ok(Continuation::Float(request)) => {
                    proof {
                        crate::lemma_views_push(self.frame_stack@, frame);
                    }
                    self.frame_stack.push(frame);
                    self.pending = Some(request);
                    return Ok(());
                },
                Ok(Continuation::Call(funcidx)) => {
                    let callee = match self.call(funcidx, &mut frame) {
                        Ok(f) => f,
                        Err(e) => {
                            return self.fail(e);
                        },
                    };
                    if self.options.stack_depth_limit == 0 || self.frame_stack.len()
                        >= self.options.stack_depth_limit - 1 {
                        return self.fail(ExecError::Fault(Fault::CallStackDepthLimit));
                    }
                    proof {
                        crate::lemma_views_push(self.frame_stack@, frame);
                        crate::lemma_views_push(self.frame_stack@.push(frame), callee);
                    }
                    self.frame_stack.push(frame);
                    self.frame_stack.push(callee);
                },
                Ok(_) => {
                    let values = match pop_values(&frame.return_types, &mut frame.stack) {
                        Ok(v) => v,
                        Err(f) => {
                            return self.fail(ExecError::Fault(f));
                        },
                    };
                    let ghost below = views(self.frame_stack@);
                    match self.frame_stack.pop() {
                        Some(mut caller) => {
                            assert(views(self.frame_stack@) =~= below.drop_last());
                            assert(caller@ == below.last());
                            push_values(&values, &mut caller.stack);
                            proof {
                                crate::lemma_views_push(self.frame_stack@, caller);
                            }
                            self.frame_stack.push(caller);
                        },
                        None => {
                            assert(views(self.frame_stack@) =~= Seq::empty());
                            self.result = Some(values);
                            return Ok(());
                        },
                    }
                },
                Err(fault) => {
                    return self.fail(ExecError::Fault(fault));
                },
            }
        }
    }

    /// Tears the frame stack down and gives the error back.
    fn fail(&mut self, error: ExecError) -> (r: Result<(), ExecError>)
        ensures
            r == Err::<(), ExecError>(error),
            final(self).growable() == old(self).growable(),
            final(self)@ == (ExecutionView { frames: Seq::empty(), ..old(self)@ }),
    {
        self.frame_stack.clear();
        assert(views(self.frame_stack@) =~= Seq::empty());
        Err(error)
    }
}

impl Fault {
    /// The text of a trap, in the wording of the conformance suite.
    pub open spec fn spec_message(self) -> Seq<char> {
        match self {
            Fault::OutOfTicks => "Out of ticks"@,
            Fault::UnexpectedResult(_) => "Unexpected result"@,
            Fault::StackUnderflow => "Stack underflow"@,
            Fault::ControlStackUnderflow => "Control stack underflow"@,
            Fault::LocalIndexOutOfBounds => "Local index out of bounds"@,
            Fault::GlobalIndexOutOfBounds => "Global index out of bounds"@,
            Fault::MemoryOutOfBounds => "out of bounds memory access"@,
            Fault::CannotGrowMemory => "Cannot grow memory"@,
            Fault::UnresolvableTypeIndex(_) => "Unresolvable type index"@,
            Fault::InvalidRefType => "Invalid reference type"@,
            Fault::NullReference => "Null reference dereference"@,
            Fault::IntegerDivisionByZero => "integer divide by zero"@,
            Fault::IntegerOverflow => "integer overflow"@,
            Fault::UndefinedElement => "undefined element"@,
            Fault::UninitializedElement => "uninitialized element"@,
            Fault::InvalidConversion => "invalid conversion to integer"@,
            Fault::IndirectCallTypeMismatch => "indirect call type mismatch"@,
            Fault::CallStackDepthLimit => "call stack exhausted"@,
            Fault::ArgumentTypeMismatch => "Argument type mismatch"@,
        }
    }

    /// The text of a trap, in the wording of the conformance suite.
    pub fn message(&self) -> (r: String)
        ensures
            r@ == self.spec_message(),
    {
        match self {
            Fault::OutOfTicks => "Out of ticks".to_owned(),
            Fault::UnexpectedResult(_) => "Unexpected result".to_owned(),
            Fault::StackUnderflow => "Stack underflow".to_owned(),
            Fault::ControlStackUnderflow => "Control stack underflow".to_owned(),
            Fault::LocalIndexOutOfBounds => "Local index out of bounds".to_owned(),
            Fault::GlobalIndexOutOfBounds => "Global index out of bounds".to_owned(),
            Fault::MemoryOutOfBounds => "out of bounds memory access".to_owned(),
            Fault::CannotGrowMemory => "Cannot grow memory".to_owned(),
            Fault::UnresolvableTypeIndex(_) => "Unresolvable type index".to_owned(),
            Fault::InvalidRefType => "Invalid reference type".to_owned(),
            Fault::NullReference => "Null reference dereference".to_owned(),
            Fault::IntegerDivisionByZero => "integer divide by zero".to_owned(),
            Fault::IntegerOverflow => "integer overflow".to_owned(),
            Fault::UndefinedElement => "undefined element".to_owned(),
            Fault::UninitializedElement => "uninitialized element".to_owned(),
            Fault::InvalidConversion => "invalid conversion to integer".to_owned(),
            Fault::IndirectCallTypeMismatch => "indirect call type mismatch".to_owned(),
            Fault::CallStackDepthLimit => "call stack exhausted".to_owned(),
            Fault::ArgumentTypeMismatch => "Argument type mismatch".to_owned(),
        }
    }
}

impl ExecError {
    /// The text of the error underneath.
    pub open spec fn spec_message(self) -> Seq<char> {
        match self {
            ExecError::LinkageError(e) => e.spec_message(),
            ExecError::Fault(e) => e.spec_message(),
        }
    }

    /// The text of the error underneath.
    pub fn message(&self) -> (r: String)
        ensures
            r@ == self.spec_message(),
    {
        match self {
            ExecError::LinkageError(e) => e.message(),
            ExecError::Fault(e) => e.message(),
        }
    }
}

} // verus!
