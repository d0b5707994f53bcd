//! Laws of running a frame: what [`spec_execute`] comes to for single
//! operations and for short programs, on every machine.
//!
//! [`crate::exec::execute`] does what [`spec_execute`] says, so each law
//! holds of it.
use crate::exec::{spec_execute, Continuation, Fault, Value};
use crate::float::{is_infinite, is_nan, is_negative, lemma_truncation, spec_trunc_sat, truncated};
use crate::frame::{spec_cells_of, FrameView};
use crate::machine::{
    lemma_enough_cells, spec_load_shape, spec_pops, spec_step, spec_store_shape, with_stack,
    Machine, Step,
};
use crate::numeric::{
    lemma_arity, lemma_i32_laws, spec_host_float, spec_is_binary, spec_is_unary, spec_low32,
};
use crate::op::OpView;
use crate::stack::{lemma_cell_round_trip, spec_cell_i32, spec_i32_of};
use crate::FuncTypeView;
use vstd::prelude::*;

verus! {

/// The operation under the program counter.
pub open spec fn spec_current(s: Machine) -> OpView {
    s.frame.program.ops[s.frame.pc as int]
}

/// The machine at the next operation, with `stack` for its value stack.
pub open spec fn spec_moved(s: Machine, stack: Seq<u64>) -> Machine {
    with_stack(
        Machine { frame: FrameView { pc: (s.frame.pc + 1) as usize, ..s.frame }, ..s },
        stack,
    )
}

/// A frame with an operation under its program counter and a tick to
/// spare does what that operation does, and goes on where it neither ends
/// the run nor faults.
pub proof fn lemma_execute_first(
    growable: Set<nat>,
    types: Seq<FuncTypeView>,
    functions: Seq<usize>,
    s: Machine,
    ticks: nat,
    max_ticks: nat,
)
    requires
        s.frame.pc < s.frame.program.ops.len(),
        ticks + 1 < max_ticks,
    ensures
        spec_execute(growable, types, functions, s, ticks, max_ticks) == (match spec_step(
            growable,
            types,
            functions,
            s,
        ) {
            Step::Next(t) => spec_execute(growable, types, functions, t, ticks + 1, max_ticks),
            Step::Done(t, c) => (t, (ticks + 1) as nat, Ok::<Continuation, Fault>(c)),
            Step::Trap(f) => (s, (ticks + 1) as nat, Err::<Continuation, Fault>(f)),
        }),
{
}

/// An operation that does not find on the stack the cells that it pops is
/// a stack underflow, and nothing else happens.
pub proof fn lemma_execute_underflow(
    growable: Set<nat>,
    types: Seq<FuncTypeView>,
    functions: Seq<usize>,
    s: Machine,
    ticks: nat,
    max_ticks: nat,
)
    requires
        s.frame.pc < s.frame.program.ops.len(),
        ticks + 1 < max_ticks,
        spec_pops(spec_current(s)) matches Some(needed) && s.frame.stack.len() < needed,
    ensures
        spec_execute(growable, types, functions, s, ticks, max_ticks) == (
            s,
            (ticks + 1) as nat,
            Err::<Continuation, Fault>(Fault::StackUnderflow),
        ),
{
    lemma_enough_cells(growable, types, functions, s);
}

/// The number of cells that an operation pushes, for the operations of
/// which the operation alone decides it and which go on to the next
/// operation where they do not fault.
pub open spec fn spec_pushes(op: OpView) -> Option<nat> {
    if spec_is_unary(op) || spec_is_binary(op) || spec_load_shape(op) is Some {
        Some(1)
    } else if spec_host_float(op) is Some || spec_store_shape(op) is Some {
        Some(0)
    } else {
        match op {
            OpView::Drop | OpView::Nop | OpView::Unreachable => Some(0),
            OpView::Select | OpView::SelectT(_) | OpView::MemoryGrow | OpView::MemorySize
            | OpView::I32Const(_) | OpView::I64Const(_) | OpView::F32Const(_) | OpView::F64Const(
                _,
            ) | OpView::RefNull(_) | OpView::RefFunc(_) => Some(1),
            _ => None,
        }
    }
}

/// An operation that finds on the stack the cells that it pops, and does
/// not fault, leaves the stack narrower by those cells and wider by the
/// cells that it pushes. An operation that is left to the host pushes
/// nothing: its result comes with the answer of the host.
pub proof fn lemma_execute_width(
    growable: Set<nat>,
    types: Seq<FuncTypeView>,
    functions: Seq<usize>,
    s: Machine,
    ticks: nat,
    max_ticks: nat,
)
    requires
        s.frame.pc < s.frame.program.ops.len(),
        ticks + 1 < max_ticks,
        spec_pops(spec_current(s)) is Some,
        spec_pushes(spec_current(s)) is Some,
        s.frame.stack.len() >= spec_pops(spec_current(s))->Some_0,
    ensures
        ({
            let width = s.frame.stack.len() - spec_pops(spec_current(s))->Some_0 + spec_pushes(
                spec_current(s),
            )->Some_0;
            match spec_step(growable, types, functions, s) {
                Step::Next(t) => t.frame.stack.len() == width && spec_execute(
                    growable,
                    types,
                    functions,
                    s,
                    ticks,
                    max_ticks,
                ) == spec_execute(growable, types, functions, t, ticks + 1, max_ticks),
                Step::Done(t, c) => t.frame.stack.len() == width && c is Float,
                Step::Trap(f) => f != Fault::StackUnderflow,
            }
        }),
{
    let op = spec_current(s);
    let st = s.frame.stack;
    lemma_enough_cells(growable, types, functions, s);
    lemma_arity(op, 0, 0);
    if st.len() > 0 {
        lemma_arity(op, st.last(), 0);
    }
    if st.len() > 1 {
        lemma_arity(op, st[st.len() - 2], st.last());
    }
}

/// The number of cells that an operation on a local, a global or a table
/// pops where the local, the global or the table is there to be set: as
/// many as its type takes, or the element and its index.
pub open spec fn spec_pops_in(s: Machine) -> Option<nat> {
    let f = s.frame;
    match spec_current(s) {
        OpView::SetLocal(index) | OpView::TeeLocal(index) => if index < f.locals.len() && index
            < f.program.local_types.len() {
            Some(spec_cells_of(f.program.local_types[index as int]))
        } else {
            None
        },
        OpView::SetGlobal(index) => if index < s.globals.len() && s.globals[index as int].decl.mutable {
            Some(spec_cells_of(s.globals[index as int].decl.ty))
        } else {
            None
        },
        OpView::TableSet(table) => if table < s.tables.len() && f.stack.len() > 0 && (
        f.stack.last() as u32) < s.tables[table as int].elements.len() {
            Some(2)
        } else {
            None
        },
        _ => None,
    }
}

/// An operation that sets a local, a global or an element of a table, and
/// does not find on the stack the cells that it pops, is a stack
/// underflow, and nothing else happens; one that finds them does not
/// underflow.
pub proof fn lemma_execute_underflow_in(
    growable: Set<nat>,
    types: Seq<FuncTypeView>,
    functions: Seq<usize>,
    s: Machine,
    ticks: nat,
    max_ticks: nat,
)
    requires
        s.frame.pc < s.frame.program.ops.len(),
        ticks + 1 < max_ticks,
        spec_pops_in(s) is Some,
    ensures
        s.frame.stack.len() < spec_pops_in(s)->Some_0 ==> spec_execute(
            growable,
            types,
            functions,
            s,
            ticks,
            max_ticks,
        ) == (s, (ticks + 1) as nat, Err::<Continuation, Fault>(Fault::StackUnderflow)),
        s.frame.stack.len() >= spec_pops_in(s)->Some_0 ==> spec_step(growable, types, functions, s)
            is Next,
{
    lemma_arity(spec_current(s), 0, 0);
}

/// The source format and the range of the integer type of a saturating
/// truncation: whether the float is a double, and the least and the
/// greatest integer.
pub open spec fn spec_saturating(op: OpView) -> Option<(bool, int, int)> {
    match op {
        OpView::I32TruncSatF32S => Some((false, i32::MIN as int, i32::MAX as int)),
        OpView::I32TruncSatF32U => Some((false, 0, u32::MAX as int)),
        OpView::I32TruncSatF64S => Some((true, i32::MIN as int, i32::MAX as int)),
        OpView::I32TruncSatF64U => Some((true, 0, u32::MAX as int)),
        OpView::I64TruncSatF32S => Some((false, i64::MIN as int, i64::MAX as int)),
        OpView::I64TruncSatF32U => Some((false, 0, u64::MAX as int)),
        OpView::I64TruncSatF64S => Some((true, i64::MIN as int, i64::MAX as int)),
        OpView::I64TruncSatF64U => Some((true, 0, u64::MAX as int)),
        _ => None,
    }
}

/// The integer that a cell holds, for a type whose least value is `min`
/// and whose greatest is `max`.
pub open spec fn spec_integer_of(cell: u64, min: int, max: int) -> int {
    if min == i32::MIN {
        spec_i32_of(cell) as int
    } else if min == i64::MIN {
        (cell as i64) as int
    } else {
        cell as int
    }
}

/// A saturating truncation never faults. It takes the float from the top
/// of the stack and leaves an integer in its place: 0 for a NaN, the least
/// value of the type for a float below its range, the greatest for one
/// above, and else the float truncated toward zero.
pub proof fn lemma_execute_saturating(
    growable: Set<nat>,
    types: Seq<FuncTypeView>,
    functions: Seq<usize>,
    s: Machine,
    ticks: nat,
    max_ticks: nat,
)
    requires
        s.frame.pc < s.frame.program.ops.len(),
        ticks + 1 < max_ticks,
        spec_saturating(spec_current(s)) is Some,
        s.frame.stack.len() > 0,
    ensures
        ({
            let (wide, min, max) = spec_saturating(spec_current(s))->Some_0;
            let bits = if wide {
                s.frame.stack.last()
            } else {
                spec_low32(s.frame.stack.last())
            };
            &&& spec_step(growable, types, functions, s) matches Step::Next(t) && {
                &&& t == spec_moved(s, s.frame.stack.drop_last().push(t.frame.stack.last()))
                &&& spec_integer_of(t.frame.stack.last(), min, max) == spec_trunc_sat(
                    bits,
                    wide,
                    min,
                    max,
                )
                &&& spec_execute(growable, types, functions, s, ticks, max_ticks) == spec_execute(
                    growable,
                    types,
                    functions,
                    t,
                    ticks + 1,
                    max_ticks,
                )
            }
            &&& spec_trunc_sat(bits, wide, min, max) == if is_nan(bits, wide) {
                0
            } else if is_infinite(bits, wide) {
                if is_negative(bits, wide) {
                    min
                } else {
                    max
                }
            } else if truncated(bits, wide) < min {
                min
            } else if truncated(bits, wide) > max {
                max
            } else {
                truncated(bits, wide)
            }
        }),
{
    let op = spec_current(s);
    let (wide, min, max) = spec_saturating(op)->Some_0;
    let bits = if wide {
        s.frame.stack.last()
    } else {
        spec_low32(s.frame.stack.last())
    };
    lemma_arity(op, s.frame.stack.last(), 0);
    lemma_truncation(bits, wide, min, max);
    lemma_cell_round_trip(spec_trunc_sat(bits, wide, min, max) as i32, None);
    let v: i64 = spec_trunc_sat(bits, wide, min, max) as i64;
    assert((v as u64) as i64 == v) by (bit_vector);
}

/// Sign extension of the low byte gives back every value from -128 to
/// 127: where the low byte of the integer on top of the stack is the low
/// byte of `x`, the operation leaves `x` in its place.
pub proof fn lemma_execute_extend8(
    growable: Set<nat>,
    types: Seq<FuncTypeView>,
    functions: Seq<usize>,
    s: Machine,
    ticks: nat,
    max_ticks: nat,
    x: i32,
)
    requires
        s.frame.pc < s.frame.program.ops.len(),
        ticks + 1 < max_ticks,
        spec_current(s) == OpView::I32Extend8S,
        s.frame.stack.len() > 0,
        -128 <= x <= 127,
        spec_i32_of(s.frame.stack.last()) & 0xff == x & 0xff,
    ensures
        ({
            let t = spec_moved(s, s.frame.stack.drop_last().push(spec_cell_i32(x)));
            &&& spec_step(growable, types, functions, s) == Step::Next(t)
            &&& spec_i32_of(t.frame.stack.last()) == x
            &&& t.frame.stack.len() == s.frame.stack.len()
            &&& spec_execute(growable, types, functions, s, ticks, max_ticks) == spec_execute(
                growable,
                types,
                functions,
                t,
                ticks + 1,
                max_ticks,
            )
        }),
{
    let v = spec_i32_of(s.frame.stack.last());
    assert(-128 <= x <= 127 && v & 0xff == x & 0xff ==> (v as i8) as i32 == x) by (bit_vector);
    lemma_cell_round_trip(x, None);
}

/// An indirect call through an element that is empty or null is an
/// uninitialized element: no function is called, and the machine stays as
/// it is.
pub proof fn lemma_execute_null_element(
    growable: Set<nat>,
    types: Seq<FuncTypeView>,
    functions: Seq<usize>,
    s: Machine,
    ticks: nat,
    max_ticks: nat,
)
    requires
        s.frame.pc < s.frame.program.ops.len(),
        ticks + 1 < max_ticks,
        s.frame.stack.len() > 0,
        spec_current(s) matches OpView::CallIndirect(_, table) && table < s.tables.len() && {
            let elements = s.tables[table as int].elements;
            let index = s.frame.stack.last() as u32;
            index < elements.len() && (elements[index as int] is None || elements[index as int]
                == Some(Value::FuncRef(None)))
        },
    ensures
        spec_execute(growable, types, functions, s, ticks, max_ticks) == (
            s,
            (ticks + 1) as nat,
            Err::<Continuation, Fault>(Fault::UninitializedElement),
        ),
{
}

/// That the machine `s` is about to run the operations `ops` from the
/// first on, on an empty stack.
pub open spec fn spec_begins(s: Machine, ops: Seq<OpView>) -> bool {
    s.frame.program.ops == ops && s.frame.pc == 0 && s.frame.stack.len() == 0
}

/// That a run came to the end of its operations with the single cell of
/// the `i32` `value` on the stack.
pub open spec fn spec_leaves(e: (Machine, nat, Result<Continuation, Fault>), value: i32) -> bool {
    e.2 == Ok::<Continuation, Fault>(Continuation::ProgramEnd) && e.0.frame.stack == seq![
        spec_cell_i32(value),
    ]
}

/// A constant goes onto the stack.
proof fn lemma_constant(
    growable: Set<nat>,
    types: Seq<FuncTypeView>,
    functions: Seq<usize>,
    s: Machine,
    ticks: nat,
    max_ticks: nat,
    value: i32,
)
    requires
        s.frame.pc < s.frame.program.ops.len(),
        ticks + 1 < max_ticks,
        spec_current(s) == OpView::I32Const(value),
    ensures
        spec_execute(growable, types, functions, s, ticks, max_ticks) == spec_execute(
            growable,
            types,
            functions,
            spec_moved(s, s.frame.stack.push(spec_cell_i32(value))),
            ticks + 1,
            max_ticks,
        ),
{
}

/// What the operations `i32.add`, `i32.mul`, `i32.xor` and `i32.or` make of
/// two integers.
pub open spec fn spec_combined(op: OpView, a: i32, b: i32) -> i32 {
    match op {
        OpView::I32Add => a.wrapping_add(b),
        OpView::I32Mul => a.wrapping_mul(b),
        OpView::I32Xor => a ^ b,
        _ => a | b,
    }
}

/// One of `i32.add`, `i32.mul`, `i32.xor` and `i32.or` takes two integers
/// from the stack and leaves one.
proof fn lemma_combine(
    growable: Set<nat>,
    types: Seq<FuncTypeView>,
    functions: Seq<usize>,
    s: Machine,
    ticks: nat,
    max_ticks: nat,
    below: Seq<u64>,
    a: i32,
    b: i32,
)
    requires
        s.frame.pc < s.frame.program.ops.len(),
        ticks + 1 < max_ticks,
        spec_current(s) == OpView::I32Add || spec_current(s) == OpView::I32Mul || spec_current(s)
            == OpView::I32Xor || spec_current(s) == OpView::I32Or,
        s.frame.stack == below.push(spec_cell_i32(a)).push(spec_cell_i32(b)),
    ensures
        spec_execute(growable, types, functions, s, ticks, max_ticks) == spec_execute(
            growable,
            types,
            functions,
            spec_moved(s, below.push(spec_cell_i32(spec_combined(spec_current(s), a, b)))),
            ticks + 1,
            max_ticks,
        ),
{
    let st = s.frame.stack;
    lemma_cell_round_trip(a, None);
    lemma_cell_round_trip(b, None);
    assert(st.subrange(0, st.len() - 2) =~= below);
    assert(st[st.len() - 2] == spec_cell_i32(a));
    assert(st.last() == spec_cell_i32(b));
}

/// Addition is associative: `a + b` and then `+ c` leaves what `b + c` and
/// then `a +` leaves, which is the wrapped sum, in a single cell.
pub proof fn lemma_execute_add_associates(
    growable: Set<nat>,
    types: Seq<FuncTypeView>,
    functions: Seq<usize>,
    s: Machine,
    t: Machine,
    ticks: nat,
    max_ticks: nat,
    a: i32,
    b: i32,
    c: i32,
)
    requires
        ticks + 5 < max_ticks,
        spec_begins(
            s,
            seq![
                OpView::I32Const(a),
                OpView::I32Const(b),
                OpView::I32Add,
                OpView::I32Const(c),
                OpView::I32Add,
            ],
        ),
        spec_begins(
            t,
            seq![
                OpView::I32Const(a),
                OpView::I32Const(b),
                OpView::I32Const(c),
                OpView::I32Add,
                OpView::I32Add,
            ],
        ),
    ensures
        spec_leaves(
            spec_execute(growable, types, functions, s, ticks, max_ticks),
            a.wrapping_add(b).wrapping_add(c),
        ),
        spec_leaves(
            spec_execute(growable, types, functions, t, ticks, max_ticks),
            a.wrapping_add(b).wrapping_add(c),
        ),
{
    lemma_i32_laws(a, b, c);
    let none = Seq::<u64>::empty();
    assert(s.frame.stack =~= none);
    assert(t.frame.stack =~= none);
    let s1 = spec_moved(s, none.push(spec_cell_i32(a)));
    let s2 = spec_moved(s1, none.push(spec_cell_i32(a)).push(spec_cell_i32(b)));
    let s3 = spec_moved(s2, none.push(spec_cell_i32(a.wrapping_add(b))));
    let s4 = spec_moved(s3, none.push(spec_cell_i32(a.wrapping_add(b))).push(spec_cell_i32(c)));
    let s5 = spec_moved(s4, none.push(spec_cell_i32(a.wrapping_add(b).wrapping_add(c))));
    lemma_constant(growable, types, functions, s, ticks, max_ticks, a);
    lemma_constant(growable, types, functions, s1, ticks + 1, max_ticks, b);
    lemma_combine(growable, types, functions, s2, ticks + 2, max_ticks, none, a, b);
    lemma_constant(growable, types, functions, s3, ticks + 3, max_ticks, c);
    lemma_combine(
        growable,
        types,
        functions,
        s4,
        ticks + 4,
        max_ticks,
        none,
        a.wrapping_add(b),
        c,
    );
    assert(s5.frame.stack =~= seq![spec_cell_i32(a.wrapping_add(b).wrapping_add(c))]);
    let t1 = spec_moved(t, none.push(spec_cell_i32(a)));
    let t2 = spec_moved(t1, none.push(spec_cell_i32(a)).push(spec_cell_i32(b)));
    let t3 = spec_moved(
        t2,
        none.push(spec_cell_i32(a)).push(spec_cell_i32(b)).push(spec_cell_i32(c)),
    );
    let t4 = spec_moved(t3, none.push(spec_cell_i32(a)).push(spec_cell_i32(b.wrapping_add(c))));
    let t5 = spec_moved(t4, none.push(spec_cell_i32(a.wrapping_add(b.wrapping_add(c)))));
    lemma_constant(growable, types, functions, t, ticks, max_ticks, a);
    lemma_constant(growable, types, functions, t1, ticks + 1, max_ticks, b);
    lemma_constant(growable, types, functions, t2, ticks + 2, max_ticks, c);
    lemma_combine(
        growable,
        types,
        functions,
        t3,
        ticks + 3,
        max_ticks,
        none.push(spec_cell_i32(a)),
        b,
        c,
    );
    lemma_combine(
        growable,
        types,
        functions,
        t4,
        ticks + 4,
        max_ticks,
        none,
        a,
        b.wrapping_add(c),
    );
    assert(t5.frame.stack =~= seq![spec_cell_i32(a.wrapping_add(b).wrapping_add(c))]);
}

/// Two constants and one of `i32.add`, `i32.mul`, `i32.xor` and `i32.or`
/// leave what the operation makes of the constants, in a single cell.
pub proof fn lemma_execute_combines(
    growable: Set<nat>,
    types: Seq<FuncTypeView>,
    functions: Seq<usize>,
    s: Machine,
    ticks: nat,
    max_ticks: nat,
    op: OpView,
    a: i32,
    b: i32,
)
    requires
        ticks + 3 < max_ticks,
        op == OpView::I32Add || op == OpView::I32Mul || op == OpView::I32Xor || op
            == OpView::I32Or,
        spec_begins(s, seq![OpView::I32Const(a), OpView::I32Const(b), op]),
    ensures
        spec_leaves(
            spec_execute(growable, types, functions, s, ticks, max_ticks),
            spec_combined(op, a, b),
        ),
{
    let none = Seq::<u64>::empty();
    assert(s.frame.stack =~= none);
    let s1 = spec_moved(s, none.push(spec_cell_i32(a)));
    let s2 = spec_moved(s1, none.push(spec_cell_i32(a)).push(spec_cell_i32(b)));
    let s3 = spec_moved(s2, none.push(spec_cell_i32(spec_combined(op, a, b))));
    lemma_constant(growable, types, functions, s, ticks, max_ticks, a);
    lemma_constant(growable, types, functions, s1, ticks + 1, max_ticks, b);
    lemma_combine(growable, types, functions, s2, ticks + 2, max_ticks, none, a, b);
    assert(s3.frame.stack =~= seq![spec_cell_i32(spec_combined(op, a, b))]);
}

/// A product with 0 is 0; a value XORed with itself is 0, and ORed with
/// itself is itself: each of the three programs leaves that, in a single
/// cell.
pub proof fn lemma_execute_identities(
    growable: Set<nat>,
    types: Seq<FuncTypeView>,
    functions: Seq<usize>,
    s: Machine,
    ticks: nat,
    max_ticks: nat,
    a: i32,
)
    requires
        ticks + 3 < max_ticks,
    ensures
        spec_begins(s, seq![OpView::I32Const(a), OpView::I32Const(0), OpView::I32Mul])
            ==> spec_leaves(spec_execute(growable, types, functions, s, ticks, max_ticks), 0),
        spec_begins(s, seq![OpView::I32Const(a), OpView::I32Const(a), OpView::I32Xor])
            ==> spec_leaves(spec_execute(growable, types, functions, s, ticks, max_ticks), 0),
        spec_begins(s, seq![OpView::I32Const(a), OpView::I32Const(a), OpView::I32Or])
            ==> spec_leaves(spec_execute(growable, types, functions, s, ticks, max_ticks), a),
{
    lemma_i32_laws(a, a, a);
    if spec_begins(s, seq![OpView::I32Const(a), OpView::I32Const(0), OpView::I32Mul]) {
        lemma_execute_combines(
            growable,
            types,
            functions,
            s,
            ticks,
            max_ticks,
            OpView::I32Mul,
            a,
            0,
        );
    }
    if spec_begins(s, seq![OpView::I32Const(a), OpView::I32Const(a), OpView::I32Xor]) {
        lemma_execute_combines(
            growable,
            types,
            functions,
            s,
            ticks,
            max_ticks,
            OpView::I32Xor,
            a,
            a,
        );
    }
    if spec_begins(s, seq![OpView::I32Const(a), OpView::I32Const(a), OpView::I32Or]) {
        lemma_execute_combines(growable, types, functions, s, ticks, max_ticks, OpView::I32Or, a, a);
    }
}

} // verus!
