//! Call frames: the locals, the value stack and the control stack of one
//! active call.
use crate::decode::{Program, ProgramView, ScopeType};
use crate::exec::{spec_pop_value, spec_push_value, Fault, Value};
use crate::stack::{lemma_cell_round_trip, Stack};
use crate::{views, Type, TypeView, ValueType};
use vstd::prelude::*;

verus! {

/// An open scope of a running function: where to cut the value stack when
/// the scope is left, and how many values to carry across.
pub struct Control {
    pub signature: Type,
    pub scope_type: ScopeType,
    pub stack_width: usize,
}

/// The mathematical content of a [`Control`].
pub struct ControlView {
    pub signature: TypeView,
    pub scope_type: ScopeType,
    pub stack_width: usize,
}

impl View for Control {
    type V = ControlView;

    open spec fn view(&self) -> ControlView {
        ControlView {
            signature: self.signature@,
            scope_type: self.scope_type,
            stack_width: self.stack_width,
        }
    }
}

/// One active call: its locals, its program, its value stack, its program
/// counter and its open scopes.
pub struct Frame {
    pub locals: Vec<Value>,
    pub return_types: Vec<ValueType>,
    pub program: Program,
    pub stack: Stack,
    pub pc: usize,
    pub control_stack: Vec<Control>,
}

/// The mathematical content of a [`Frame`].
pub struct FrameView {
    pub locals: Seq<Value>,
    pub return_types: Seq<ValueType>,
    pub program: ProgramView,
    pub stack: Seq<u64>,
    pub pc: usize,
    pub control_stack: Seq<ControlView>,
}

impl View for Frame {
    type V = FrameView;

    open spec fn view(&self) -> FrameView {
        FrameView {
            locals: self.locals@,
            return_types: self.return_types@,
            program: self.program@,
            stack: self.stack@,
            pc: self.pc,
            control_stack: views(self.control_stack@),
        }
    }
}

/// The result types of a scope: those of its function type, or its one
/// value type, or none for unit.
pub open spec fn spec_result_types(signature: TypeView) -> Seq<ValueType> {
    match signature {
        TypeView::ValueType(v) => if v == ValueType::Unit {
            Seq::empty()
        } else {
            seq![v]
        },
        TypeView::FunctionType(f) => f.results,
    }
}

/// The parameter types of a scope: those of its function type, or none.
pub open spec fn spec_param_types(signature: TypeView) -> Seq<ValueType> {
    match signature {
        TypeView::ValueType(_) => Seq::empty(),
        TypeView::FunctionType(f) => f.params,
    }
}

/// The values of the types `types` that stand on top of the cells `s`, the
/// last of them topmost, before `acc`, and the cells under them.
pub open spec fn spec_pop_values(types: Seq<ValueType>, s: Seq<u64>, acc: Seq<Value>) -> Result<
    (Seq<Value>, Seq<u64>),
    Fault,
>
    decreases types.len(),
{
    if types.len() == 0 {
        Ok((acc, s))
    } else {
        match spec_pop_value(types.last(), s) {
            Ok((v, rest)) => spec_pop_values(types.drop_last(), rest, seq![v] + acc),
            Err(f) => Err(f),
        }
    }
}

/// The cells `s` with the values `values` pushed, the first of them first.
pub open spec fn spec_push_values(values: Seq<Value>, s: Seq<u64>) -> Seq<u64>
    decreases values.len(),
{
    if values.len() == 0 {
        s
    } else {
        spec_push_values(values.drop_first(), spec_push_value(values[0], s))
    }
}

/// The cells `s` cut to `width`, where they are more.
pub open spec fn spec_cut(s: Seq<u64>, width: usize) -> Seq<u64> {
    if width <= s.len() {
        s.subrange(0, width as int)
    } else {
        s
    }
}

/// Pops the values of the given types, the last of them topmost.
pub fn pop_values(types: &Vec<ValueType>, stack: &mut Stack) -> (r: Result<Vec<Value>, Fault>)
    ensures
        match spec_pop_values(types@, old(stack)@, Seq::empty()) {
            Ok((values, rest)) => r is Ok && r->Ok_0@ == values && final(stack)@ == rest,
            Err(f) => r == Err::<Vec<Value>, Fault>(f),
        },
{
    let mut values: Vec<Value> = Vec::new();
    let mut i: usize = types.len();
    assert(types@.subrange(0, i as int) =~= types@);
    assert(values@ =~= Seq::empty());
    while i > 0
        invariant
            i <= types.len(),
            spec_pop_values(types@, old(stack)@, Seq::empty()) == spec_pop_values(
                types@.subrange(0, i as int),
                stack@,
                values@,
            ),
        decreases i,
    {
        i = i - 1;
        let value = Value::pop_from(types[i], stack)?;
        let ghost before = values@;
        values.insert(0, value);
        proof {
            assert(types@.subrange(0, i + 1).drop_last() =~= types@.subrange(0, i as int));
            assert(values@ =~= seq![value] + before);
        }
    }
    Ok(values)
}

/// Pushes the values, the first of them first.
pub fn push_values(values: &Vec<Value>, stack: &mut Stack)
    ensures
        final(stack)@ == spec_push_values(values@, old(stack)@),
{
    let mut i: usize = 0;
    assert(values@.subrange(0, values.len() as int) =~= values@);
    while i < values.len()
        invariant
            i <= values.len(),
            spec_push_values(values@, old(stack)@) == spec_push_values(
                values@.subrange(i as int, values.len() as int),
                stack@,
            ),
        decreases values.len() - i,
    {
        values[i].push_to(stack);
        proof {
            assert(values@.subrange(i as int, values.len() as int).drop_first()
                =~= values@.subrange(i + 1, values.len() as int));
        }
        i = i + 1;
    }
}

impl Frame {
    /// A frame for `program` with `num_locals` unit locals.
    pub fn new(num_locals: usize, program: Program) -> (r: Self)
        ensures
            r@ == (FrameView {
                locals: Seq::new(num_locals as nat, |i: int| Value::Unit),
                return_types: program@.return_types,
                program: program@,
                stack: Seq::empty(),
                pc: 0,
                control_stack: Seq::empty(),
            }),
    {
        let return_types = crate::op::copy_value_types(&program.return_types);
        let mut locals: Vec<Value> = Vec::new();
        let mut i: usize = 0;
        while i < num_locals
            invariant
                i <= num_locals,
                locals@ == Seq::new(i as nat, |k: int| Value::Unit),
            decreases num_locals - i,
        {
            locals.push(Value::Unit);
            i = i + 1;
            assert(locals@ =~= Seq::new(i as nat, |k: int| Value::Unit));
        }
        let frame = Frame {
            locals,
            stack: Stack::new(),
            pc: 0,
            program,
            control_stack: Vec::new(),
            return_types,
        };
        assert(frame@.control_stack =~= Seq::empty());
        frame
    }

    /// Opens a scope at the current width of the value stack.
    pub fn push_control(&mut self, signature: Type, scope_type: ScopeType)
        ensures
            final(self)@ == (FrameView {
                control_stack: old(self)@.control_stack.push(
                    ControlView {
                        signature: signature@,
                        scope_type,
                        stack_width: old(self)@.stack.len() as usize,
                    },
                ),
                ..old(self)@
            }),
    {
        let control = Control { signature, scope_type, stack_width: self.stack.width() };
        proof {
            crate::lemma_views_push(self.control_stack@, control);
        }
        self.control_stack.push(control);
    }

    /// Closes the innermost scope and pops its result values. The value
    /// stack is not cut: that is left to the caller.
    pub fn pop_control(&mut self) -> (r: Result<(Control, Vec<Value>), Fault>)
        ensures
            if old(self)@.control_stack.len() == 0 {
                r == Err::<(Control, Vec<Value>), Fault>(Fault::ControlStackUnderflow)
            } else {
                match spec_pop_values(
                    spec_result_types(old(self)@.control_stack.last().signature),
                    old(self)@.stack,
                    Seq::empty(),
                ) {
                    Ok((values, rest)) => r is Ok && r->Ok_0.0@ == old(self)@.control_stack.last()
                        && r->Ok_0.1@ == values && final(self)@ == (FrameView {
                        control_stack: old(self)@.control_stack.drop_last(),
                        stack: rest,
                        ..old(self)@
                    }),
                    Err(f) => r == Err::<(Control, Vec<Value>), Fault>(f),
                }
            },
    {
        let c = match self.control_stack.pop() {
            Some(c) => c,
            None => {
                return Err(Fault::ControlStackUnderflow);
            },
        };
        assert(views(self.control_stack@) =~= views(old(self).control_stack@).drop_last());
        let results = match &c.signature {
            Type::ValueType(vt) => {
                let mut types: Vec<ValueType> = Vec::new();
                match vt {
                    ValueType::Unit => {},
                    _ => {
                        types.push(*vt);
                    },
                }
                assert(types@ =~= spec_result_types(c.signature@));
                pop_values(&types, &mut self.stack)?
            },
            Type::FunctionType(ft) => pop_values(&ft.results, &mut self.stack)?,
        };
        Ok((c, results))
    }

    /// Pushes the value of a local.
    pub fn push_local_to_stack(&mut self, local_index: u32) -> (r: Result<(), Fault>)
        ensures
            if local_index < old(self)@.locals.len() {
                r == Ok::<(), Fault>(()) && final(self)@ == (FrameView {
                    stack: spec_push_value(
                        old(self)@.locals[local_index as int],
                        old(self)@.stack,
                    ),
                    ..old(self)@
                })
            } else {
                r == Err::<(), Fault>(Fault::LocalIndexOutOfBounds)
            },
    {
        if local_index as usize >= self.locals.len() {
            return Err(Fault::LocalIndexOutOfBounds);
        }
        let value = self.locals[local_index as usize];
        value.push_to(&mut self.stack);
        Ok(())
    }

    /// Sets a local from the top of the stack, by the type that the program
    /// declares for it; `pop` says whether the value leaves the stack.
    pub fn set_local_from_stack(&mut self, local_index: u32, pop: bool) -> (r: Result<(), Fault>)
        ensures
            match spec_set_local(old(self)@, local_index, pop) {
                Ok(f) => r == Ok::<(), Fault>(()) && final(self)@ == f,
                Err(f) => r == Err::<(), Fault>(f),
            },
    {
        if local_index as usize >= self.locals.len() || local_index as usize
            >= self.program.local_types.len() {
            return Err(Fault::LocalIndexOutOfBounds);
        }
        let type_of_local = self.program.local_types[local_index as usize];
        let value = if pop {
            Value::pop_from(type_of_local, &mut self.stack)?
        } else {
            Value::top_of(type_of_local, &mut self.stack)?
        };
        self.locals.set(local_index as usize, value);
        Ok(())
    }
}

/// The frame after a local is set from the top of the stack. A local
/// without a declared type is out of bounds.
pub open spec fn spec_set_local(f: FrameView, local_index: u32, pop: bool) -> Result<
    FrameView,
    Fault,
> {
    if local_index >= f.locals.len() || local_index >= f.program.local_types.len() {
        Err(Fault::LocalIndexOutOfBounds)
    } else {
        match (if pop {
            spec_pop_value(f.program.local_types[local_index as int], f.stack)
        } else {
            crate::exec::spec_top_value(f.program.local_types[local_index as int], f.stack)
        }) {
            Ok((v, rest)) => Ok(
                FrameView { locals: f.locals.update(local_index as int, v), stack: rest, ..f },
            ),
            Err(e) => Err(e),
        }
    }
}

/// The number of cells that a value of a type takes: two for a `V128`,
/// one for every other.
pub open spec fn spec_cells_of(ty: ValueType) -> nat {
    if ty == ValueType::V128 {
        2
    } else {
        1
    }
}

/// The number of cells that values of the types `types` take.
pub open spec fn spec_cells(types: Seq<ValueType>) -> nat
    decreases types.len(),
{
    if types.len() == 0 {
        0
    } else {
        spec_cells(types.drop_last()) + spec_cells_of(types.last())
    }
}

/// The number of cells that the values `values` take.
pub open spec fn spec_value_cells(values: Seq<Value>) -> nat
    decreases values.len(),
{
    if values.len() == 0 {
        0
    } else {
        spec_cells_of(values[0].type_of()) + spec_value_cells(values.drop_first())
    }
}

/// Popping values takes as many cells off the stack as their types take
/// and leaves the cells under them as they are; and the values popped
/// take as many cells again when they are pushed.
pub proof fn lemma_pop_values_cells(types: Seq<ValueType>, s: Seq<u64>, acc: Seq<Value>)
    ensures
        spec_pop_values(types, s, acc) matches Ok((values, rest)) ==> rest.len() + spec_cells(types)
            == s.len() && spec_value_cells(values) == spec_value_cells(acc) + spec_cells(types)
            && rest == s.subrange(0, rest.len() as int),
    decreases types.len(),
{
    if types.len() > 0 {
        match spec_pop_value(types.last(), s) {
            Ok((v, rest)) => {
                lemma_pop_values_cells(types.drop_last(), rest, seq![v] + acc);
                assert((seq![v] + acc).drop_first() =~= acc);
                match spec_pop_values(types.drop_last(), rest, seq![v] + acc) {
                    Ok((_, last)) => {
                        assert(rest.subrange(0, last.len() as int) =~= s.subrange(
                            0,
                            last.len() as int,
                        ));
                    },
                    Err(_) => {},
                }
            },
            Err(_) => {},
        }
    } else {
        assert(s =~= s.subrange(0, s.len() as int));
    }
}

/// Pushing values puts as many cells onto the stack as they take, and
/// leaves the cells under them as they are.
pub proof fn lemma_push_values_cells(values: Seq<Value>, s: Seq<u64>)
    ensures
        spec_push_values(values, s).len() == s.len() + spec_value_cells(values),
        spec_push_values(values, s).subrange(0, s.len() as int) == s,
    decreases values.len(),
{
    if values.len() > 0 {
        let next = spec_push_value(values[0], s);
        lemma_push_values_cells(values.drop_first(), next);
        assert(next.subrange(0, s.len() as int) =~= s);
        assert(spec_push_values(values, s).subrange(0, s.len() as int) =~= spec_push_values(
            values,
            s,
        ).subrange(0, next.len() as int).subrange(0, s.len() as int));
    } else {
        assert(s.subrange(0, s.len() as int) =~= s);
    }
}

/// Whether a value comes back from the cells that it is pushed as: every
/// value does, but a reference to the index 2^32 - 1, whose cell is that
/// of null.
pub open spec fn spec_whole(v: Value) -> bool {
    v != Value::FuncRef(Some(0xffff_ffffu32)) && v != Value::ExternRef(Some(0xffff_ffffu32))
}

/// The types of the values `values`.
pub open spec fn spec_types_of(values: Seq<Value>) -> Seq<ValueType> {
    Seq::new(values.len(), |i: int| values[i].type_of())
}

/// A value that is pushed and then popped by its type is the same value,
/// and the cells under it are the same.
pub proof fn lemma_push_pop_value(v: Value, base: Seq<u64>)
    requires
        spec_whole(v),
    ensures
        spec_pop_value(v.type_of(), spec_push_value(v, base)) == Ok::<(Value, Seq<u64>), Fault>(
            (v, base),
        ),
{
    let pushed = spec_push_value(v, base);
    match v {
        Value::I32(x) => {
            lemma_cell_round_trip(x, None);
        },
        Value::I64(x) => {
            assert((x as u64) as i64 == x) by (bit_vector);
        },
        Value::F32(x) => {
            assert((x as u64) as u32 == x) by (bit_vector);
        },
        Value::V128(x) => {
            assert((((x >> 64) as u64) as u128) << 64 | ((x as u64) as u128) == x) by (bit_vector);
            assert(pushed.drop_last().drop_last() =~= base);
        },
        Value::FuncRef(r) => {
            lemma_cell_round_trip(0, r);
        },
        Value::ExternRef(r) => {
            lemma_cell_round_trip(0, r);
        },
        _ => {},
    }
    if !(v is V128) {
        assert(pushed.drop_last() =~= base);
    }
}

/// Pushing values and one more is pushing the values and then the one.
proof fn lemma_push_values_last(values: Seq<Value>, v: Value, s: Seq<u64>)
    ensures
        spec_push_values(values.push(v), s) == spec_push_value(v, spec_push_values(values, s)),
    decreases values.len(),
{
    reveal_with_fuel(spec_push_values, 2);
    if values.len() == 0 {
        assert(values.push(v).drop_first() =~= Seq::empty());
    } else {
        assert(values.push(v).drop_first() =~= values.drop_first().push(v));
        lemma_push_values_last(values.drop_first(), v, spec_push_value(values[0], s));
    }
}

/// Values that are pushed and then popped by their types are the same
/// values in the same order, and the cells under them are the same.
pub proof fn lemma_push_pop_values(values: Seq<Value>, base: Seq<u64>, acc: Seq<Value>)
    requires
        forall|i: int| 0 <= i < values.len() ==> spec_whole(#[trigger] values[i]),
    ensures
        spec_pop_values(spec_types_of(values), spec_push_values(values, base), acc) == Ok::<
            (Seq<Value>, Seq<u64>),
            Fault,
        >((values + acc, base)),
    decreases values.len(),
{
    if values.len() == 0 {
        assert(values + acc =~= acc);
    } else {
        let front = values.drop_last();
        let v = values.last();
        assert(values =~= front.push(v));
        lemma_push_values_last(front, v, base);
        lemma_push_pop_value(v, spec_push_values(front, base));
        assert(spec_types_of(values).last() == v.type_of());
        assert(spec_types_of(values).drop_last() =~= spec_types_of(front));
        lemma_push_pop_values(front, base, seq![v] + acc);
        assert(front + (seq![v] + acc) =~= values + acc);
    }
}

/// The values popped are as many as the types, before those of `acc`, and
/// each has the type by which it was popped.
pub proof fn lemma_pop_values_types(types: Seq<ValueType>, s: Seq<u64>, acc: Seq<Value>)
    ensures
        spec_pop_values(types, s, acc) matches Ok((values, _)) ==> values.len() == types.len()
            + acc.len() && spec_types_of(values.subrange(0, types.len() as int)) == types
            && values.subrange(types.len() as int, values.len() as int) == acc,
    decreases types.len(),
{
    if types.len() > 0 {
        match spec_pop_value(types.last(), s) {
            Ok((v, rest)) => {
                lemma_pop_values_types(types.drop_last(), rest, seq![v] + acc);
                match spec_pop_values(types.drop_last(), rest, seq![v] + acc) {
                    Ok((values, _)) => {
                        let n = types.len() as int;
                        let tail = values.subrange(n - 1, values.len() as int);
                        assert(tail == seq![v] + acc);
                        assert(values[n - 1] == tail[0]);
                        assert(v.type_of() == types.last());
                        assert(values.subrange(n, values.len() as int) =~= tail.subrange(
                            1,
                            tail.len() as int,
                        ));
                        assert(tail.subrange(1, tail.len() as int) =~= acc);
                        assert(spec_types_of(values.subrange(0, n - 1)) == types.drop_last());
                        assert forall|i: int| 0 <= i < n implies spec_types_of(
                            values.subrange(0, n),
                        )[i] == types[i] by {
                            if i < n - 1 {
                                assert(spec_types_of(values.subrange(0, n - 1))[i]
                                    == types.drop_last()[i]);
                            }
                        }
                        assert(spec_types_of(values.subrange(0, n)) =~= types);
                    },
                    Err(_) => {},
                }
            },
            Err(_) => {},
        }
    } else {
        assert(spec_types_of(acc.subrange(0, 0)) =~= types);
        assert(acc.subrange(0, acc.len() as int) =~= acc);
    }
}

} // verus!
