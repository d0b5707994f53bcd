//! The stack machine: what one operation makes of a frame, a memory, the
//! globals and the tables.
use crate::decode::ScopeType;
use crate::exec::{
    spec_pop_value, spec_push_value, Continuation, Fault, FloatRequest, GlobalVar, Value,
};
use crate::frame::{
    lemma_pop_values_cells, lemma_pop_values_types, lemma_push_pop_values,
    lemma_push_values_cells, pop_values, push_values, spec_cells, spec_cut, spec_param_types,
    spec_pop_values, spec_push_values, spec_result_types, spec_whole, ControlView, Frame,
    FrameView,
};
use crate::instance::{TableInstance, TableView, WASM_PAGE_SIZE};
use crate::memory::{
    lemma_written, read_le, spec_read, spec_resized, spec_written, write_le, Memory,
};
use crate::module::ReferenceType;
use crate::numeric::{
    binary, host_float, lemma_arity, spec_binary, spec_host_float, spec_is_binary, spec_is_unary,
    spec_unary, unary,
};
use crate::op::{copy_value_types, MemArg, Op, OpView};
use crate::stack::{cell_i32, cell_ref, i32_of, ref_of};
use crate::{views, FuncType, FuncTypeView, Type, TypeSignature, TypeView, ValueType};
use vstd::prelude::*;

verus! {

/// What an operation changes: the frame, the bytes of the memory, the
/// globals and the tables.
pub struct Machine {
    pub frame: FrameView,
    pub memory: Seq<u8>,
    pub globals: Seq<GlobalVar>,
    pub tables: Seq<TableView>,
}

/// What one operation comes to.
pub enum Step {
    /// The next operation follows.
    Next(Machine),
    /// Control goes back to the driver.
    Done(Machine, Continuation),
    /// The invocation ends with a fault.
    Trap(Fault),
}

/// The type that a block signature stands for: the value type, or the
/// function type at that index.
pub open spec fn spec_resolve_type(types: Seq<FuncTypeView>, ts: TypeSignature) -> Result<
    TypeView,
    Fault,
> {
    match ts {
        TypeSignature::ValueType(v) => Ok(TypeView::ValueType(v)),
        TypeSignature::Index(idx) => if idx < types.len() {
            Ok(TypeView::FunctionType(types[idx as int]))
        } else {
            Err(Fault::UnresolvableTypeIndex(idx))
        },
    }
}

/// A copy of a function type.
pub fn copy_func_type(ft: &FuncType) -> (r: FuncType)
    ensures
        r@ == ft@,
{
    FuncType { params: copy_value_types(&ft.params), results: copy_value_types(&ft.results) }
}

/// Resolves a block signature against the types of the module.
pub fn resolve_type(types: &[FuncType], ts: TypeSignature) -> (r: Result<Type, Fault>)
    ensures
        match spec_resolve_type(views(types@), ts) {
            Ok(t) => r is Ok && r->Ok_0@ == t,
            Err(f) => r is Err && r->Err_0 == f,
        },
{
    match ts {
        TypeSignature::ValueType(v) => Ok(Type::ValueType(v)),
        TypeSignature::Index(idx) => {
            if (idx as usize) < types.len() {
                Ok(Type::FunctionType(copy_func_type(&types[idx as usize])))
            } else {
                Err(Fault::UnresolvableTypeIndex(idx))
            }
        },
    }
}

/// Whether two lists of value types are the same.
fn same_value_types(a: &Vec<ValueType>, b: &Vec<ValueType>) -> (r: bool)
    ensures
        r == (a@ == b@),
{
    if a.len() != b.len() {
        return false;
    }
    let mut i: usize = 0;
    while i < a.len()
        invariant
            i <= a.len(),
            a.len() == b.len(),
            a@.subrange(0, i as int) == b@.subrange(0, i as int),
        decreases a.len() - i,
    {
        if a[i] != b[i] {
            return false;
        }
        i = i + 1;
        assert(a@.subrange(0, i as int) =~= a@.subrange(0, i - 1).push(a@[i - 1]));
        assert(b@.subrange(0, i as int) =~= b@.subrange(0, i - 1).push(b@[i - 1]));
    }
    assert(a@.subrange(0, a.len() as int) =~= a@);
    assert(b@.subrange(0, b.len() as int) =~= b@);
    true
}

/// Whether two function types have the same parameters and results.
pub fn same_func_type(a: &FuncType, b: &FuncType) -> (r: bool)
    ensures
        r == (a@ == b@),
{
    same_value_types(&a.params, &b.params) && same_value_types(&a.results, &b.results)
}

/// The types of the values that a branch to a scope carries: the
/// parameters of a loop, the results of every other scope.
pub open spec fn spec_branch_types(c: ControlView) -> Seq<ValueType> {
    if c.scope_type == ScopeType::Loop {
        spec_param_types(c.signature)
    } else {
        spec_result_types(c.signature)
    }
}

/// The index after the `StartScope` of the scope that lies `skip` scopes
/// out from the operations before `pc`, of which `level` closed scopes are
/// still to be passed over; `None` if there is none.
pub open spec fn spec_scope_start(ops: Seq<OpView>, pc: int, skip: nat, level: nat) -> Option<
    int,
>
    decreases pc,
{
    if pc <= 0 || pc > ops.len() {
        None
    } else {
        match ops[pc - 1] {
            OpView::EndScope(_) => spec_scope_start(ops, pc - 1, skip, level + 1),
            OpView::StartScope(_, _) => if level > 0 {
                spec_scope_start(ops, pc - 1, skip, (level - 1) as nat)
            } else if skip > 0 {
                spec_scope_start(ops, pc - 1, (skip - 1) as nat, 0)
            } else {
                Some(pc)
            },
            _ => spec_scope_start(ops, pc - 1, skip, level),
        }
    }
}

/// The index after the `EndScope` that closes the scope which lies `level`
/// scopes out from `pc`; the end of the operations if there is none.
pub open spec fn spec_scope_end(ops: Seq<OpView>, pc: int, level: nat) -> int
    decreases ops.len() - pc,
{
    if pc < 0 || pc >= ops.len() {
        ops.len() as int
    } else {
        match ops[pc] {
            OpView::StartScope(_, _) => spec_scope_end(ops, pc + 1, level + 1),
            OpView::EndScope(_) => if level == 0 {
                pc + 1
            } else {
                spec_scope_end(ops, pc + 1, (level - 1) as nat)
            },
            _ => spec_scope_end(ops, pc + 1, level),
        }
    }
}

/// Where an `if` whose condition is zero goes on: after the `Else` of its
/// own, or at the `EndScope` of its own where it has no `Else`. `level`
/// counts the `if` scopes that were opened on the way.
pub open spec fn spec_skip_then(ops: Seq<OpView>, pc: int, level: nat) -> int
    decreases ops.len() - pc,
{
    if pc < 0 || pc >= ops.len() {
        ops.len() as int
    } else {
        match ops[pc] {
            OpView::StartScope(_, ScopeType::IfElse) => spec_skip_then(ops, pc + 1, level + 1),
            OpView::Else => if level == 0 {
                pc + 1
            } else {
                spec_skip_then(ops, pc + 1, level)
            },
            OpView::EndScope(ScopeType::IfElse) => if level == 0 {
                pc
            } else {
                spec_skip_then(ops, pc + 1, (level - 1) as nat)
            },
            _ => spec_skip_then(ops, pc + 1, level),
        }
    }
}

/// Where an `Else` that is reached at the end of the first arm goes on: at
/// the `EndScope` of its `if`.
pub open spec fn spec_skip_else(ops: Seq<OpView>, pc: int, level: nat) -> int
    decreases ops.len() - pc,
{
    if pc < 0 || pc >= ops.len() {
        ops.len() as int
    } else {
        match ops[pc] {
            OpView::StartScope(_, ScopeType::IfElse) => spec_skip_else(ops, pc + 1, level + 1),
            OpView::EndScope(ScopeType::IfElse) => if level == 0 {
                pc
            } else {
                spec_skip_else(ops, pc + 1, (level - 1) as nat)
            },
            _ => spec_skip_else(ops, pc + 1, level),
        }
    }
}

/// The frame after a branch of the given depth. The target is the scope
/// `depth` below the innermost. The branch values are popped by the types
/// that the target takes; the scopes above the target are closed, and the
/// target too unless it is a loop; the value stack is cut to the width at
/// which the target was entered, and the branch values are pushed back. A
/// loop goes on after its `StartScope`, a function at the end of its
/// operations, and every other scope after its `EndScope`.
pub open spec fn spec_branch(f: FrameView, depth: nat) -> Result<FrameView, Fault> {
    if depth >= f.control_stack.len() {
        Err(Fault::ControlStackUnderflow)
    } else {
        let index = f.control_stack.len() - 1 - depth;
        let target = f.control_stack[index];
        match spec_pop_values(spec_branch_types(target), f.stack, Seq::empty()) {
            Ok((values, rest)) => Ok(
                FrameView {
                    control_stack: f.control_stack.subrange(
                        0,
                        if target.scope_type == ScopeType::Loop {
                            index + 1
                        } else {
                            index
                        },
                    ),
                    stack: spec_push_values(values, spec_cut(rest, target.stack_width)),
                    pc: (match target.scope_type {
                        ScopeType::Function => f.program.ops.len() as int,
                        ScopeType::Loop => match spec_scope_start(
                            f.program.ops,
                            f.pc as int,
                            depth,
                            0,
                        ) {
                            Some(pc) => pc,
                            None => f.pc as int,
                        },
                        _ => spec_scope_end(f.program.ops, f.pc as int, depth),
                    }) as usize,
                    ..f
                },
            ),
            Err(e) => Err(e),
        }
    }
}

/// A scan for the end of a scope ends within the operations.
pub proof fn lemma_scope_end_bounds(ops: Seq<OpView>, pc: int, level: nat)
    requires
        0 <= pc <= ops.len(),
    ensures
        pc <= spec_scope_end(ops, pc, level) <= ops.len(),
        pc <= spec_skip_then(ops, pc, level) <= ops.len(),
        pc <= spec_skip_else(ops, pc, level) <= ops.len(),
    decreases ops.len() - pc,
{
    if pc < ops.len() {
        lemma_scope_end_bounds(ops, pc + 1, level);
        lemma_scope_end_bounds(ops, pc + 1, level + 1);
        if level > 0 {
            lemma_scope_end_bounds(ops, pc + 1, (level - 1) as nat);
        }
    }
}

/// A scan for the start of a scope ends within the operations before it.
pub proof fn lemma_scope_start_bounds(ops: Seq<OpView>, pc: int, skip: nat, level: nat)
    ensures
        spec_scope_start(ops, pc, skip, level) matches Some(p) ==> 0 < p <= pc <= ops.len(),
    decreases pc,
{
    if 0 < pc <= ops.len() {
        lemma_scope_start_bounds(ops, pc - 1, skip, level);
        lemma_scope_start_bounds(ops, pc - 1, skip, level + 1);
        if level > 0 {
            lemma_scope_start_bounds(ops, pc - 1, skip, (level - 1) as nat);
        }
        if skip > 0 {
            lemma_scope_start_bounds(ops, pc - 1, (skip - 1) as nat, 0);
        }
    }
}

fn scope_start(ops: &Vec<Op>, pc: usize, skip: usize) -> (r: Option<usize>)
    requires
        pc <= ops.len(),
    ensures
        match spec_scope_start(views(ops@), pc as int, skip as nat, 0) {
            Some(p) => r == Some(p as usize) && p <= pc,
            None => r == None::<usize>,
        },
{
    let mut i: usize = pc;
    let mut remaining: usize = skip;
    let mut level: usize = 0;
    while i > 0
        invariant
            i <= pc <= ops.len(),
            level <= pc - i,
            spec_scope_start(views(ops@), pc as int, skip as nat, 0) == spec_scope_start(
                views(ops@),
                i as int,
                remaining as nat,
                level as nat,
            ),
        decreases i,
    {
        assert(views(ops@)[i - 1] == ops@[i - 1]@);
        match &ops[i - 1] {
            Op::EndScope(_) => {
                level = level + 1;
            },
            Op::StartScope(_, _) => {
                if level > 0 {
                    level = level - 1;
                } else if remaining > 0 {
                    remaining = remaining - 1;
                } else {
                    return Some(i);
                }
            },
            _ => {},
        }
        i = i - 1;
    }
    None
}

fn scope_end(ops: &Vec<Op>, pc: usize, level: usize) -> (r: usize)
    requires
        pc <= ops.len(),
    ensures
        r == spec_scope_end(views(ops@), pc as int, level as nat),
        pc <= r <= ops.len(),
{
    let mut i: usize = pc;
    let mut open: u128 = level as u128;
    proof {
        lemma_scope_end_bounds(views(ops@), pc as int, level as nat);
    }
    while i < ops.len()
        invariant
            pc <= i <= ops.len(),
            open <= level + (i - pc),
            spec_scope_end(views(ops@), pc as int, level as nat) == spec_scope_end(
                views(ops@),
                i as int,
                open as nat,
            ),
        decreases ops.len() - i,
    {
        assert(views(ops@)[i as int] == ops@[i as int]@);
        match &ops[i] {
            Op::StartScope(_, _) => {
                open = open + 1;
            },
            Op::EndScope(_) => {
                if open == 0 {
                    return i + 1;
                }
                open = open - 1;
            },
            _ => {},
        }
        i = i + 1;
    }
    i
}

fn skip_then(ops: &Vec<Op>, pc: usize) -> (r: usize)
    requires
        pc <= ops.len(),
    ensures
        r == spec_skip_then(views(ops@), pc as int, 0),
        pc <= r <= ops.len(),
{
    let mut i: usize = pc;
    let mut level: usize = 0;
    proof {
        lemma_scope_end_bounds(views(ops@), pc as int, 0);
    }
    while i < ops.len()
        invariant
            pc <= i <= ops.len(),
            level <= i - pc,
            spec_skip_then(views(ops@), pc as int, 0) == spec_skip_then(
                views(ops@),
                i as int,
                level as nat,
            ),
        decreases ops.len() - i,
    {
        assert(views(ops@)[i as int] == ops@[i as int]@);
        match &ops[i] {
            Op::StartScope(_, ScopeType::IfElse) => {
                level = level + 1;
            },
            Op::Else => {
                if level == 0 {
                    return i + 1;
                }
            },
            Op::EndScope(ScopeType::IfElse) => {
                if level == 0 {
                    return i;
                }
                level = level - 1;
            },
            _ => {},
        }
        i = i + 1;
    }
    i
}

fn skip_else(ops: &Vec<Op>, pc: usize) -> (r: usize)
    requires
        pc <= ops.len(),
    ensures
        r == spec_skip_else(views(ops@), pc as int, 0),
        pc <= r <= ops.len(),
{
    let mut i: usize = pc;
    let mut level: usize = 0;
    proof {
        lemma_scope_end_bounds(views(ops@), pc as int, 0);
    }
    while i < ops.len()
        invariant
            pc <= i <= ops.len(),
            level <= i - pc,
            spec_skip_else(views(ops@), pc as int, 0) == spec_skip_else(
                views(ops@),
                i as int,
                level as nat,
            ),
        decreases ops.len() - i,
    {
        assert(views(ops@)[i as int] == ops@[i as int]@);
        match &ops[i] {
            Op::StartScope(_, ScopeType::IfElse) => {
                level = level + 1;
            },
            Op::EndScope(ScopeType::IfElse) => {
                if level == 0 {
                    return i;
                }
                level = level - 1;
            },
            _ => {},
        }
        i = i + 1;
    }
    i
}

/// Branches to the scope `depth` below the innermost.
pub fn execute_branch(frame: &mut Frame, depth: usize) -> (r: Result<(), Fault>)
    requires
        old(frame).pc <= old(frame).program.ops.len(),
    ensures
        match spec_branch(old(frame)@, depth as nat) {
            Ok(f) => r == Ok::<(), Fault>(()) && final(frame)@ == f
                && f.pc <= f.program.ops.len(),
            Err(e) => r == Err::<(), Fault>(e),
        },
{
    if depth >= frame.control_stack.len() {
        return Err(Fault::ControlStackUnderflow);
    }
    let index = frame.control_stack.len() - 1 - depth;
    assert(views(frame.control_stack@)[index as int] == frame.control_stack@[index as int]@);
    proof {
        lemma_scope_start_bounds(views(frame.program.ops@), frame.pc as int, depth as nat, 0);
    }
    let target_scope_type = frame.control_stack[index].scope_type;
    let target_stack_width = frame.control_stack[index].stack_width;
    let branch_values = match target_scope_type {
        ScopeType::Loop => match &frame.control_stack[index].signature {
            Type::ValueType(_) => {
                let none: Vec<Value> = Vec::new();
                assert(none@ =~= Seq::empty());
                none
            },
            Type::FunctionType(ft) => {
                let types = copy_value_types(&ft.params);
                pop_values(&types, &mut frame.stack)?
            },
        },
        _ => match &frame.control_stack[index].signature {
            Type::ValueType(vt) => {
                let mut types: Vec<ValueType> = Vec::new();
                match vt {
                    ValueType::Unit => {},
                    _ => {
                        types.push(*vt);
                    },
                }
                assert(types@ =~= spec_result_types(frame.control_stack[index as int].signature@));
                pop_values(&types, &mut frame.stack)?
            },
            Type::FunctionType(ft) => {
                let types = copy_value_types(&ft.results);
                pop_values(&types, &mut frame.stack)?
            },
        },
    };
    let keep = match target_scope_type {
        ScopeType::Loop => index + 1,
        _ => index,
    };
    frame.control_stack.truncate(keep);
    assert(views(frame.control_stack@) =~= views(old(frame).control_stack@).subrange(
        0,
        keep as int,
    ));
    frame.stack.shrink_to(target_stack_width);
    push_values(&branch_values, &mut frame.stack);
    match target_scope_type {
        ScopeType::Function => {
            frame.pc = frame.program.ops.len();
        },
        ScopeType::Loop => {
            match scope_start(&frame.program.ops, frame.pc, depth) {
                Some(pc) => {
                    frame.pc = pc;
                },
                None => {},
            }
        },
        _ => {
            frame.pc = scope_end(&frame.program.ops, frame.pc, depth);
        },
    }
    Ok(())
}

/// The access of a load: its immediate and the number of bytes it reads.
pub open spec fn spec_load_shape(op: OpView) -> Option<(MemArg, nat)> {
    match op {
        OpView::LoadI32(m) => Some((m, 4)),
        OpView::LoadI64(m) => Some((m, 8)),
        OpView::LoadF32(m) => Some((m, 4)),
        OpView::LoadF64(m) => Some((m, 8)),
        OpView::Load8SE(m) => Some((m, 1)),
        OpView::Load8Ze(m) => Some((m, 1)),
        OpView::Load16Se(m) => Some((m, 2)),
        OpView::Load16Ze(m) => Some((m, 2)),
        OpView::Load8I64Se(m) => Some((m, 1)),
        OpView::Load8I64Ze(m) => Some((m, 1)),
        OpView::Load16I64Se(m) => Some((m, 2)),
        OpView::Load16I64Ze(m) => Some((m, 2)),
        OpView::Load32I64Se(m) => Some((m, 4)),
        OpView::Load32I64Ze(m) => Some((m, 4)),
        _ => None,
    }
}

/// The cell that a load makes of the number that it read: sign-extended
/// or zero-extended to the type that the operation names.
pub open spec fn spec_loaded_cell(op: OpView, raw: u64) -> u64 {
    match op {
        OpView::LoadI32(_) => cell_i32((raw as u32) as i32),
        OpView::Load8SE(_) => cell_i32(((raw as u8) as i8) as i32),
        OpView::Load16Se(_) => cell_i32(((raw as u16) as i16) as i32),
        OpView::Load8I64Se(_) => (((raw as u8) as i8) as i64) as u64,
        OpView::Load16I64Se(_) => (((raw as u16) as i16) as i64) as u64,
        OpView::Load32I64Se(_) => (((raw as u32) as i32) as i64) as u64,
        _ => raw,
    }
}

/// The access of a store: its immediate and the number of bytes it
/// writes, which are the low bytes of the value.
pub open spec fn spec_store_shape(op: OpView) -> Option<(MemArg, nat)> {
    match op {
        OpView::StoreI32(m) => Some((m, 4)),
        OpView::StoreI64(m) => Some((m, 8)),
        OpView::StoreF32(m) => Some((m, 4)),
        OpView::StoreF64(m) => Some((m, 8)),
        OpView::Store8_32(m) => Some((m, 1)),
        OpView::Store16_32(m) => Some((m, 2)),
        OpView::Store8_64(m) => Some((m, 1)),
        OpView::Store16_64(m) => Some((m, 2)),
        OpView::Store32_64(m) => Some((m, 4)),
        _ => None,
    }
}

fn load_shape(op: &Op) -> (r: Option<(MemArg, usize)>)
    ensures
        match spec_load_shape(op@) {
            Some((m, n)) => r == Some((m, n as usize)) && n <= 8,
            None => r == None::<(MemArg, usize)>,
        },
{
    match op {
        Op::LoadI32(m) => Some((*m, 4)),
        Op::LoadI64(m) => Some((*m, 8)),
        Op::LoadF32(m) => Some((*m, 4)),
        Op::LoadF64(m) => Some((*m, 8)),
        Op::Load8SE(m) => Some((*m, 1)),
        Op::Load8Ze(m) => Some((*m, 1)),
        Op::Load16Se(m) => Some((*m, 2)),
        Op::Load16Ze(m) => Some((*m, 2)),
        Op::Load8I64Se(m) => Some((*m, 1)),
        Op::Load8I64Ze(m) => Some((*m, 1)),
        Op::Load16I64Se(m) => Some((*m, 2)),
        Op::Load16I64Ze(m) => Some((*m, 2)),
        Op::Load32I64Se(m) => Some((*m, 4)),
        Op::Load32I64Ze(m) => Some((*m, 4)),
        _ => None,
    }
}

fn loaded_cell(op: &Op, raw: u64) -> (r: u64)
    ensures
        r == spec_loaded_cell(op@, raw),
{
    match op {
        Op::LoadI32(_) => cell_i32((raw as u32) as i32),
        Op::Load8SE(_) => cell_i32(((raw as u8) as i8) as i32),
        Op::Load16Se(_) => cell_i32(((raw as u16) as i16) as i32),
        Op::Load8I64Se(_) => (((raw as u8) as i8) as i64) as u64,
        Op::Load16I64Se(_) => (((raw as u16) as i16) as i64) as u64,
        Op::Load32I64Se(_) => (((raw as u32) as i32) as i64) as u64,
        _ => raw,
    }
}

fn store_shape(op: &Op) -> (r: Option<(MemArg, usize)>)
    ensures
        match spec_store_shape(op@) {
            Some((m, n)) => r == Some((m, n as usize)) && n <= 8,
            None => r == None::<(MemArg, usize)>,
        },
{
    match op {
        Op::StoreI32(m) => Some((*m, 4)),
        Op::StoreI64(m) => Some((*m, 8)),
        Op::StoreF32(m) => Some((*m, 4)),
        Op::StoreF64(m) => Some((*m, 8)),
        Op::Store8_32(m) => Some((*m, 1)),
        Op::Store16_32(m) => Some((*m, 2)),
        Op::Store8_64(m) => Some((*m, 1)),
        Op::Store16_64(m) => Some((*m, 2)),
        Op::Store32_64(m) => Some((*m, 4)),
        _ => None,
    }
}

/// The effective address of an access: the base, which is the low 32 bits
/// of its cell, zero-extended, plus the offset of the immediate.
pub open spec fn spec_address(base: u64, memarg: MemArg) -> int {
    memarg.offset + (base as u32)
}

/// Pops the base of an access and gives its effective address, where that
/// fits the machine.
pub fn adjust_memarg(stack: &mut crate::stack::Stack, memarg: &MemArg) -> (r: Result<
    Option<usize>,
    Fault,
>)
    ensures
        if old(stack)@.len() == 0 {
            r == Err::<Option<usize>, Fault>(Fault::StackUnderflow)
        } else {
            &&& final(stack)@ == old(stack)@.drop_last()
            &&& r == Ok::<Option<usize>, Fault>(
                if spec_address(old(stack)@.last(), *memarg) <= usize::MAX {
                    Some(spec_address(old(stack)@.last(), *memarg) as usize)
                } else {
                    None
                },
            )
        },
{
    let base_addr = stack.pop_u32()? as usize;
    Ok(memarg.offset.checked_add(base_addr))
}

/// The machine with another frame.
pub open spec fn with_frame(s: Machine, frame: FrameView) -> Machine {
    Machine { frame, ..s }
}

/// The machine with other cells on the value stack.
pub open spec fn with_stack(s: Machine, stack: Seq<u64>) -> Machine {
    Machine { frame: FrameView { stack, ..s.frame }, ..s }
}

/// The largest number of pages that a memory may have.
pub const MAX_PAGES: usize = 0x1_0000;

/// The sizes that a memory can be resized to.
pub open spec fn growable_set<M: Memory>(memory: M) -> Set<nat> {
    Set::new(|n: nat| memory.growable_to(n))
}

/// What `memory.grow` makes of the delta in `cell`: a negative delta
/// leaves -1; else the memory grows by that many pages and the number of
/// pages before is left, or -1 where the memory would pass 65,536 pages or
/// the size of the machine, would be no whole number of pages, or cannot
/// grow so far.
pub open spec fn spec_memory_grow(growable: Set<nat>, s: Machine, cell: u64, rest: Seq<u64>) -> Machine {
    let delta = i32_of(cell);
    let new_size = s.memory.len() + delta * WASM_PAGE_SIZE;
    if delta >= 0 && new_size % 65536 == 0 && new_size <= MAX_PAGES * WASM_PAGE_SIZE && new_size
        <= usize::MAX && growable.contains(new_size as nat) {
        Machine {
            memory: spec_resized(s.memory, new_size as nat),
            ..with_stack(s, rest.push(cell_i32(((s.memory.len() / (WASM_PAGE_SIZE as nat)) as usize) as i32)))
        }
    } else {
        with_stack(s, rest.push(cell_i32(-1i32)))
    }
}

/// What an indirect call comes to, with the index into the table in
/// `cell`: an index outside the table, or an element that is no function
/// reference or names no function, is an undefined element; a null
/// element is an uninitialized element; and the type of the function must
/// be the declared one.
pub open spec fn spec_call_indirect(
    types: Seq<FuncTypeView>,
    functions: Seq<usize>,
    s: Machine,
    type_idx: u32,
    table_idx: u32,
    cell: u64,
) -> Step {
    let index = cell as u32;
    if table_idx >= s.tables.len() {
        Step::Trap(Fault::UndefinedElement)
    } else if index >= s.tables[table_idx as int].elements.len() {
        Step::Trap(Fault::UndefinedElement)
    } else {
        match s.tables[table_idx as int].elements[index as int] {
            None => Step::Trap(Fault::UninitializedElement),
            Some(Value::FuncRef(None)) => Step::Trap(Fault::UninitializedElement),
            Some(Value::FuncRef(Some(func))) => if func >= functions.len() {
                Step::Trap(Fault::UndefinedElement)
            } else if functions[func as int] >= types.len() || type_idx >= types.len() {
                Step::Trap(Fault::UnresolvableTypeIndex(type_idx))
            } else if types[type_idx as int] != types[functions[func as int] as int] {
                Step::Trap(Fault::IndirectCallTypeMismatch)
            } else {
                Step::Done(s, Continuation::Call(func))
            },
            _ => Step::Trap(Fault::UndefinedElement),
        }
    }
}

/// What an operation of control, of variables, of tables or of memory
/// size comes to. The program counter of `s` stands after the operation.
pub open spec fn spec_step_other(
    growable: Set<nat>,
    types: Seq<FuncTypeView>,
    functions: Seq<usize>,
    s: Machine,
    op: OpView,
) -> Step {
    let f = s.frame;
    let st = f.stack;
    let ops = f.program.ops;
    match op {
        OpView::StartScope(sig, scope_type) => match spec_resolve_type(types, sig) {
            Ok(signature) => Step::Next(
                with_frame(
                    s,
                    FrameView {
                        control_stack: f.control_stack.push(
                            ControlView { signature, scope_type, stack_width: st.len() as usize },
                        ),
                        ..f
                    },
                ),
            ),
            Err(e) => Step::Trap(e),
        },
        OpView::EndScope(scope_type) => if scope_type == ScopeType::Program {
            Step::Done(s, Continuation::DoneReturn)
        } else if f.control_stack.len() == 0 {
            Step::Trap(Fault::ControlStackUnderflow)
        } else {
            match spec_pop_values(
                spec_result_types(f.control_stack.last().signature),
                st,
                Seq::empty(),
            ) {
                Ok((values, rest)) => Step::Next(
                    with_frame(
                        s,
                        FrameView {
                            control_stack: f.control_stack.drop_last(),
                            stack: spec_push_values(
                                values,
                                spec_cut(rest, f.control_stack.last().stack_width),
                            ),
                            ..f
                        },
                    ),
                ),
                Err(e) => Step::Trap(e),
            }
        },
        OpView::If => if st.len() == 0 {
            Step::Trap(Fault::StackUnderflow)
        } else {
            Step::Next(
                with_frame(
                    s,
                    FrameView {
                        stack: st.drop_last(),
                        pc: if st.last() as u32 == 0 {
                            spec_skip_then(ops, f.pc as int, 0) as usize
                        } else {
                            f.pc
                        },
                        ..f
                    },
                ),
            )
        },
        OpView::Else => Step::Next(
            with_frame(s, FrameView { pc: spec_skip_else(ops, f.pc as int, 0) as usize, ..f }),
        ),
        OpView::Br(depth) => match spec_branch(f, depth as nat) {
            Ok(g) => Step::Next(with_frame(s, g)),
            Err(e) => Step::Trap(e),
        },
        OpView::BrIf(depth) => if st.len() == 0 {
            Step::Trap(Fault::StackUnderflow)
        } else if st.last() as u32 != 0 {
            match spec_branch(FrameView { stack: st.drop_last(), ..f }, depth as nat) {
                Ok(g) => Step::Next(with_frame(s, g)),
                Err(e) => Step::Trap(e),
            }
        } else {
            Step::Next(with_stack(s, st.drop_last()))
        },
        OpView::BrTable(table, default) => if st.len() == 0 {
            Step::Trap(Fault::StackUnderflow)
        } else {
            match spec_branch(
                FrameView { stack: st.drop_last(), ..f },
                (if (st.last() as u32) < table.len() {
                    table[(st.last() as u32) as int]
                } else {
                    default
                }) as nat,
            ) {
                Ok(g) => Step::Next(with_frame(s, g)),
                Err(e) => Step::Trap(e),
            }
        },
        OpView::Return => Step::Done(s, Continuation::DoneReturn),
        OpView::Call(c) => Step::Done(s, Continuation::Call(c)),
        OpView::CallIndirect(type_idx, table_idx) => if st.len() == 0 {
            Step::Trap(Fault::StackUnderflow)
        } else {
            spec_call_indirect(
                types,
                functions,
                with_stack(s, st.drop_last()),
                type_idx,
                table_idx,
                st.last(),
            )
        },
        OpView::Drop => if st.len() == 0 {
            Step::Trap(Fault::StackUnderflow)
        } else {
            Step::Next(with_stack(s, st.drop_last()))
        },
        OpView::Select | OpView::SelectT(_) => if st.len() < 3 {
            Step::Trap(Fault::StackUnderflow)
        } else {
            Step::Next(
                with_stack(
                    s,
                    st.subrange(0, st.len() - 3).push(
                        if i32_of(st[st.len() - 1]) != 0 {
                            st[st.len() - 3]
                        } else {
                            st[st.len() - 2]
                        },
                    ),
                ),
            )
        },
        OpView::GetLocal(idx) => if idx < f.locals.len() {
            Step::Next(with_stack(s, spec_push_value(f.locals[idx as int], st)))
        } else {
            Step::Trap(Fault::LocalIndexOutOfBounds)
        },
        OpView::SetLocal(idx) => match crate::frame::spec_set_local(f, idx, true) {
            Ok(g) => Step::Next(with_frame(s, g)),
            Err(e) => Step::Trap(e),
        },
        OpView::TeeLocal(idx) => match crate::frame::spec_set_local(f, idx, false) {
            Ok(g) => Step::Next(with_frame(s, g)),
            Err(e) => Step::Trap(e),
        },
        OpView::GetGlobal(g) => if g < s.globals.len() {
            Step::Next(with_stack(s, spec_push_value(s.globals[g as int].value, st)))
        } else {
            Step::Trap(Fault::GlobalIndexOutOfBounds)
        },
        // Only a mutable global can be set: one that is not counts as not
        // there, and keeps its value.
        OpView::SetGlobal(g) => if g < s.globals.len() && s.globals[g as int].decl.mutable {
            match spec_pop_value(s.globals[g as int].decl.ty, st) {
                Ok((value, rest)) => Step::Next(
                    Machine {
                        globals: s.globals.update(
                            g as int,
                            GlobalVar { decl: s.globals[g as int].decl, value },
                        ),
                        ..with_stack(s, rest)
                    },
                ),
                Err(e) => Step::Trap(e),
            }
        } else {
            Step::Trap(Fault::GlobalIndexOutOfBounds)
        },
        OpView::TableGet(t) => if st.len() == 0 {
            Step::Trap(Fault::StackUnderflow)
        } else if t >= s.tables.len() {
            Step::Trap(Fault::GlobalIndexOutOfBounds)
        } else if st.last() as u32 >= s.tables[t as int].elements.len() {
            Step::Trap(Fault::MemoryOutOfBounds)
        } else {
            Step::Next(
                with_stack(
                    s,
                    match s.tables[t as int].elements[(st.last() as u32) as int] {
                        Some(value) => spec_push_value(value, st.drop_last()),
                        None => st.drop_last().push(cell_ref(None)),
                    },
                ),
            )
        },
        OpView::TableSet(t) => if st.len() == 0 {
            Step::Trap(Fault::StackUnderflow)
        } else if t >= s.tables.len() {
            Step::Trap(Fault::GlobalIndexOutOfBounds)
        } else if st.last() as u32 >= s.tables[t as int].elements.len() {
            Step::Trap(Fault::MemoryOutOfBounds)
        } else if st.len() < 2 {
            Step::Trap(Fault::StackUnderflow)
        } else {
            Step::Next(
                Machine {
                    tables: s.tables.update(
                        t as int,
                        TableView {
                            elements: s.tables[t as int].elements.update(
                                (st.last() as u32) as int,
                                Some(
                                    if s.tables[t as int].ref_type == ReferenceType::FuncRef {
                                        Value::FuncRef(ref_of(st[st.len() - 2]))
                                    } else {
                                        Value::ExternRef(ref_of(st[st.len() - 2]))
                                    },
                                ),
                            ),
                            ..s.tables[t as int]
                        },
                    ),
                    ..with_stack(s, st.subrange(0, st.len() - 2))
                },
            )
        },
        OpView::I32Const(v) => Step::Next(with_stack(s, st.push(cell_i32(v)))),
        OpView::I64Const(v) => Step::Next(with_stack(s, st.push(v as u64))),
        OpView::F32Const(v) => Step::Next(with_stack(s, st.push(v as u64))),
        OpView::F64Const(v) => Step::Next(with_stack(s, st.push(v))),
        OpView::MemorySize => Step::Next(
            with_stack(
                s,
                st.push((((s.memory.len() / (WASM_PAGE_SIZE as nat)) as usize) as u32) as u64),
            ),
        ),
        OpView::MemoryGrow => if st.len() == 0 {
            Step::Trap(Fault::StackUnderflow)
        } else {
            Step::Next(spec_memory_grow(growable, s, st.last(), st.drop_last()))
        },
        OpView::RefNull(t) => if t == ValueType::FuncRef || t == ValueType::ExternRef {
            Step::Next(with_stack(s, st.push(cell_ref(None))))
        } else {
            Step::Trap(Fault::InvalidRefType)
        },
        OpView::RefFunc(index) => Step::Next(with_stack(s, st.push(cell_ref(Some(index))))),
        _ => Step::Next(s),
    }
}

/// What the operation under the program counter comes to. The program
/// counter moves on first. An operation on the stack alone pops its
/// operands and pushes its result; a floating-point operation that is left
/// to the host pops its operands and hands them over; a load pops its base
/// and pushes what it read; a store pops its value and its base.
pub open spec fn spec_step(
    growable: Set<nat>,
    types: Seq<FuncTypeView>,
    functions: Seq<usize>,
    s: Machine,
) -> Step {
    let op = s.frame.program.ops[s.frame.pc as int];
    let s = with_frame(s, FrameView { pc: (s.frame.pc + 1) as usize, ..s.frame });
    let st = s.frame.stack;
    if spec_is_unary(op) {
        if st.len() == 0 {
            Step::Trap(Fault::StackUnderflow)
        } else {
            match spec_unary(op, st.last())->Some_0 {
                Ok(c) => Step::Next(with_stack(s, st.drop_last().push(c))),
                Err(e) => Step::Trap(e),
            }
        }
    } else if spec_is_binary(op) {
        if st.len() < 2 {
            Step::Trap(Fault::StackUnderflow)
        } else {
            match spec_binary(op, st[st.len() - 2], st.last())->Some_0 {
                Ok(c) => Step::Next(with_stack(s, st.subrange(0, st.len() - 2).push(c))),
                Err(e) => Step::Trap(e),
            }
        }
    } else if spec_host_float(op) is Some {
        let (float_op, two) = spec_host_float(op)->Some_0;
        if two {
            if st.len() < 2 {
                Step::Trap(Fault::StackUnderflow)
            } else {
                Step::Done(
                    with_stack(s, st.subrange(0, st.len() - 2)),
                    Continuation::Float(
                        FloatRequest { op: float_op, a: st[st.len() - 2], b: st.last() },
                    ),
                )
            }
        } else {
            if st.len() == 0 {
                Step::Trap(Fault::StackUnderflow)
            } else {
                Step::Done(
                    with_stack(s, st.drop_last()),
                    Continuation::Float(FloatRequest { op: float_op, a: st.last(), b: 0 }),
                )
            }
        }
    } else if spec_load_shape(op) is Some {
        let (memarg, width) = spec_load_shape(op)->Some_0;
        if st.len() == 0 {
            Step::Trap(Fault::StackUnderflow)
        } else {
            match spec_read(s.memory, spec_address(st.last(), memarg), width) {
                Ok(raw) => Step::Next(
                    with_stack(s, st.drop_last().push(spec_loaded_cell(op, raw as u64))),
                ),
                Err(e) => Step::Trap(e),
            }
        }
    } else if spec_store_shape(op) is Some {
        let (memarg, width) = spec_store_shape(op)->Some_0;
        if st.len() < 2 {
            Step::Trap(Fault::StackUnderflow)
        } else if spec_address(st[st.len() - 2], memarg) + width > s.memory.len() {
            Step::Trap(Fault::MemoryOutOfBounds)
        } else {
            Step::Next(
                Machine {
                    memory: spec_written(
                        s.memory,
                        spec_address(st[st.len() - 2], memarg),
                        width,
                        st.last() as nat,
                    ),
                    ..with_stack(s, st.subrange(0, st.len() - 2))
                },
            )
        }
    } else {
        spec_step_other(growable, types, functions, s, op)
    }
}

/// That `r` and the state after are what `expected` says.
pub open spec fn stepped(
    expected: Step,
    r: Result<Option<Continuation>, Fault>,
    after: Machine,
) -> bool {
    match expected {
        Step::Next(m) => r == Ok::<Option<Continuation>, Fault>(None) && after == m,
        Step::Done(m, c) => r == Ok::<Option<Continuation>, Fault>(Some(c)) && after == m,
        Step::Trap(f) => r == Err::<Option<Continuation>, Fault>(f),
    }
}

/// The machine that a frame, a memory, globals and tables make up.
pub open spec fn machine_of<M: Memory>(
    frame: Frame,
    memory: M,
    globals: Seq<GlobalVar>,
    tables: Seq<TableInstance>,
) -> Machine {
    Machine { frame: frame@, memory: memory.bytes(), globals, tables: views(tables) }
}

/// Whether an operation opens or closes a scope, branches, returns or
/// calls a function by its index.
pub open spec fn spec_is_control(op: OpView) -> bool {
    op is StartScope || op is EndScope || op is If || op is Else || op is Br || op is BrIf
        || op is BrTable || op is Return || op is Call
}

/// Whether an operation works on the frame alone and is none of control
/// nor one that the tables of operations on the stack list.
pub open spec fn spec_is_plain(op: OpView) -> bool {
    !spec_is_control(op) && !(op is CallIndirect) && !(op is GetGlobal) && !(op is SetGlobal)
        && !(op is TableGet) && !(op is TableSet) && !(op is MemorySize) && !(op is MemoryGrow)
}

/// Executes an operation of control.
fn step_control(
    frame: &mut Frame,
    types: &[FuncType],
    op: Op,
    Ghost(growable): Ghost<Set<nat>>,
    Ghost(functions): Ghost<Seq<usize>>,
    Ghost(s): Ghost<Machine>,
) -> (r: Result<Option<Continuation>, Fault>)
    requires
        old(frame).pc <= old(frame).program.ops.len(),
        s.frame == old(frame)@,
        spec_is_control(op@),
    ensures
        stepped(
            spec_step_other(growable, views(types@), functions, s, op@),
            r,
            with_frame(s, final(frame)@),
        ),
        r is Ok ==> final(frame).pc <= final(frame).program.ops.len(),
{
    proof {
        lemma_scope_end_bounds(views(frame.program.ops@), frame.pc as int, 0);
    }
    match op {
        Op::StartScope(sig, scope_type) => {
            let resolved_type = resolve_type(types, sig)?;
            frame.push_control(resolved_type, scope_type);
        },
        Op::EndScope(c) => {
            match c {
                ScopeType::Program => {
                    return Ok(Some(Continuation::DoneReturn));
                },
                _ => {},
            }
            let (end_scope, result_values) = frame.pop_control()?;
            frame.stack.shrink_to(end_scope.stack_width);
            push_values(&result_values, &mut frame.stack);
        },
        Op::If => {
            let condition = frame.stack.pop_u32()?;
            if condition == 0 {
                frame.pc = skip_then(&frame.program.ops, frame.pc);
            }
        },
        Op::Else => {
            frame.pc = skip_else(&frame.program.ops, frame.pc);
        },
        Op::Br(depth) => {
            execute_branch(frame, depth as usize)?;
        },
        Op::BrIf(depth) => {
            let condition = frame.stack.pop_u32()?;
            if condition != 0 {
                execute_branch(frame, depth as usize)?;
            }
        },
        Op::BrTable(table, default) => {
            let index = frame.stack.pop_u32()? as usize;
            let depth = if index < table.len() {
                table[index]
            } else {
                default
            };
            execute_branch(frame, depth as usize)?;
        },
        Op::Return => {
            return Ok(Some(Continuation::DoneReturn));
        },
        Op::Call(c) => {
            return Ok(Some(Continuation::Call(c)));
        },
        _ => {},
    }
    Ok(None)
}

/// Looks up the function of an indirect call.
fn call_indirect(
    frame: &mut Frame,
    tables: &Vec<TableInstance>,
    types: &[FuncType],
    functions: &[usize],
    type_idx: u32,
    table_idx: u32,
    Ghost(s): Ghost<Machine>,
) -> (r: Result<Option<Continuation>, Fault>)
    requires
        s.frame == old(frame)@,
        s.tables == views(tables@),
    ensures
        stepped(
            if s.frame.stack.len() == 0 {
                Step::Trap(Fault::StackUnderflow)
            } else {
                spec_call_indirect(
                    views(types@),
                    functions@,
                    with_stack(s, s.frame.stack.drop_last()),
                    type_idx,
                    table_idx,
                    s.frame.stack.last(),
                )
            },
            r,
            with_frame(s, final(frame)@),
        ),
        r is Ok ==> final(frame)@.pc == old(frame)@.pc && final(frame)@.program == old(
            frame,
        )@.program,
{
    let table_index = frame.stack.pop_u32()?;
    if table_idx as usize >= tables.len() {
        return Err(Fault::UndefinedElement);
    }
    assert(views(tables@)[table_idx as int] == tables@[table_idx as int]@);
    let table = &tables[table_idx as usize];
    if table_index as usize >= table.elements.len() {
        return Err(Fault::UndefinedElement);
    }
    match table.elements[table_index as usize] {
        None => {
            return Err(Fault::UninitializedElement);
        },
        Some(Value::FuncRef(Some(func_index))) => {
            if func_index as usize >= functions.len() {
                return Err(Fault::UndefinedElement);
            }
            let func_type_idx = functions[func_index as usize];
            if func_type_idx >= types.len() || type_idx as usize >= types.len() {
                return Err(Fault::UnresolvableTypeIndex(type_idx));
            }
            assert(views(types@)[type_idx as int] == types@[type_idx as int]@);
            assert(views(types@)[func_type_idx as int] == types@[func_type_idx as int]@);
            if !same_func_type(&types[type_idx as usize], &types[func_type_idx]) {
                return Err(Fault::IndirectCallTypeMismatch);
            }
            return Ok(Some(Continuation::Call(func_index)));
        },
        Some(Value::FuncRef(None)) => {
            return Err(Fault::UninitializedElement);
        },
        _ => {
            return Err(Fault::UndefinedElement);
        },
    }
}

/// Reads or writes a global.
fn step_global(
    frame: &mut Frame,
    globals: &mut Vec<GlobalVar>,
    op: Op,
    Ghost(growable): Ghost<Set<nat>>,
    Ghost(types): Ghost<Seq<FuncTypeView>>,
    Ghost(functions): Ghost<Seq<usize>>,
    Ghost(s): Ghost<Machine>,
) -> (r: Result<Option<Continuation>, Fault>)
    requires
        s.frame == old(frame)@,
        s.globals == old(globals)@,
        op@ is GetGlobal || op@ is SetGlobal,
    ensures
        stepped(
            spec_step_other(growable, types, functions, s, op@),
            r,
            Machine { globals: final(globals)@, ..with_frame(s, final(frame)@) },
        ),
        r is Ok ==> final(frame)@.pc == old(frame)@.pc && final(frame)@.program == old(
            frame,
        )@.program,
{
    match op {
        Op::GetGlobal(g) => {
            if g as usize >= globals.len() {
                return Err(Fault::GlobalIndexOutOfBounds);
            }
            let value = globals[g as usize].value;
            value.push_to(&mut frame.stack);
        },
        Op::SetGlobal(g) => {
            if g as usize >= globals.len() || !globals[g as usize].decl.mutable {
                return Err(Fault::GlobalIndexOutOfBounds);
            }
            let decl = globals[g as usize].decl;
            let value = Value::pop_from(decl.ty, &mut frame.stack)?;
            globals.set(g as usize, GlobalVar { decl, value });
        },
        _ => {},
    }
    Ok(None)
}

/// Reads or writes an element of a table.
fn step_table(
    frame: &mut Frame,
    tables: &mut Vec<TableInstance>,
    op: Op,
    Ghost(growable): Ghost<Set<nat>>,
    Ghost(types): Ghost<Seq<FuncTypeView>>,
    Ghost(functions): Ghost<Seq<usize>>,
    Ghost(s): Ghost<Machine>,
) -> (r: Result<Option<Continuation>, Fault>)
    requires
        s.frame == old(frame)@,
        s.tables == views(old(tables)@),
        op@ is TableGet || op@ is TableSet,
    ensures
        stepped(
            spec_step_other(growable, types, functions, s, op@),
            r,
            Machine { tables: views(final(tables)@), ..with_frame(s, final(frame)@) },
        ),
        r is Ok ==> final(frame)@.pc == old(frame)@.pc && final(frame)@.program == old(
            frame,
        )@.program,
{
    let ghost st = frame.stack@;
    match op {
        Op::TableGet(table_idx) => {
            let idx = frame.stack.pop_u32()?;
            if table_idx as usize >= tables.len() {
                return Err(Fault::GlobalIndexOutOfBounds);
            }
            assert(views(tables@)[table_idx as int] == tables@[table_idx as int]@);
            let table = &tables[table_idx as usize];
            if idx as usize >= table.elements.len() {
                return Err(Fault::MemoryOutOfBounds);
            }
            match table.elements[idx as usize] {
                Some(value) => value.push_to(&mut frame.stack),
                None => frame.stack.push_ref(None),
            }
        },
        Op::TableSet(table_idx) => {
            let idx = frame.stack.pop_u32()?;
            if table_idx as usize >= tables.len() {
                return Err(Fault::GlobalIndexOutOfBounds);
            }
            assert(views(tables@)[table_idx as int] == tables@[table_idx as int]@);
            if idx as usize >= tables[table_idx as usize].elements.len() {
                return Err(Fault::MemoryOutOfBounds);
            }
            let ref_val = frame.stack.pop_ref()?;
            let value = match tables[table_idx as usize].ref_type {
                ReferenceType::FuncRef => Value::FuncRef(ref_val),
                ReferenceType::ExternRef => Value::ExternRef(ref_val),
            };
            let ghost old_tables = tables@;
            tables[table_idx as usize].elements.set(idx as usize, Some(value));
            assert(frame.stack@ =~= st.subrange(0, st.len() - 2));
            assert(views(tables@) =~= views(old_tables).update(
                table_idx as int,
                TableView {
                    elements: old_tables[table_idx as int].elements@.update(
                        idx as int,
                        Some(value),
                    ),
                    ..old_tables[table_idx as int]@
                },
            ));
        },
        _ => {},
    }
    Ok(None)
}

/// Executes an operation on the frame alone that is none of control.
fn step_plain(
    frame: &mut Frame,
    op: Op,
    Ghost(growable): Ghost<Set<nat>>,
    Ghost(types): Ghost<Seq<FuncTypeView>>,
    Ghost(functions): Ghost<Seq<usize>>,
    Ghost(s): Ghost<Machine>,
) -> (r: Result<Option<Continuation>, Fault>)
    requires
        s.frame == old(frame)@,
        spec_is_plain(op@),
    ensures
        stepped(spec_step_other(growable, types, functions, s, op@), r, with_frame(s, final(frame)@)),
        r is Ok ==> final(frame)@.pc == old(frame)@.pc && final(frame)@.program == old(
            frame,
        )@.program,
{
    let ghost st = frame.stack@;
    match op {
        Op::Drop => {
            frame.stack.pop_u64()?;
        },
        Op::Select | Op::SelectT(_) => {
            let condition = frame.stack.pop_i32()?;
            let val2 = frame.stack.pop_u64()?;
            let val1 = frame.stack.pop_u64()?;
            if condition != 0 {
                frame.stack.push_u64(val1);
            } else {
                frame.stack.push_u64(val2);
            }
            assert(frame.stack@ =~= st.subrange(0, st.len() - 3).push(
                if i32_of(st[st.len() - 1]) != 0 {
                    st[st.len() - 3]
                } else {
                    st[st.len() - 2]
                },
            ));
        },
        Op::GetLocal(idx) => {
            frame.push_local_to_stack(idx)?;
        },
        Op::SetLocal(idx) => {
            frame.set_local_from_stack(idx, true)?;
        },
        Op::TeeLocal(idx) => {
            frame.set_local_from_stack(idx, false)?;
        },
        Op::I32Const(v) => {
            frame.stack.push_i32(v);
        },
        Op::I64Const(v) => {
            frame.stack.push_i64(v);
        },
        Op::F32Const(v) => {
            frame.stack.push_u32(v);
        },
        Op::F64Const(v) => {
            frame.stack.push_u64(v);
        },
        Op::RefNull(ref_type) => match ref_type {
            ValueType::FuncRef | ValueType::ExternRef => {
                frame.stack.push_ref(None);
            },
            _ => {
                return Err(Fault::InvalidRefType);
            },
        },
        Op::RefFunc(func_index) => {
            frame.stack.push_ref(Some(func_index));
        },
        _ => {},
    }
    Ok(None)
}

/// Executes an operation of control, of variables, of tables or of memory
/// size, after the program counter has moved on.
fn step_other<M: Memory>(
    frame: &mut Frame,
    memory: &mut M,
    globals: &mut Vec<GlobalVar>,
    tables: &mut Vec<TableInstance>,
    types: &[FuncType],
    functions: &[usize],
    op: Op,
) -> (r: Result<Option<Continuation>, Fault>)
    requires
        old(frame).pc <= old(frame).program.ops.len(),
    ensures
        stepped(
            spec_step_other(
                growable_set(*old(memory)),
                views(types@),
                functions@,
                machine_of(*old(frame), *old(memory), old(globals)@, old(tables)@),
                op@,
            ),
            r,
            machine_of(*final(frame), *final(memory), final(globals)@, final(tables)@),
        ),
        forall|n: nat| final(memory).growable_to(n) == old(memory).growable_to(n),
        r is Ok ==> final(frame).pc <= final(frame).program.ops.len(),
        old(memory).bytes().len() % 65536 == 0 ==> final(memory).bytes().len() % 65536 == 0,
{
    let ghost s = machine_of(*frame, *memory, globals@, tables@);
    let ghost growable = growable_set(*memory);
    match op {
        Op::StartScope(_, _) | Op::EndScope(_) | Op::If | Op::Else | Op::Br(_) | Op::BrIf(_)
        | Op::BrTable(_, _) | Op::Return | Op::Call(_) => step_control(
            frame,
            types,
            op,
            Ghost(growable),
            Ghost(functions@),
            Ghost(s),
        ),
        Op::CallIndirect(type_idx, table_idx) => call_indirect(
            frame,
            tables,
            types,
            functions,
            type_idx,
            table_idx,
            Ghost(s),
        ),
        Op::GetGlobal(_) | Op::SetGlobal(_) => step_global(
            frame,
            globals,
            op,
            Ghost(growable),
            Ghost(views(types@)),
            Ghost(functions@),
            Ghost(s),
        ),
        Op::TableGet(_) | Op::TableSet(_) => step_table(
            frame,
            tables,
            op,
            Ghost(growable),
            Ghost(views(types@)),
            Ghost(functions@),
            Ghost(s),
        ),
        Op::MemorySize => {
            let size_in_bytes = memory.size();
            let size_in_pages = size_in_bytes / WASM_PAGE_SIZE;
            frame.stack.push_u32(size_in_pages as u32);
            Ok(None)
        },
        Op::MemoryGrow => {
            let delta = frame.stack.pop_i32()?;
            let grown = grow_memory(memory, delta);
            frame.stack.push_i32(grown);
            Ok(None)
        },
        _ => step_plain(
            frame,
            op,
            Ghost(growable),
            Ghost(views(types@)),
            Ghost(functions@),
            Ghost(s),
        ),
    }
}

/// Grows the memory by `delta` pages and gives the number of pages
/// before, or -1.
fn grow_memory<M: Memory>(memory: &mut M, delta: i32) -> (r: i32)
    ensures
        forall|n: nat| final(memory).growable_to(n) == old(memory).growable_to(n),
        ({
            let new_size = old(memory).bytes().len() + delta * WASM_PAGE_SIZE;
            if delta >= 0 && new_size % 65536 == 0 && new_size <= MAX_PAGES * WASM_PAGE_SIZE
                && new_size <= usize::MAX && old(memory).growable_to(new_size as nat) {
                &&& final(memory).bytes() == spec_resized(old(memory).bytes(), new_size as nat)
                &&& r == ((old(memory).bytes().len() / (WASM_PAGE_SIZE as nat)) as usize) as i32
            } else {
                &&& final(memory).bytes() == old(memory).bytes()
                &&& r == -1
            }
        }),
{
    if delta < 0 {
        return -1;
    }
    let current_size = memory.size();
    let old_page_count = current_size / WASM_PAGE_SIZE;
    let growth: u64 = (delta as u64) * (WASM_PAGE_SIZE as u64);
    let new_size: u64 = match (current_size as u64).checked_add(growth) {
        Some(n) => n,
        None => {
            return -1;
        },
    };
    if new_size > (MAX_PAGES as u64) * (WASM_PAGE_SIZE as u64) || new_size > usize::MAX as u64 {
        return -1;
    }
    match memory.grow(new_size as usize) {
        Ok(_) => old_page_count as i32,
        Err(_) => -1,
    }
}

/// Executes the operation under the program counter.
pub fn step<M: Memory>(
    frame: &mut Frame,
    memory: &mut M,
    globals: &mut Vec<GlobalVar>,
    tables: &mut Vec<TableInstance>,
    types: &[FuncType],
    functions: &[usize],
) -> (r: Result<Option<Continuation>, Fault>)
    requires
        old(frame).pc < old(frame).program.ops.len(),
    ensures
        stepped(
            spec_step(
                growable_set(*old(memory)),
                views(types@),
                functions@,
                machine_of(*old(frame), *old(memory), old(globals)@, old(tables)@),
            ),
            r,
            machine_of(*final(frame), *final(memory), final(globals)@, final(tables)@),
        ),
        forall|n: nat| final(memory).growable_to(n) == old(memory).growable_to(n),
        r is Ok ==> final(frame).pc <= final(frame).program.ops.len(),
        old(memory).bytes().len() % 65536 == 0 ==> final(memory).bytes().len() % 65536 == 0,
{
    assert(views(frame.program.ops@)[frame.pc as int] == frame.program.ops@[frame.pc as int]@);
    let op = frame.program.ops[frame.pc].duplicate();
    frame.pc = frame.pc + 1;
    let ghost st = frame.stack@;
    proof {
        lemma_arity(op@, 0, 0);
    }
    if unary(&op, 0).is_some() {
        let a = frame.stack.pop_u64()?;
        proof {
            lemma_arity(op@, a, 0);
        }
        return match unary(&op, a) {
            Some(Ok(c)) => {
                frame.stack.push_u64(c);
                Ok(None)
            },
            Some(Err(e)) => Err(e),
            None => Ok(None),
        };
    }
    if binary(&op, 0, 0).is_some() {
        let b = frame.stack.pop_u64()?;
        let a = frame.stack.pop_u64()?;
        proof {
            lemma_arity(op@, a, b);
        }
        return match binary(&op, a, b) {
            Some(Ok(c)) => {
                frame.stack.push_u64(c);
                assert(frame.stack@ =~= st.subrange(0, st.len() - 2).push(c));
                Ok(None)
            },
            Some(Err(e)) => Err(e),
            None => Ok(None),
        };
    }
    match host_float(&op) {
        Some((float_op, two)) => {
            let (a, b) = if two {
                let b = frame.stack.pop_u64()?;
                let a = frame.stack.pop_u64()?;
                assert(frame.stack@ =~= st.subrange(0, st.len() - 2));
                (a, b)
            } else {
                (frame.stack.pop_u64()?, 0)
            };
            return Ok(Some(Continuation::Float(FloatRequest { op: float_op, a, b })));
        },
        None => {},
    }
    match load_shape(&op) {
        Some((memarg, width)) => {
            let size = memory.size();
            let raw = match adjust_memarg(&mut frame.stack, &memarg)? {
                Some(address) => read_le(memory.data(), address, width)?,
                None => {
                    return Err(Fault::MemoryOutOfBounds);
                },
            };
            frame.stack.push_u64(loaded_cell(&op, raw));
            return Ok(None);
        },
        None => {},
    }
    match store_shape(&op) {
        Some((memarg, width)) => {
            let size = memory.size();
            let value = frame.stack.pop_u64()?;
            match adjust_memarg(&mut frame.stack, &memarg)? {
                Some(address) => {
                    proof {
                        if address + width <= memory.bytes().len() {
                            lemma_written(
                                memory.bytes(),
                                address as int,
                                width as nat,
                                value as nat,
                            );
                        }
                    }
                    write_le(memory.data_mut(), address, width, value)?;
                },
                None => {
                    return Err(Fault::MemoryOutOfBounds);
                },
            }
            assert(frame.stack@ =~= st.subrange(0, st.len() - 2));
            return Ok(None);
        },
        None => {},
    }
    step_other(frame, memory, globals, tables, types, functions, op)
}

/// After a branch of depth `depth`, the control stack has lost the `depth`
/// scopes above the target, and the target too unless it is a loop; and
/// where the value stack was no narrower than the target at its entry with
/// the branch values on top, it is exactly that wide afterwards.
pub proof fn lemma_branch_shape(f: FrameView, depth: nat)
    requires
        spec_branch(f, depth) is Ok,
    ensures
        ({
            let g = spec_branch(f, depth)->Ok_0;
            let target = f.control_stack[f.control_stack.len() - 1 - depth];
            let carried = spec_cells(spec_branch_types(target));
            &&& depth < f.control_stack.len()
            &&& g.control_stack.len() == f.control_stack.len() - depth - (if target.scope_type
                == ScopeType::Loop {
                0int
            } else {
                1int
            })
            &&& f.stack.len() >= target.stack_width + carried ==> g.stack.len()
                == target.stack_width + carried
        }),
{
    let target = f.control_stack[f.control_stack.len() - 1 - depth];
    lemma_pop_values_cells(spec_branch_types(target), f.stack, Seq::empty());
    match spec_pop_values(spec_branch_types(target), f.stack, Seq::empty()) {
        Ok((values, rest)) => {
            lemma_push_values_cells(values, spec_cut(rest, target.stack_width));
        },
        Err(_) => {},
    }
}

/// A branch leaves the cells under the width at which its target was
/// entered as they are, and puts the branch values on top: the values that
/// stood on top before, read by the types that the target takes, in their
/// order. Read by those types again they are the same values, unless one
/// of them is a reference to the index 2^32 - 1.
pub proof fn lemma_branch_values(f: FrameView, depth: nat)
    requires
        spec_branch(f, depth) is Ok,
    ensures
        ({
            let g = spec_branch(f, depth)->Ok_0;
            let target = f.control_stack[f.control_stack.len() - 1 - depth];
            let types = spec_branch_types(target);
            let width = target.stack_width as int;
            let values = spec_pop_values(types, f.stack, Seq::empty())->Ok_0.0;
            f.stack.len() >= width + spec_cells(types) ==> {
                &&& g.stack == spec_push_values(values, f.stack.subrange(0, width))
                &&& g.stack.subrange(0, width) == f.stack.subrange(0, width)
                &&& (forall|i: int| 0 <= i < values.len() ==> spec_whole(#[trigger] values[i]))
                    ==> spec_pop_values(types, g.stack, Seq::empty()) == Ok::<
                    (Seq<Value>, Seq<u64>),
                    Fault,
                >((values, f.stack.subrange(0, width)))
            }
        }),
{
    let target = f.control_stack[f.control_stack.len() - 1 - depth];
    let types = spec_branch_types(target);
    let width = target.stack_width as int;
    lemma_pop_values_cells(types, f.stack, Seq::empty());
    lemma_pop_values_types(types, f.stack, Seq::empty());
    match spec_pop_values(types, f.stack, Seq::empty()) {
        Ok((values, rest)) => {
            if f.stack.len() >= width + spec_cells(types) {
                let below = f.stack.subrange(0, width);
                assert(spec_cut(rest, target.stack_width) =~= below);
                lemma_push_values_cells(values, below);
                assert(values.subrange(0, types.len() as int) =~= values);
                if forall|i: int| 0 <= i < values.len() ==> spec_whole(#[trigger] values[i]) {
                    lemma_push_pop_values(values, below, Seq::empty());
                    assert(values + Seq::<Value>::empty() =~= values);
                }
            }
        },
        Err(_) => {},
    }
}

/// The number of cells that an operation pops before anything else can
/// fail, for the operations of which the operation alone decides it.
pub open spec fn spec_pops(op: OpView) -> Option<nat> {
    if spec_is_unary(op) {
        Some(1)
    } else if spec_is_binary(op) {
        Some(2)
    } else if spec_host_float(op) is Some {
        Some(
            if spec_host_float(op)->Some_0.1 {
                2
            } else {
                1
            },
        )
    } else if spec_load_shape(op) is Some {
        Some(1)
    } else if spec_store_shape(op) is Some {
        Some(2)
    } else {
        match op {
            OpView::Drop | OpView::If | OpView::CallIndirect(_, _) | OpView::TableGet(_)
            | OpView::MemoryGrow | OpView::BrIf(_) | OpView::BrTable(_, _) => Some(1),
            OpView::Select | OpView::SelectT(_) => Some(3),
            OpView::Nop | OpView::Unreachable | OpView::I32Const(_) | OpView::I64Const(_)
            | OpView::F32Const(_) | OpView::F64Const(_) | OpView::MemorySize | OpView::RefNull(_)
            | OpView::RefFunc(_) | OpView::GetLocal(_) | OpView::GetGlobal(_) | OpView::Return
            | OpView::Call(_) | OpView::Else | OpView::StartScope(_, _) => Some(0),
            _ => None,
        }
    }
}

/// An operation that finds the cells that it pops on the stack does not
/// underflow, whatever else it does; and one that does not find them
/// underflows, unless it branches, in which case it may find the control
/// stack too short before.
pub proof fn lemma_enough_cells(
    growable: Set<nat>,
    types: Seq<FuncTypeView>,
    functions: Seq<usize>,
    s: Machine,
)
    requires
        spec_pops(s.frame.program.ops[s.frame.pc as int]) is Some,
    ensures
        ({
            let op = s.frame.program.ops[s.frame.pc as int];
            let needed = spec_pops(op)->Some_0;
            let step = spec_step(growable, types, functions, s);
            &&& s.frame.stack.len() < needed ==> step == Step::Trap(Fault::StackUnderflow)
            &&& s.frame.stack.len() >= needed && !(op is BrIf) && !(op is BrTable) ==> step
                != Step::Trap(Fault::StackUnderflow)
        }),
{
    let op = s.frame.program.ops[s.frame.pc as int];
    lemma_arity(op, 0, 0);
    if s.frame.stack.len() > 0 {
        lemma_arity(op, s.frame.stack.last(), 0);
    }
    if s.frame.stack.len() > 1 {
        lemma_arity(op, s.frame.stack[s.frame.stack.len() - 2], s.frame.stack.last());
        lemma_no_underflow(op, s.frame.stack[s.frame.stack.len() - 2], s.frame.stack.last());
    }
    if s.frame.stack.len() > 0 {
        lemma_no_underflow(op, s.frame.stack.last(), s.frame.stack.last());
    }
}

/// No operation on the stack alone makes an underflow of its operands.
pub proof fn lemma_no_underflow(op: OpView, a: u64, b: u64)
    ensures
        spec_unary(op, b) != Some(Err::<u64, Fault>(Fault::StackUnderflow)),
        spec_binary(op, a, b) != Some(Err::<u64, Fault>(Fault::StackUnderflow)),
{
}

/// What an operation leaves as it was: the program; the number of the
/// globals and their declarations; the value of every global that is not
/// mutable; and the size of the memory as a whole number of pages, where
/// it was one. The memory has its size of before, or one of at most 65,536
/// pages that it can be resized to.
pub open spec fn spec_kept(growable: Set<nat>, s: Machine, t: Machine) -> bool {
    &&& t.frame.program == s.frame.program
    &&& t.globals.len() == s.globals.len()
    &&& forall|g: int|
        0 <= g < s.globals.len() ==> (#[trigger] t.globals[g]).decl == s.globals[g].decl
    &&& forall|g: int|
        0 <= g < s.globals.len() && !s.globals[g].decl.mutable ==> #[trigger] t.globals[g]
            == s.globals[g]
    &&& s.memory.len() % 65536 == 0 ==> t.memory.len() % 65536 == 0
    &&& t.memory.len() == s.memory.len() || (growable.contains(t.memory.len())
        && t.memory.len() <= MAX_PAGES * WASM_PAGE_SIZE)
}

/// Every operation that does not fault keeps what [`spec_kept`] lists.
#[verifier::rlimit(60)]
#[verifier::spinoff_prover]
pub proof fn lemma_step_keeps(
    growable: Set<nat>,
    types: Seq<FuncTypeView>,
    functions: Seq<usize>,
    s: Machine,
)
    ensures
        match spec_step(growable, types, functions, s) {
            Step::Next(t) => spec_kept(growable, s, t),
            Step::Done(t, _) => spec_kept(growable, s, t),
            Step::Trap(_) => true,
        },
{
    let op = s.frame.program.ops[s.frame.pc as int];
    let st = s.frame.stack;
    let ops = s.frame.program.ops;
    if spec_store_shape(op) is Some && st.len() >= 2 {
        let (memarg, width) = spec_store_shape(op)->Some_0;
        let address = spec_address(st[st.len() - 2], memarg);
        if address + width <= s.memory.len() {
            lemma_written(s.memory, address, width, st.last() as nat);
        }
    }
}

/// After every operation that does not fault, the program counter stands
/// within the operations or at their end.
pub proof fn lemma_step_pc(
    growable: Set<nat>,
    types: Seq<FuncTypeView>,
    functions: Seq<usize>,
    s: Machine,
)
    requires
        s.frame.pc < s.frame.program.ops.len() <= usize::MAX,
    ensures
        match spec_step(growable, types, functions, s) {
            Step::Next(t) => t.frame.pc <= t.frame.program.ops.len(),
            Step::Done(t, _) => t.frame.pc <= t.frame.program.ops.len(),
            Step::Trap(_) => true,
        },
{
    let op = s.frame.program.ops[s.frame.pc as int];
    let st = s.frame.stack;
    let f = FrameView { pc: (s.frame.pc + 1) as usize, ..s.frame };
    lemma_scope_end_bounds(s.frame.program.ops, f.pc as int, 0);
    match op {
        OpView::Br(depth) => lemma_branch_pc(f, depth as nat),
        OpView::BrIf(depth) => if st.len() > 0 {
            lemma_branch_pc(FrameView { stack: st.drop_last(), ..f }, depth as nat);
        },
        OpView::BrTable(table, default) => if st.len() > 0 {
            lemma_branch_pc(
                FrameView { stack: st.drop_last(), ..f },
                (if (st.last() as u32) < table.len() {
                    table[(st.last() as u32) as int]
                } else {
                    default
                }) as nat,
            );
        },
        _ => {},
    }
}

/// A branch leaves the program counter within the operations or at their
/// end.
pub proof fn lemma_branch_pc(f: FrameView, depth: nat)
    requires
        f.pc <= f.program.ops.len() <= usize::MAX,
    ensures
        spec_branch(f, depth) matches Ok(g) ==> g.pc <= g.program.ops.len() && g.program
            == f.program,
{
    lemma_scope_end_bounds(f.program.ops, f.pc as int, depth);
    lemma_scope_start_bounds(f.program.ops, f.pc as int, depth, 0);
}

} // verus!
