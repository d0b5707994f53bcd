//! Instances: a module with its function bodies decoded and its memories,
//! tables and globals materialised.
use crate::decode::{decode, spec_decode, DecodeError, Malformed, Program, ProgramView, ScopeType};
use crate::exec::{
    execute, spec_execute, spec_pop_value, spec_run, Continuation, ExecError, Execution,
    ExecutionOptions, ExecutionView, Fault, GlobalVar, Value, DEFAULT_STACK_DEPTH_LIMIT,
    DEFAULT_TICK_LIMIT, EXPR_TICK_LIMIT,
};
use crate::frame::{ControlView, Frame, FrameView};
use crate::machine::{growable_set, Machine};
use crate::memory::vector_mem::VectorMemoryView;
use crate::memory::{Memory, SliceMemory, VectorMemory};
use crate::module::{
    Data, ElementMode, Elements, ExportEntryView, Import, ImportEntryView, ImportExportKind,
    MemorySection, Module, ModuleView, ReferenceType, Region, Table,
};
use crate::op::copy_value_types;
use crate::stack::Stack;
use crate::{views, FuncType, Type, TypeView, ValueType};
use vstd::prelude::*;

verus! {

/// The size of a page of memory.
pub const WASM_PAGE_SIZE: usize = 0x1_0000;

/// A table: its elements, null where `None`, and its declaration.
#[derive(Debug)]
pub struct TableInstance {
    pub elements: Vec<Option<Value>>,
    pub ref_type: ReferenceType,
    pub limits: (u32, Option<u32>),
}

/// The mathematical content of a [`TableInstance`].
pub struct TableView {
    pub elements: Seq<Option<Value>>,
    pub ref_type: ReferenceType,
    pub limits: (u32, Option<u32>),
}

impl View for TableInstance {
    type V = TableView;

    open spec fn view(&self) -> TableView {
        TableView { elements: self.elements@, ref_type: self.ref_type, limits: self.limits }
    }
}

impl Clone for TableInstance {
    fn clone(&self) -> (r: Self)
        ensures
            r@ == self@,
    {
        let mut elements: Vec<Option<Value>> = Vec::new();
        let mut i: usize = 0;
        while i < self.elements.len()
            invariant
                i <= self.elements.len(),
                elements@ == self.elements@.subrange(0, i as int),
            decreases self.elements.len() - i,
        {
            elements.push(self.elements[i]);
            i = i + 1;
            assert(elements@ =~= self.elements@.subrange(0, i as int));
        }
        assert(self.elements@.subrange(0, self.elements.len() as int) =~= self.elements@);
        TableInstance { elements, ref_type: self.ref_type, limits: self.limits }
    }
}

/// A feature that a module asks for and the interpreter lacks.
#[derive(Debug, Clone, Copy, PartialEq, Eq, Structural)]
pub enum Unsupported {
    /// More memories than one.
    MultipleMemories,
    /// A call of an imported function.
    ImportedFunctions,
}

/// Why a module could not be instantiated or a call not be set up.
#[derive(Debug, Clone, Copy, PartialEq, Eq, Structural)]
pub enum LinkError {
    ActiveExpressionError(Fault),
    DecodeError(DecodeError),
    FunctionNotFound,
    UnsupportedFeature(Unsupported),
    ArgumentTypeMismatch(usize, ValueType, ValueType),
    MissingMemory,
}

/// A module that is ready to run.
pub struct Instance {
    pub module: Module,
    pub memories: Vec<VectorMemory>,
    pub globals: Vec<GlobalVar>,
    pub programs: Vec<Program>,
    pub tables: Vec<TableInstance>,
}

/// The mathematical content of an [`Instance`].
pub struct InstanceView {
    pub module: ModuleView,
    pub memories: Seq<crate::memory::vector_mem::VectorMemoryView>,
    pub globals: Seq<GlobalVar>,
    pub programs: Seq<ProgramView>,
    pub tables: Seq<TableView>,
}

impl View for Instance {
    type V = InstanceView;

    open spec fn view(&self) -> InstanceView {
        InstanceView {
            module: self.module@,
            memories: views(self.memories@),
            globals: self.globals@,
            programs: views(self.programs@),
            tables: views(self.tables@),
        }
    }
}

/// The frame in which a constant expression is evaluated: no locals, an
/// empty stack, and no open scope.
pub open spec fn spec_fragment_frame(ops: Seq<crate::op::OpView>, return_type: ValueType) -> FrameView {
    FrameView {
        locals: Seq::empty(),
        return_types: seq![return_type],
        program: ProgramView { ops, local_types: Seq::empty(), return_types: Seq::empty() },
        stack: Seq::empty(),
        pc: 0,
        control_stack: Seq::empty(),
    }
}

/// The value of a constant expression of the given type. The expression
/// runs in a frame of its own, with a scratch memory of one page that
/// cannot grow, no globals, no tables, and a limit of 1,024 ticks; it must
/// run to its end, and the value is then popped from the stack.
pub open spec fn spec_exec_fragment(program: Seq<u8>, return_type: ValueType) -> Result<
    Value,
    LinkError,
> {
    match spec_decode(program) {
        Ok(ops) => {
            let e = spec_execute(
                Set::empty(),
                Seq::empty(),
                Seq::empty(),
                Machine {
                    frame: spec_fragment_frame(ops, return_type),
                    memory: Seq::new(WASM_PAGE_SIZE as nat, |i: int| 0u8),
                    globals: Seq::empty(),
                    tables: Seq::empty(),
                },
                0,
                EXPR_TICK_LIMIT as nat,
            );
            match e.2 {
                Ok(Continuation::ProgramEnd) => match spec_pop_value(return_type, e.0.frame.stack) {
                    Ok((v, _)) => Ok(v),
                    Err(f) => Err(LinkError::ActiveExpressionError(f)),
                },
                Ok(c) => Err(LinkError::ActiveExpressionError(Fault::UnexpectedResult(c))),
                Err(f) => Err(LinkError::ActiveExpressionError(f)),
            }
        },
        Err(e) => Err(LinkError::DecodeError(e)),
    }
}

/// Evaluates a constant expression, such as the initial value of a global
/// or the offset of a segment.
pub fn exec_fragment(program: &[u8], return_type: ValueType) -> (r: Result<Value, LinkError>)
    ensures
        r == spec_exec_fragment(program@, return_type),
{
    let const_program = match decode(program) {
        Ok(p) => p,
        Err(e) => {
            return Err(LinkError::DecodeError(e));
        },
    };
    let mut return_types: Vec<ValueType> = Vec::new();
    return_types.push(return_type);
    let mut frame = Frame {
        locals: Vec::new(),
        program: const_program,
        stack: Stack::new(),
        pc: 0,
        control_stack: Vec::new(),
        return_types,
    };
    let mut scratch: Vec<u8> = Vec::new();
    scratch.resize(WASM_PAGE_SIZE, 0);
    let mut memory = SliceMemory::new(scratch.as_mut_slice());
    let mut globals: Vec<GlobalVar> = Vec::new();
    let mut tables: Vec<TableInstance> = Vec::new();
    let types: Vec<FuncType> = Vec::new();
    let functions: Vec<usize> = Vec::new();
    let mut ticks: usize = 0;
    proof {
        assert(frame@.locals =~= Seq::empty());
        assert(frame@.return_types =~= seq![return_type]);
        assert(frame@.control_stack =~= Seq::empty());
        assert(frame@ == spec_fragment_frame(frame@.program.ops, return_type));
        assert(memory.bytes() =~= Seq::new(WASM_PAGE_SIZE as nat, |i: int| 0u8));
        assert(growable_set(memory) =~= Set::empty());
        assert(views(tables@) =~= Seq::empty());
        assert(views(types@) =~= Seq::empty());
        assert(globals@ =~= Seq::empty());
        assert(functions@ =~= Seq::empty());
    }
    let result = match execute(
        &mut frame,
        &mut memory,
        &mut globals,
        &mut tables,
        &mut ticks,
        EXPR_TICK_LIMIT,
        types.as_slice(),
        functions.as_slice(),
    ) {
        Ok(c) => c,
        Err(f) => {
            return Err(LinkError::ActiveExpressionError(f));
        },
    };
    match result {
        Continuation::ProgramEnd => {},
        _ => {
            return Err(LinkError::ActiveExpressionError(Fault::UnexpectedResult(result)));
        },
    }
    match Value::pop_from(return_type, &mut frame.stack) {
        Ok(v) => Ok(v),
        Err(f) => Err(LinkError::ActiveExpressionError(f)),
    }
}

/// The number of functions among the first `n` imports.
pub open spec fn spec_imported_functions(imports: Seq<ImportEntryView>, n: nat) -> nat
    decreases n,
{
    if n == 0 || n > imports.len() {
        0
    } else {
        spec_imported_functions(imports, (n - 1) as nat) + (if imports[n - 1].2 is Func {
            1nat
        } else {
            0nat
        })
    }
}

/// The index of the first export from `i` on that is a function of the
/// given name.
pub open spec fn spec_find_export(exports: Seq<ExportEntryView>, name: Seq<char>, i: nat) -> Option<
    u32,
>
    decreases exports.len() - i,
{
    if i >= exports.len() {
        None
    } else if exports[i as int].name == name && exports[i as int].kind
        == ImportExportKind::Function {
        Some(exports[i as int].index)
    } else {
        spec_find_export(exports, name, i + 1)
    }
}

/// The signature of the scope of a function body: its first result type,
/// or unit where it has none.
pub open spec fn spec_function_signature(return_types: Seq<ValueType>) -> TypeView {
    if return_types.len() == 0 {
        TypeView::ValueType(ValueType::Unit)
    } else {
        TypeView::ValueType(return_types[0])
    }
}

/// The index among the arguments and parameters from `i` on of the first
/// argument that is not of the type of its parameter.
pub open spec fn spec_mismatch(params: Seq<ValueType>, args: Seq<Value>, i: nat) -> Option<nat>
    decreases params.len() - i,
{
    if i >= params.len() || i >= args.len() {
        None
    } else if params[i as int] != args[i as int].type_of() {
        Some(i)
    } else {
        spec_mismatch(params, args, i + 1)
    }
}

/// The frame of a call of the function with the given index. Imported
/// functions come first in the index space and cannot be called. The
/// arguments must be of the types of the parameters. The locals are the
/// arguments, then the zero of its type for every local that is left.
pub open spec fn spec_frame_for_funcidx(x: InstanceView, index: u32, args: Seq<Value>) -> Result<
    FrameView,
    LinkError,
> {
    let imported = spec_imported_functions(x.module.imports, x.module.imports.len());
    let local = index - imported;
    if index < imported {
        Err(LinkError::UnsupportedFeature(Unsupported::ImportedFunctions))
    } else if local >= x.programs.len() || local >= x.module.functions.len()
        || x.module.functions[local] >= x.module.types.len() {
        Err(LinkError::FunctionNotFound)
    } else {
        let params = x.module.types[x.module.functions[local] as int].params;
        let program = x.programs[local];
        match spec_mismatch(params, args, 0) {
            Some(i) => Err(
                LinkError::ArgumentTypeMismatch(
                    i as usize,
                    params[i as int],
                    args[i as int].type_of(),
                ),
            ),
            None => Ok(
                FrameView {
                    locals: args + Seq::new(
                        (if program.local_types.len() > args.len() {
                            program.local_types.len() - args.len()
                        } else {
                            0
                        }) as nat,
                        |i: int| Value::zero(program.local_types[args.len() + i]),
                    ),
                    return_types: program.return_types,
                    program,
                    stack: Seq::empty(),
                    pc: 0,
                    control_stack: seq![
                        ControlView {
                            signature: spec_function_signature(program.return_types),
                            scope_type: ScopeType::Function,
                            stack_width: 0,
                        },
                    ],
                },
            ),
        }
    }
}

impl Instance {
    /// The number of imported functions.
    pub fn imported_functions(&self) -> (n: usize)
        ensures
            n == spec_imported_functions(self@.module.imports, self@.module.imports.len()),
    {
        let mut n: usize = 0;
        let mut i: usize = 0;
        while i < self.module.imports.len()
            invariant
                i <= self.module.imports.len(),
                n <= i,
                n == spec_imported_functions(self@.module.imports, i as nat),
            decreases self.module.imports.len() - i,
        {
            match self.module.imports[i].2 {
                Import::Func(_) => {
                    n = n + 1;
                },
                _ => {},
            }
            i = i + 1;
        }
        n
    }

    /// The index of the function that is exported under `name`.
    pub fn find_funcidx(&self, name: &str) -> (r: Option<u32>)
        ensures
            r == spec_find_export(self@.module.exports, name@, 0),
    {
        let wanted = name.to_owned();
        let mut i: usize = 0;
        while i < self.module.exports.len()
            invariant
                i <= self.module.exports.len(),
                wanted@ == name@,
                spec_find_export(self@.module.exports, name@, 0) == spec_find_export(
                    self@.module.exports,
                    name@,
                    i as nat,
                ),
            decreases self.module.exports.len() - i,
        {
            assert(views(self.module.exports@)[i as int] == self.module.exports@[i as int]@);
            let export = &self.module.exports[i];
            if export.name == wanted {
                match export.kind {
                    ImportExportKind::Function => {
                        return Some(export.index);
                    },
                    _ => {},
                }
            }
            i = i + 1;
        }
        None
    }

    /// A frame for a call of the function with the given index.
    #[verifier::loop_isolation(false)]
    pub fn frame_for_funcidx(&self, index: u32, args: &[Value]) -> (r: Result<Frame, LinkError>)
        ensures
            match spec_frame_for_funcidx(self@, index, args@) {
                Ok(f) => r is Ok && r->Ok_0@ == f,
                Err(e) => r is Err && r->Err_0 == e,
            },
    {
        let imported = self.imported_functions();
        if (index as usize) < imported {
            return Err(LinkError::UnsupportedFeature(Unsupported::ImportedFunctions));
        }
        let local = index as usize - imported;
        if local >= self.programs.len() || local >= self.module.functions.len() {
            return Err(LinkError::FunctionNotFound);
        }
        let type_index = self.module.functions[local];
        if type_index >= self.module.types.len() {
            return Err(LinkError::FunctionNotFound);
        }
        assert(views(self.module.types@)[type_index as int] == self.module.types@[type_index as int]@);
        assert(views(self.programs@)[local as int] == self.programs@[local as int]@);
        let params = &self.module.types[type_index].params;
        let mut i: usize = 0;
        while i < params.len() && i < args.len()
            invariant
                i <= params.len(),
                i <= args.len(),
                spec_mismatch(params@, args@, 0) == spec_mismatch(params@, args@, i as nat),
            decreases params.len() - i,
        {
            let actual = args[i].type_of();
            if params[i] != actual {
                return Err(LinkError::ArgumentTypeMismatch(i, params[i], actual));
            }
            i = i + 1;
        }
        let program = &self.programs[local];
        let num_locals = program.local_types.len();
        let mut locals: Vec<Value> = vstd::slice::slice_to_vec(args);
        let mut k: usize = args.len();
        assert(locals@ =~= args@ + Seq::new(0, |j: int| Value::zero(program.local_types@[args.len() + j])));
        while k < num_locals
            invariant
                args.len() <= k,
                num_locals == program.local_types.len(),
                k <= num_locals || k == args.len(),
                locals@ == args@ + Seq::new(
                    (k - args.len()) as nat,
                    |j: int| Value::zero(program.local_types@[args.len() + j]),
                ),
            decreases num_locals - k,
        {
            locals.push(Value::zero(program.local_types[k]));
            k = k + 1;
            assert(locals@ =~= args@ + Seq::new(
                (k - args.len()) as nat,
                |j: int| Value::zero(program.local_types@[args.len() + j]),
            ));
        }
        let return_types = copy_value_types(&program.return_types);
        let mut frame = Frame {
            locals,
            return_types,
            program: program.duplicate(),
            stack: Stack::new(),
            pc: 0,
            control_stack: Vec::new(),
        };
        let func_signature = if frame.return_types.len() == 0 {
            Type::ValueType(ValueType::Unit)
        } else {
            Type::ValueType(frame.return_types[0])
        };
        assert(views(frame.control_stack@) =~= Seq::empty());
        frame.push_control(func_signature, ScopeType::Function);
        assert(frame@.control_stack =~= seq![
            ControlView {
                signature: spec_function_signature(program@.return_types),
                scope_type: ScopeType::Function,
                stack_width: 0,
            },
        ]);
        Ok(frame)
    }

    /// A frame for a call of the function that is exported under `name`.
    pub fn frame_for_funcname(&self, name: &str, args: &[Value]) -> (r: Result<Frame, LinkError>)
        ensures
            match spec_find_export(self@.module.exports, name@, 0) {
                Some(index) => match spec_frame_for_funcidx(self@, index, args@) {
                    Ok(f) => r is Ok && r->Ok_0@ == f,
                    Err(e) => r is Err && r->Err_0 == e,
                },
                None => r is Err && r->Err_0 == LinkError::FunctionNotFound,
            },
    {
        match self.find_funcidx(name) {
            Some(index) => self.frame_for_funcidx(index, args),
            None => Err(LinkError::FunctionNotFound),
        }
    }
}

/// The bytes of the expression in a region of the module: all of the
/// region, which must lie within the module and end before an `end`.
pub open spec fn spec_expr_bytes(m: ModuleView, region: Region) -> Result<Seq<u8>, LinkError> {
    if region.0 <= region.1 < m.module_data.len() && m.module_data[region.1 as int] == 0x0b {
        Ok(m.module_data.subrange(region.0 as int, region.1 as int))
    } else {
        Err(LinkError::DecodeError(DecodeError::MalformedMemory(Malformed::UnexpectedEnd)))
    }
}

/// The value of the constant expression in a region of the module.
pub open spec fn spec_eval(m: ModuleView, region: Region, ty: ValueType) -> Result<Value, LinkError> {
    match spec_expr_bytes(m, region) {
        Ok(bytes) => spec_exec_fragment(bytes, ty),
        Err(e) => Err(e),
    }
}

/// The offset that an `i32` stands for: its 32 bits without a sign.
pub open spec fn spec_offset_of(v: Value) -> usize {
    match v {
        Value::I32(x) => (x as u32) as usize,
        _ => 0,
    }
}

/// The offset that the constant expression in a region of the module
/// gives.
pub open spec fn spec_offset(m: ModuleView, region: Region) -> Result<usize, LinkError> {
    match spec_eval(m, region, ValueType::I32) {
        Ok(v) => Ok(spec_offset_of(v)),
        Err(e) => Err(e),
    }
}

fn eval(module: &Module, region: &Region, ty: ValueType) -> (r: Result<Value, LinkError>)
    ensures
        r == spec_eval(module@, *region, ty),
{
    if region.0 > region.1 || region.1 >= module.module_data.len() || module.module_data[region.1]
        != 0x0b {
        return Err(LinkError::DecodeError(DecodeError::MalformedMemory(Malformed::UnexpectedEnd)));
    }
    exec_fragment(module.get_expr(region), ty)
}

fn eval_offset(module: &Module, region: &Region) -> (r: Result<usize, LinkError>)
    ensures
        r == spec_offset(module@, *region),
{
    match eval(module, region, ValueType::I32)? {
        Value::I32(x) => Ok((x as u32) as usize),
        _ => Ok(0),
    }
}

/// The decoded body of the function `i`: its operations; as local types
/// the parameters of its type and then its declared locals; and as return
/// types the results of its type.
pub open spec fn spec_program(m: ModuleView, i: int) -> Result<ProgramView, LinkError> {
    let region = m.code[i].code;
    if !(region.0 <= region.1 <= m.module_data.len()) {
        Err(LinkError::DecodeError(DecodeError::MalformedMemory(Malformed::UnexpectedEnd)))
    } else {
        match spec_decode(m.module_data.subrange(region.0 as int, region.1 as int)) {
            Ok(ops) => if i >= m.functions.len() {
                Err(LinkError::FunctionNotFound)
            } else if m.functions[i] >= m.types.len() {
                Err(
                    LinkError::ActiveExpressionError(
                        Fault::UnresolvableTypeIndex(m.functions[i] as u32),
                    ),
                )
            } else {
                Ok(
                    ProgramView {
                        ops,
                        local_types: m.types[m.functions[i] as int].params + m.code[i].locals,
                        return_types: m.types[m.functions[i] as int].results,
                    },
                )
            },
            Err(e) => Err(LinkError::DecodeError(e)),
        }
    }
}

/// The decoded bodies of the functions from `i` on, after `acc`.
pub open spec fn spec_programs(m: ModuleView, i: nat, acc: Seq<ProgramView>) -> Result<
    Seq<ProgramView>,
    LinkError,
>
    decreases m.code.len() - i,
{
    if i >= m.code.len() {
        Ok(acc)
    } else {
        match spec_program(m, i as int) {
            Ok(p) => spec_programs(m, i + 1, acc.push(p)),
            Err(e) => Err(e),
        }
    }
}

fn build_program(module: &Module, i: usize) -> (r: Result<Program, LinkError>)
    requires
        i < module.code.len(),
    ensures
        match spec_program(module@, i as int) {
            Ok(p) => r is Ok && r->Ok_0@ == p,
            Err(e) => r is Err && r->Err_0 == e,
        },
{
    assert(views(module.code@)[i as int] == module.code@[i as int]@);
    let region = module.code[i].code;
    if region.0 > region.1 || region.1 > module.module_data.len() {
        return Err(LinkError::DecodeError(DecodeError::MalformedMemory(Malformed::UnexpectedEnd)));
    }
    let mut program = match decode(module.code(i)) {
        Ok(p) => p,
        Err(e) => {
            return Err(LinkError::DecodeError(e));
        },
    };
    if i >= module.functions.len() {
        return Err(LinkError::FunctionNotFound);
    }
    let typeidx = module.functions[i];
    if typeidx >= module.types.len() {
        return Err(LinkError::ActiveExpressionError(Fault::UnresolvableTypeIndex(typeidx as u32)));
    }
    assert(views(module.types@)[typeidx as int] == module.types@[typeidx as int]@);
    let mut local_types = copy_value_types(&module.types[typeidx].params);
    let locals = &module.code[i].locals;
    let mut k: usize = 0;
    let ghost params = local_types@;
    assert(local_types@ =~= params + locals@.subrange(0, 0));
    while k < locals.len()
        invariant
            k <= locals.len(),
            local_types@ == params + locals@.subrange(0, k as int),
        decreases locals.len() - k,
    {
        local_types.push(locals[k]);
        k = k + 1;
        assert(local_types@ =~= params + locals@.subrange(0, k as int));
    }
    assert(locals@.subrange(0, locals.len() as int) =~= locals@);
    program.local_types = local_types;
    program.return_types = copy_value_types(&module.types[typeidx].results);
    Ok(program)
}

fn build_programs(module: &Module) -> (r: Result<Vec<Program>, LinkError>)
    ensures
        match spec_programs(module@, 0, Seq::empty()) {
            Ok(p) => r is Ok && views(r->Ok_0@) == p,
            Err(e) => r is Err && r->Err_0 == e,
        },
{
    let mut programs: Vec<Program> = Vec::new();
    let mut i: usize = 0;
    assert(views(programs@) =~= Seq::empty());
    while i < module.code.len()
        invariant
            i <= module.code.len(),
            spec_programs(module@, 0, Seq::empty()) == spec_programs(
                module@,
                i as nat,
                views(programs@),
            ),
        decreases module.code.len() - i,
    {
        let program = build_program(module, i)?;
        proof {
            crate::lemma_views_push(programs@, program);
        }
        programs.push(program);
        i = i + 1;
    }
    Ok(programs)
}

/// The memory of a declaration: as many zero pages as its minimum says,
/// bounded by its maximum in bytes, or by the size of the machine where
/// that is less.
pub open spec fn spec_memory(decl: MemorySection) -> Result<
    crate::memory::vector_mem::VectorMemoryView,
    LinkError,
> {
    if decl.limits.0 * WASM_PAGE_SIZE > usize::MAX {
        Err(LinkError::ActiveExpressionError(Fault::CannotGrowMemory))
    } else {
        Ok(
            crate::memory::vector_mem::VectorMemoryView {
                bytes: Seq::new((decl.limits.0 * WASM_PAGE_SIZE) as nat, |i: int| 0u8),
                max_bounds: match decl.limits.1 {
                    Some(max) => Some(
                        if max * WASM_PAGE_SIZE > usize::MAX {
                            usize::MAX
                        } else {
                            (max * WASM_PAGE_SIZE) as usize
                        },
                    ),
                    None => None,
                },
            },
        )
    }
}

/// The memories of a module: none, or its one memory.
pub open spec fn spec_memories(m: ModuleView) -> Result<
    Seq<crate::memory::vector_mem::VectorMemoryView>,
    LinkError,
> {
    if m.memories.len() > 1 {
        Err(LinkError::UnsupportedFeature(Unsupported::MultipleMemories))
    } else if m.memories.len() == 0 {
        Ok(Seq::empty())
    } else {
        match spec_memory(m.memories[0]) {
            Ok(memory) => Ok(seq![memory]),
            Err(e) => Err(e),
        }
    }
}

fn build_memories(module: &Module) -> (r: Result<Vec<VectorMemory>, LinkError>)
    ensures
        match spec_memories(module@) {
            Ok(m) => r is Ok && views(r->Ok_0@) == m,
            Err(e) => r is Err && r->Err_0 == e,
        },
{
    let mut memories: Vec<VectorMemory> = Vec::new();
    if module.memories.len() > 1 {
        return Err(LinkError::UnsupportedFeature(Unsupported::MultipleMemories));
    }
    if module.memories.len() == 0 {
        assert(views(memories@) =~= Seq::empty());
        return Ok(memories);
    }
    let limits = module.memories[0].limits;
    let min_size = match (limits.0 as usize).checked_mul(WASM_PAGE_SIZE) {
        Some(n) => n,
        None => {
            return Err(LinkError::ActiveExpressionError(Fault::CannotGrowMemory));
        },
    };
    let max_bounds = match limits.1 {
        Some(max) => match (max as usize).checked_mul(WASM_PAGE_SIZE) {
            Some(n) => Some(n),
            None => Some(usize::MAX),
        },
        None => None,
    };
    let memory = VectorMemory::new(min_size, max_bounds);
    proof {
        crate::lemma_views_push(memories@, memory);
    }
    memories.push(memory);
    assert(views(memories@) =~= seq![memory@]);
    Ok(memories)
}

/// The table of a declaration: as many null elements as its minimum says.
pub open spec fn spec_table_instance(decl: Table) -> TableView {
    TableView {
        elements: Seq::new(decl.limits.0 as nat, |i: int| None::<Value>),
        ref_type: decl.ty,
        limits: decl.limits,
    }
}

fn build_tables(module: &Module) -> (r: Vec<TableInstance>)
    ensures
        views(r@) == Seq::new(
            module@.tables.len(),
            |i: int| spec_table_instance(module@.tables[i]),
        ),
{
    let mut tables: Vec<TableInstance> = Vec::new();
    let mut i: usize = 0;
    assert(views(tables@) =~= Seq::new(0, |i: int| spec_table_instance(module@.tables[i])));
    while i < module.tables.len()
        invariant
            i <= module.tables.len(),
            views(tables@) == Seq::new(i as nat, |k: int| spec_table_instance(module@.tables[k])),
        decreases module.tables.len() - i,
    {
        let decl = module.tables[i];
        let mut elements: Vec<Option<Value>> = Vec::new();
        let mut k: u32 = 0;
        while k < decl.limits.0
            invariant
                k <= decl.limits.0,
                elements@ == Seq::new(k as nat, |j: int| None::<Value>),
            decreases decl.limits.0 - k,
        {
            elements.push(None);
            k = k + 1;
            assert(elements@ =~= Seq::new(k as nat, |j: int| None::<Value>));
        }
        let table = TableInstance { elements, ref_type: decl.ty, limits: decl.limits };
        proof {
            crate::lemma_views_push(tables@, table);
        }
        tables.push(table);
        i = i + 1;
        assert(views(tables@) =~= Seq::new(
            i as nat,
            |k: int| spec_table_instance(module@.tables[k]),
        ));
    }
    tables
}

/// A table with the functions `funcs` from `offset` on, as far as they
/// fit; what lies beyond the table is left out.
pub open spec fn spec_filled(t: TableView, offset: int, funcs: Seq<u32>) -> TableView {
    TableView {
        elements: Seq::new(
            t.elements.len(),
            |k: int|
                if offset <= k < offset + funcs.len() {
                    Some(Value::FuncRef(Some(funcs[k - offset])))
                } else {
                    t.elements[k]
                },
        ),
        ..t
    }
}

/// The tables after the element segments from `i` on: each active segment
/// of function indices whose table exists is written at its offset.
pub open spec fn spec_apply_elements(m: ModuleView, tables: Seq<TableView>, i: nat) -> Result<
    Seq<TableView>,
    LinkError,
>
    decreases m.element_segments.len() - i,
{
    if i >= m.element_segments.len() {
        Ok(tables)
    } else {
        let segment = m.element_segments[i as int];
        match (segment.mode, segment.elements) {
            (
                ElementMode::Active { table_index, expr },
                crate::module::ElementsView::Function(funcs),
            ) => if table_index < tables.len() {
                match spec_offset(m, expr) {
                    Ok(offset) => spec_apply_elements(
                        m,
                        tables.update(
                            table_index as int,
                            spec_filled(tables[table_index as int], offset as int, funcs),
                        ),
                        i + 1,
                    ),
                    Err(e) => Err(e),
                }
            } else {
                spec_apply_elements(m, tables, i + 1)
            },
            _ => spec_apply_elements(m, tables, i + 1),
        }
    }
}

fn fill_table(table: &mut TableInstance, offset: usize, funcs: &Vec<u32>)
    ensures
        final(table)@ == spec_filled(old(table)@, offset as int, funcs@),
{
    let mut j: usize = 0;
    assert(table@.elements =~= spec_filled(old(table)@, offset as int, funcs@.subrange(0, 0)).elements);
    while j < funcs.len()
        invariant
            j <= funcs.len(),
            table@ == spec_filled(old(table)@, offset as int, funcs@.subrange(0, j as int)),
        decreases funcs.len() - j,
    {
        let value = Some(Value::FuncRef(Some(funcs[j])));
        let length = table.elements.len();
        match offset.checked_add(j) {
            Some(at) => {
                if at < length {
                    table.elements.set(at, value);
                }
            },
            None => {},
        }
        j = j + 1;
        assert(table@.elements =~= spec_filled(
            old(table)@,
            offset as int,
            funcs@.subrange(0, j as int),
        ).elements);
    }
    assert(funcs@.subrange(0, funcs.len() as int) =~= funcs@);
}

fn apply_elements(module: &Module, tables: &mut Vec<TableInstance>) -> (r: Result<(), LinkError>)
    ensures
        match spec_apply_elements(module@, views(old(tables)@), 0) {
            Ok(t) => r is Ok && views(final(tables)@) == t,
            Err(e) => r is Err && r->Err_0 == e,
        },
{
    let mut i: usize = 0;
    while i < module.element_segments.len()
        invariant
            i <= module.element_segments.len(),
            spec_apply_elements(module@, views(old(tables)@), 0) == spec_apply_elements(
                module@,
                views(tables@),
                i as nat,
            ),
        decreases module.element_segments.len() - i,
    {
        assert(views(module.element_segments@)[i as int] == module.element_segments@[i as int]@);
        let segment = &module.element_segments[i];
        match (&segment.mode, &segment.elements) {
            (ElementMode::Active { table_index, expr }, Elements::Function(func_indices)) => {
                let table_idx = *table_index as usize;
                if table_idx < tables.len() {
                    let offset = eval_offset(module, expr)?;
                    let ghost before = tables@;
                    assert(views(before)[table_idx as int] == before[table_idx as int]@);
                    fill_table(&mut tables[table_idx], offset, func_indices);
                    assert(views(tables@) =~= views(before).update(
                        table_idx as int,
                        spec_filled(views(before)[table_idx as int], offset as int, func_indices@),
                    ));
                }
            },
            _ => {},
        }
        i = i + 1;
    }
    Ok(())
}

/// The bytes of a memory after the data segments from `i` on: the payload
/// of each active segment is copied to its offset. A segment for another
/// memory than the first finds no memory; a payload that does not lie
/// within the memory is an access out of bounds.
pub open spec fn spec_apply_data(m: ModuleView, memory: Seq<u8>, i: nat) -> Result<
    Seq<u8>,
    LinkError,
>
    decreases m.data.len() - i,
{
    if i >= m.data.len() {
        Ok(memory)
    } else {
        match m.data[i as int] {
            Data::Passive { .. } => spec_apply_data(m, memory, i + 1),
            Data::Active { expr, data } => match spec_copy_segment(m, memory, expr, data) {
                Ok(after) => spec_apply_data(m, after, i + 1),
                Err(e) => Err(e),
            },
            Data::ActiveMemIdx { memidx, expr, data } => if memidx != 0 {
                Err(LinkError::MissingMemory)
            } else {
                match spec_copy_segment(m, memory, expr, data) {
                    Ok(after) => spec_apply_data(m, after, i + 1),
                    Err(e) => Err(e),
                }
            },
        }
    }
}

/// The bytes of a memory with the payload of one active segment copied to
/// its offset.
pub open spec fn spec_copy_segment(m: ModuleView, memory: Seq<u8>, expr: Region, data: Region) -> Result<
    Seq<u8>,
    LinkError,
> {
    match spec_offset(m, expr) {
        Ok(offset) => if !(data.0 <= data.1 <= m.module_data.len()) {
            Err(LinkError::DecodeError(DecodeError::MalformedMemory(Malformed::UnexpectedEnd)))
        } else if offset + (data.1 - data.0) > memory.len() {
            Err(LinkError::ActiveExpressionError(Fault::MemoryOutOfBounds))
        } else {
            Ok(
                crate::memory::vector_mem::spec_copied(
                    memory,
                    offset as int,
                    m.module_data.subrange(data.0 as int, data.1 as int),
                ),
            )
        },
        Err(e) => Err(e),
    }
}

fn copy_segment(module: &Module, memory: &mut VectorMemory, expr: &Region, data: &Region) -> (r:
    Result<(), LinkError>)
    ensures
        match spec_copy_segment(module@, old(memory)@.bytes, *expr, *data) {
            Ok(after) => r is Ok && final(memory)@ == (
            crate::memory::vector_mem::VectorMemoryView { bytes: after, ..old(memory)@ }),
            Err(e) => r is Err && r->Err_0 == e,
        },
{
    let offset = eval_offset(module, expr)?;
    if data.0 > data.1 || data.1 > module.module_data.len() {
        return Err(LinkError::DecodeError(DecodeError::MalformedMemory(Malformed::UnexpectedEnd)));
    }
    let payload = vstd::slice::slice_subrange(module.module_data.as_slice(), data.0, data.1);
    match memory.copy_from(offset, payload) {
        Ok(()) => Ok(()),
        Err(f) => Err(LinkError::ActiveExpressionError(f)),
    }
}

fn apply_data(module: &Module, memory: &mut VectorMemory) -> (r: Result<(), LinkError>)
    ensures
        match spec_apply_data(module@, old(memory)@.bytes, 0) {
            Ok(after) => r is Ok && final(memory)@ == (
            crate::memory::vector_mem::VectorMemoryView { bytes: after, ..old(memory)@ }),
            Err(e) => r is Err && r->Err_0 == e,
        },
{
    let mut i: usize = 0;
    while i < module.data.len()
        invariant
            i <= module.data.len(),
            memory@.max_bounds == old(memory)@.max_bounds,
            spec_apply_data(module@, old(memory)@.bytes, 0) == spec_apply_data(
                module@,
                memory@.bytes,
                i as nat,
            ),
        decreases module.data.len() - i,
    {
        match &module.data[i] {
            Data::Active { expr, data } => {
                copy_segment(module, memory, expr, data)?;
            },
            Data::ActiveMemIdx { memidx, expr, data } => {
                if *memidx != 0 {
                    return Err(LinkError::MissingMemory);
                }
                copy_segment(module, memory, expr, data)?;
            },
            Data::Passive { .. } => {},
        }
        i = i + 1;
    }
    Ok(())
}

/// The globals from `i` on, after `acc`: each with the value of its
/// initial expression.
pub open spec fn spec_globals(m: ModuleView, i: nat, acc: Seq<GlobalVar>) -> Result<
    Seq<GlobalVar>,
    LinkError,
>
    decreases m.globals.len() - i,
{
    if i >= m.globals.len() {
        Ok(acc)
    } else {
        match spec_eval(m, m.globals[i as int].expr, m.globals[i as int].ty) {
            Ok(value) => spec_globals(
                m,
                i + 1,
                acc.push(GlobalVar { decl: m.globals[i as int], value }),
            ),
            Err(e) => Err(e),
        }
    }
}

fn build_globals(module: &Module) -> (r: Result<Vec<GlobalVar>, LinkError>)
    ensures
        match spec_globals(module@, 0, Seq::empty()) {
            Ok(g) => r is Ok && r->Ok_0@ == g,
            Err(e) => r is Err && r->Err_0 == e,
        },
{
    let mut globals: Vec<GlobalVar> = Vec::new();
    let mut i: usize = 0;
    while i < module.globals.len()
        invariant
            i <= module.globals.len(),
            spec_globals(module@, 0, Seq::empty()) == spec_globals(module@, i as nat, globals@),
        decreases module.globals.len() - i,
    {
        let decl = module.globals[i];
        let value = eval(module, &decl.expr, decl.ty)?;
        globals.push(GlobalVar { decl, value });
        i = i + 1;
    }
    Ok(globals)
}

/// The instance of a module before its start function runs: the decoded
/// function bodies; the memory, with the active data segments copied in;
/// the tables, with the active element segments written; and the globals.
pub open spec fn spec_instantiate(m: ModuleView) -> Result<InstanceView, LinkError> {
    match spec_programs(m, 0, Seq::empty()) {
        Ok(programs) => match spec_memories(m) {
            Ok(memories) => match spec_apply_elements(
                m,
                Seq::new(m.tables.len(), |i: int| spec_table_instance(m.tables[i])),
                0,
            ) {
                Ok(tables) => match (if memories.len() == 0 {
                    Ok(memories)
                } else {
                    match spec_apply_data(m, memories[0].bytes, 0) {
                        Ok(bytes) => Ok(
                            seq![
                                crate::memory::vector_mem::VectorMemoryView {
                                    bytes,
                                    ..memories[0]
                                },
                            ],
                        ),
                        Err(e) => Err(e),
                    }
                }) {
                    Ok(filled) => match spec_globals(m, 0, Seq::empty()) {
                        Ok(globals) => Ok(
                            InstanceView { module: m, memories: filled, globals, programs, tables },
                        ),
                        Err(e) => Err(e),
                    },
                    Err(e) => Err(e),
                },
                Err(e) => Err(e),
            },
            Err(e) => Err(e),
        },
        Err(e) => Err(e),
    }
}

/// Builds the instance of a module, short of running its start function.
pub fn instantiate(module: Module) -> (r: Result<Instance, LinkError>)
    ensures
        match spec_instantiate(module@) {
            Ok(x) => r is Ok && r->Ok_0@ == x,
            Err(e) => r is Err && r->Err_0 == e,
        },
{
    let programs = build_programs(&module)?;
    let mut memories = build_memories(&module)?;
    let mut tables = build_tables(&module);
    apply_elements(&module, &mut tables)?;
    match memories.pop() {
        Some(mut memory) => {
            assert(views(memories@) =~= Seq::empty());
            let ghost before = memory@;
            apply_data(&module, &mut memory)?;
            proof {
                crate::lemma_views_push(memories@, memory);
            }
            memories.push(memory);
            assert(views(memories@) =~= seq![memory@]);
        },
        None => {
            assert(views(memories@) =~= Seq::empty());
        },
    }
    let globals = build_globals(&module)?;
    Ok(Instance { module, memories, globals, programs, tables })
}

/// The sizes that a vector memory with the given bound can be resized to.
pub open spec fn spec_growable(max_bounds: Option<usize>) -> Set<nat> {
    Set::new(
        |n: nat|
            match max_bounds {
                Some(max) => n <= max,
                None => true,
            },
    )
}

/// A vector memory can be resized to the sizes up to its bound.
pub proof fn lemma_growable(a: VectorMemory)
    ensures
        growable_set(a) == spec_growable(a@.max_bounds),
{
    assert(growable_set(a) =~= spec_growable(a@.max_bounds));
}

/// The bound of a vector memory that can be resized to the sizes up to
/// `bound` is `bound`.
pub proof fn lemma_bound(a: VectorMemory, bound: Option<usize>)
    requires
        growable_set(a) == spec_growable(bound),
    ensures
        a@.max_bounds == bound,
{
    assert(growable_set(a) =~= spec_growable(a@.max_bounds));
    match (a@.max_bounds, bound) {
        (Some(x), Some(y)) => {
            assert(spec_growable(Some(x)).contains(x as nat));
            assert(spec_growable(Some(y)).contains(y as nat));
        },
        (Some(x), None) => {
            assert(spec_growable(None).contains((x + 1) as nat));
            assert(!spec_growable(Some(x)).contains((x + 1) as nat));
        },
        (None, Some(y)) => {
            assert(spec_growable(None).contains((y + 1) as nat));
            assert(!spec_growable(Some(y)).contains((y + 1) as nat));
        },
        (None, None) => {},
    }
}

/// The memory that the start function of an instance runs on: its
/// memory, or an empty one that cannot grow where it has none.
pub open spec fn spec_start_memory(x: InstanceView) -> VectorMemoryView {
    if x.memories.len() > 0 {
        x.memories[0]
    } else {
        VectorMemoryView { bytes: Seq::empty(), max_bounds: Some(0) }
    }
}

/// The execution of the start function `start` of an instance, before it
/// runs: with the default limits, over a copy of the memory of the
/// instance, or over an empty memory that cannot grow where it has none.
pub open spec fn spec_start_execution(x: InstanceView, start: usize) -> Result<
    ExecutionView,
    LinkError,
> {
    if start > u32::MAX {
        Err(LinkError::FunctionNotFound)
    } else {
        match spec_frame_for_funcidx(x, start as u32, Seq::empty()) {
            Ok(frame) => Ok(
                ExecutionView {
                    instance: x,
                    frames: seq![frame],
                    memory: spec_start_memory(x).bytes,
                    result: None,
                    pending: None,
                    ticks: 0,
                    options: ExecutionOptions {
                        tick_limit: DEFAULT_TICK_LIMIT,
                        stack_depth_limit: DEFAULT_STACK_DEPTH_LIMIT,
                    },
                },
            ),
            Err(e) => Err(e),
        }
    }
}

/// The instance of an execution `x` in which the start function has run,
/// with the memory of the execution, whose bound is `bound`, in the place
/// of its own. A floating-point operation that still waits for the host is
/// an error of the expression.
pub open spec fn spec_started(x: ExecutionView, bound: Option<usize>) -> Result<
    InstanceView,
    LinkError,
> {
    match x.pending {
        Some(request) => Err(
            LinkError::ActiveExpressionError(Fault::UnexpectedResult(Continuation::Float(request))),
        ),
        None => Ok(
            InstanceView {
                memories: if x.instance.memories.len() > 0 {
                    x.instance.memories.update(
                        0,
                        VectorMemoryView { bytes: x.memory, max_bounds: bound },
                    )
                } else {
                    x.instance.memories
                },
                ..x.instance
            },
        ),
    }
}

/// The instance after its start function has run to its end, with the
/// default limits. A fault of the start function, or a floating-point
/// operation that it leaves to the host, is an error of the expression.
pub open spec fn spec_start(x: InstanceView, start: usize) -> Result<InstanceView, LinkError> {
    match spec_start_execution(x, start) {
        Ok(first) => {
            let e = spec_run(spec_growable(spec_start_memory(x).max_bounds), first);
            match e.1 {
                Ok(()) => spec_started(e.0, spec_start_memory(x).max_bounds),
                Err(ExecError::LinkageError(e)) => Err(e),
                Err(ExecError::Fault(f)) => Err(LinkError::ActiveExpressionError(f)),
            }
        },
        Err(e) => Err(e),
    }
}

/// The instance of a module: what its sections make up, and then its
/// start function run, where it has one.
pub open spec fn spec_mk_instance(m: ModuleView) -> Result<InstanceView, LinkError> {
    match spec_instantiate(m) {
        Ok(x) => match m.start_function {
            Some(start) => spec_start(x, start),
            None => Ok(x),
        },
        Err(e) => Err(e),
    }
}

/// Prepares the execution of the start function `start` of an instance,
/// for a host that answers the floating-point operations of the function
/// itself: the host runs the execution to its end and hands it to
/// [`finish_start`].
pub fn start_execution(instance: Instance, start: usize) -> (r: Result<
    Execution<VectorMemory>,
    LinkError,
>)
    ensures
        match spec_start_execution(instance@, start) {
            Ok(x) => r is Ok && r->Ok_0@ == x && r->Ok_0.growable() == spec_growable(
                spec_start_memory(instance@).max_bounds,
            ),
            Err(e) => r is Err && r->Err_0 == e,
        },
{
    if start > u32::MAX as usize {
        return Err(LinkError::FunctionNotFound);
    }
    let memory = if instance.memories.len() > 0 {
        assert(views(instance.memories@)[0] == instance.memories@[0]@);
        instance.memories[0].clone()
    } else {
        VectorMemory::new(0, Some(0))
    };
    assert(memory@.bytes =~= spec_start_memory(instance@).bytes);
    proof {
        lemma_growable(memory);
    }
    let mut execution = Execution::new(instance, memory);
    let no_args: Vec<Value> = Vec::new();
    assert(no_args@ =~= Seq::empty());
    match execution.prepare(start as u32, no_args.as_slice()) {
        Ok(()) => {},
        Err(ExecError::LinkageError(e)) => {
            return Err(e);
        },
        Err(ExecError::Fault(f)) => {
            return Err(LinkError::ActiveExpressionError(f));
        },
    }
    assert(execution@.frames =~= seq![execution@.frames[0]]);
    Ok(execution)
}

/// Takes the instance out of an execution in which its start function has
/// run, with the memory of the execution in the place of its own. Nothing
/// is run here: an execution that still waits for the host is refused, and
/// one that was never run gives the instance as it was.
pub fn finish_start(execution: Execution<VectorMemory>) -> (r: Result<Instance, LinkError>)
    ensures
        forall|bound: Option<usize>|
            execution.growable() == #[trigger] spec_growable(bound) ==> match spec_started(
                execution@,
                bound,
            ) {
                Ok(x) => r is Ok && r->Ok_0@ == x,
                Err(e) => r is Err && r->Err_0 == e,
            },
{
    match execution.pending() {
        Some(request) => {
            return Err(
                LinkError::ActiveExpressionError(
                    Fault::UnexpectedResult(Continuation::Float(request)),
                ),
            );
        },
        None => {},
    }
    let (mut instance, memory) = execution.into_parts();
    let ghost before = instance.memories@;
    if instance.memories.len() > 0 {
        instance.memories.set(0, memory);
        assert(views(instance.memories@) =~= views(before).update(0, memory@));
    }
    assert forall|bound: Option<usize>|
        execution.growable() == #[trigger] spec_growable(bound) implies memory@.max_bounds
        == bound by {
        lemma_bound(memory, bound);
    }
    Ok(instance)
}

/// Runs the start function of an instance.
fn run_start(instance: Instance, start: usize) -> (r: Result<Instance, LinkError>)
    ensures
        match spec_start(instance@, start) {
            Ok(x) => r is Ok && r->Ok_0@ == x,
            Err(e) => r is Err && r->Err_0 == e,
        },
{
    let mut execution = start_execution(instance, start)?;
    match execution.run() {
        Ok(()) => {},
        Err(ExecError::LinkageError(e)) => {
            return Err(e);
        },
        Err(ExecError::Fault(f)) => {
            return Err(LinkError::ActiveExpressionError(f));
        },
    }
    finish_start(execution)
}

/// Builds the instance of a module and runs its start function.
pub fn mk_instance(module: Module) -> (r: Result<Instance, LinkError>)
    ensures
        match spec_mk_instance(module@) {
            Ok(x) => r is Ok && r->Ok_0@ == x,
            Err(e) => r is Err && r->Err_0 == e,
        },
{
    let start_function = module.start_function;
    let instance = instantiate(module)?;
    match start_function {
        Some(start) => run_start(instance, start),
        None => Ok(instance),
    }
}

/// Copying data segments in leaves the size of a memory as it was.
pub proof fn lemma_apply_data_size(m: ModuleView, memory: Seq<u8>, i: nat)
    ensures
        spec_apply_data(m, memory, i) matches Ok(after) ==> after.len() == memory.len(),
    decreases m.data.len() - i,
{
    if i < m.data.len() {
        match m.data[i as int] {
            Data::Passive { .. } => lemma_apply_data_size(m, memory, i + 1),
            Data::Active { expr, data } => match spec_copy_segment(m, memory, expr, data) {
                Ok(after) => lemma_apply_data_size(m, after, i + 1),
                Err(_) => {},
            },
            Data::ActiveMemIdx { memidx, expr, data } => if memidx == 0 {
                match spec_copy_segment(m, memory, expr, data) {
                    Ok(after) => lemma_apply_data_size(m, after, i + 1),
                    Err(_) => {},
                }
            },
        }
    }
}

/// The memory of an instance is a whole number of pages, before its start
/// function runs and after.
pub proof fn lemma_instance_pages(m: ModuleView)
    ensures
        spec_mk_instance(m) matches Ok(x) ==> forall|i: int|
            0 <= i < x.memories.len() ==> (#[trigger] x.memories[i]).bytes.len() % 65536 == 0,
        spec_instantiate(m) matches Ok(x) ==> forall|i: int|
            0 <= i < x.memories.len() ==> (#[trigger] x.memories[i]).bytes.len() % 65536 == 0,
{
    match spec_instantiate(m) {
        Ok(x) => {
            let memories = spec_memories(m)->Ok_0;
            if memories.len() > 0 {
                lemma_apply_data_size(m, memories[0].bytes, 0);
                assert(x.memories[0].bytes.len() == m.memories[0].limits.0 * 65536);
            }
            match m.start_function {
                Some(start) => {
                    match spec_start_execution(x, start) {
                        Ok(first) => {
                            let growable = spec_growable(spec_start_memory(x).max_bounds);
                            crate::exec::lemma_run_keeps_global(growable, first);
                            crate::exec::lemma_run_keeps(growable, first);
                        },
                        Err(_) => {},
                    }
                },
                None => {},
            }
        },
        Err(_) => {},
    }
}

impl Unsupported {
    /// The feature that is lacking.
    pub open spec fn spec_message(self) -> Seq<char> {
        match self {
            Unsupported::MultipleMemories => "Multiple memories not supported"@,
            Unsupported::ImportedFunctions => "Imported functions not supported"@,
        }
    }

    /// The feature that is lacking.
    pub fn message(&self) -> (r: String)
        ensures
            r@ == self.spec_message(),
    {
        match self {
            Unsupported::MultipleMemories => "Multiple memories not supported".to_owned(),
            Unsupported::ImportedFunctions => "Imported functions not supported".to_owned(),
        }
    }
}

impl LinkError {
    /// The text of the error, without the values that it carries.
    pub open spec fn spec_message(self) -> Seq<char> {
        match self {
            LinkError::FunctionNotFound => "Function not found"@,
            LinkError::ArgumentTypeMismatch(_, _, _) => "Argument type mismatch"@,
            LinkError::MissingMemory => "No memory found"@,
            LinkError::ActiveExpressionError(e) => e.spec_message(),
            LinkError::DecodeError(e) => e.spec_message(),
            LinkError::UnsupportedFeature(e) => e.spec_message(),
        }
    }

    /// The text of the error, without the values that it carries.
    pub fn message(&self) -> (r: String)
        ensures
            r@ == self.spec_message(),
    {
        match self {
            LinkError::FunctionNotFound => "Function not found".to_owned(),
            LinkError::ArgumentTypeMismatch(_, _, _) => "Argument type mismatch".to_owned(),
            LinkError::MissingMemory => "No memory found".to_owned(),
            LinkError::ActiveExpressionError(e) => e.message(),
            LinkError::DecodeError(e) => e.message(),
            LinkError::UnsupportedFeature(e) => e.message(),
        }
    }
}

} // verus!
