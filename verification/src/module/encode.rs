//! The bytes of a module, and the law that loading them gives the module
//! back.
use crate::decode::{lemma_scan_follows, spec_scan_from, DecodeError};
use crate::module::leb128::{
    lemma_holds_both, lemma_unsigned_at, spec_data, spec_encode_unsigned, spec_holds,
    spec_items_varu32, spec_string, spec_u8, spec_varuint32,
};
use crate::module::parse::{
    spec_code_entries, spec_code_entries_items, spec_code_entry, spec_data_segment,
    spec_data_segments, spec_data_segments_items, spec_element_head, spec_element_payload,
    spec_element_segment, spec_element_segments, spec_element_segments_items, spec_empty_module,
    spec_export, spec_exports, spec_exports_items, spec_expr_region, spec_exprs_items,
    spec_func_type, spec_func_types, spec_func_types_items, spec_function_indices,
    spec_function_indices_items, spec_global, spec_globals, spec_globals_items, spec_import,
    spec_import_descriptor, spec_imports, spec_imports_items, spec_limits, spec_load,
    spec_local_groups, spec_memories, spec_memories_items, spec_section, spec_section_body,
    spec_sections, spec_tables, spec_tables_items, spec_value_type_list, spec_value_types,
    MAX_MEMORY_SIZE_PAGES,
};
use crate::module::{
    CodeView, Data, ElementMode, ElementSegmentView, ElementsView, ExportEntryView, Global, Import,
    ImportEntryView, ImportExportKind, LoaderError, MemorySection, ModuleView, ReferenceType,
    Region, SectionType, Table,
};
use crate::{FuncTypeView, ValueType};
use vstd::prelude::*;
use vstd::utf8::{encode_utf8, encode_utf8_decode_utf8, encode_utf8_valid_utf8};

verus! {

/// The shortest unsigned LEB128 encoding of a number of 32 bits.
pub open spec fn spec_encode_u32(v: u32) -> Seq<u8> {
    spec_encode_unsigned(v as nat)
}

/// Whether limits can be declared: both at most 65,536, the maximum not
/// below the minimum.
pub open spec fn spec_valid_limits(limits: (u32, Option<u32>)) -> bool {
    limits.0 <= MAX_MEMORY_SIZE_PAGES && match limits.1 {
        Some(max) => limits.0 <= max <= MAX_MEMORY_SIZE_PAGES,
        None => true,
    }
}

/// The bytes of limits: the flag, the minimum, and the maximum where
/// there is one.
pub open spec fn spec_encode_limits(limits: (u32, Option<u32>)) -> Seq<u8> {
    match limits.1 {
        Some(max) => seq![1u8] + spec_encode_u32(limits.0) + spec_encode_u32(max),
        None => seq![0u8] + spec_encode_u32(limits.0),
    }
}

/// Limits that are written are the limits that are read.
pub proof fn lemma_limits_at(s: Seq<u8>, pos: int, limits: (u32, Option<u32>))
    requires
        spec_valid_limits(limits),
        spec_holds(s, pos, spec_encode_limits(limits)),
    ensures
        spec_limits(s, pos) == Ok::<((u32, Option<u32>), int), DecodeError>(
            (limits, pos + spec_encode_limits(limits).len()),
        ),
{
    let first = spec_encode_u32(limits.0);
    match limits.1 {
        Some(max) => {
            lemma_holds_both(s, pos, seq![1u8] + first, spec_encode_u32(max));
            lemma_holds_both(s, pos, seq![1u8], first);
            assert(s[pos] == s.subrange(pos, pos + 1)[0]);
            lemma_unsigned_at(s, pos + 1, limits.0);
            lemma_unsigned_at(s, pos + 1 + first.len(), max);
        },
        None => {
            lemma_holds_both(s, pos, seq![0u8], first);
            assert(s[pos] == s.subrange(pos, pos + 1)[0]);
            lemma_unsigned_at(s, pos + 1, limits.0);
        },
    }
}

/// The bytes of memory declarations, one after the other.
pub open spec fn spec_encode_memories(memories: Seq<MemorySection>) -> Seq<u8>
    decreases memories.len(),
{
    if memories.len() == 0 {
        Seq::empty()
    } else {
        spec_encode_limits(memories[0].limits) + spec_encode_memories(memories.drop_first())
    }
}

/// Memory declarations that are written are those that are read, after
/// `acc`.
pub proof fn lemma_memories_at(
    s: Seq<u8>,
    pos: int,
    memories: Seq<MemorySection>,
    acc: Seq<MemorySection>,
)
    requires
        forall|i: int| 0 <= i < memories.len() ==> spec_valid_limits(#[trigger] memories[i].limits),
        spec_holds(s, pos, spec_encode_memories(memories)),
    ensures
        spec_memories_items(s, pos, memories.len(), acc) == Ok::<
            (Seq<MemorySection>, int),
            LoaderError,
        >((acc + memories, pos + spec_encode_memories(memories).len())),
    decreases memories.len(),
{
    if memories.len() == 0 {
        assert(acc + memories =~= acc);
    } else {
        let first = spec_encode_limits(memories[0].limits);
        let rest = memories.drop_first();
        lemma_holds_both(s, pos, first, spec_encode_memories(rest));
        lemma_limits_at(s, pos, memories[0].limits);
        assert forall|i: int| 0 <= i < rest.len() implies spec_valid_limits(
            #[trigger] rest[i].limits,
        ) by {
            assert(rest[i] == memories[i + 1]);
        }
        lemma_memories_at(s, pos + first.len(), rest, acc.push(memories[0]));
        assert(acc.push(memories[0]) + rest =~= acc + memories);
    }
}

/// The byte of a reference type.
pub open spec fn spec_reference_byte(ty: ReferenceType) -> u8 {
    match ty {
        ReferenceType::FuncRef => 0x70,
        ReferenceType::ExternRef => 0x6f,
    }
}

/// The bytes of a table declaration: its reference type and its limits.
pub open spec fn spec_encode_table(table: Table) -> Seq<u8> {
    seq![spec_reference_byte(table.ty)] + spec_encode_limits(table.limits)
}

/// The bytes of table declarations, one after the other.
pub open spec fn spec_encode_tables(tables: Seq<Table>) -> Seq<u8>
    decreases tables.len(),
{
    if tables.len() == 0 {
        Seq::empty()
    } else {
        spec_encode_table(tables[0]) + spec_encode_tables(tables.drop_first())
    }
}

/// Table declarations that are written are those that are read, after
/// `acc`.
pub proof fn lemma_tables_at(s: Seq<u8>, pos: int, tables: Seq<Table>, acc: Seq<Table>)
    requires
        forall|i: int| 0 <= i < tables.len() ==> spec_valid_limits(#[trigger] tables[i].limits),
        spec_holds(s, pos, spec_encode_tables(tables)),
    ensures
        spec_tables_items(s, pos, tables.len(), acc) == Ok::<(Seq<Table>, int), LoaderError>(
            (acc + tables, pos + spec_encode_tables(tables).len()),
        ),
    decreases tables.len(),
{
    if tables.len() == 0 {
        assert(acc + tables =~= acc);
    } else {
        let first = spec_encode_table(tables[0]);
        let rest = tables.drop_first();
        lemma_holds_both(s, pos, first, spec_encode_tables(rest));
        lemma_holds_both(
            s,
            pos,
            seq![spec_reference_byte(tables[0].ty)],
            spec_encode_limits(tables[0].limits),
        );
        assert(s[pos] == s.subrange(pos, pos + 1)[0]);
        lemma_limits_at(s, pos + 1, tables[0].limits);
        assert forall|i: int| 0 <= i < rest.len() implies spec_valid_limits(
            #[trigger] rest[i].limits,
        ) by {
            assert(rest[i] == tables[i + 1]);
        }
        lemma_tables_at(s, pos + first.len(), rest, acc.push(tables[0]));
        assert(acc.push(tables[0]) + rest =~= acc + tables);
    }
}

/// The byte of a value type.
pub open spec fn spec_type_byte(ty: ValueType) -> u8 {
    match ty {
        ValueType::Unit => 0x40,
        ValueType::FuncRef => 0x70,
        ValueType::ExternRef => 0x6f,
        ValueType::I32 => 0x7f,
        ValueType::I64 => 0x7e,
        ValueType::F32 => 0x7d,
        ValueType::F64 => 0x7c,
        ValueType::V128 => 0x7b,
    }
}

/// The bytes of value types, one byte each.
pub open spec fn spec_encode_value_types(types: Seq<ValueType>) -> Seq<u8> {
    Seq::new(types.len(), |i: int| spec_type_byte(types[i]))
}

/// Value types that are written are those that are read, after `acc`.
pub proof fn lemma_value_types_at(s: Seq<u8>, pos: int, types: Seq<ValueType>, acc: Seq<ValueType>)
    requires
        spec_holds(s, pos, spec_encode_value_types(types)),
    ensures
        spec_value_types(s, pos, types.len(), acc) == Ok::<(Seq<ValueType>, int), LoaderError>(
            (acc + types, pos + types.len()),
        ),
    decreases types.len(),
{
    if types.len() == 0 {
        assert(acc + types =~= acc);
    } else {
        let rest = types.drop_first();
        let byte = spec_type_byte(types[0]);
        assert(spec_encode_value_types(types) =~= seq![byte] + spec_encode_value_types(rest));
        lemma_holds_both(s, pos, seq![byte], spec_encode_value_types(rest));
        assert(spec_encode_unsigned(byte as nat) =~= seq![byte]);
        lemma_unsigned_at(s, pos, byte as u32);
        lemma_value_types_at(s, pos + 1, rest, acc.push(types[0]));
        assert(acc.push(types[0]) + rest =~= acc + types);
    }
}

/// The bytes of a list: the number of its items, and the items.
pub open spec fn spec_encode_list(count: nat, items: Seq<u8>) -> Seq<u8> {
    spec_encode_u32(count as u32) + items
}

/// The bytes of a function type: the marker 0x60, the parameter types and
/// the result types.
pub open spec fn spec_encode_func_type(ty: FuncTypeView) -> Seq<u8> {
    seq![0x60u8] + spec_encode_list(ty.params.len(), spec_encode_value_types(ty.params))
        + spec_encode_list(ty.results.len(), spec_encode_value_types(ty.results))
}

/// Whether a function type can be declared: its parameters and its
/// results are counted in 32 bits.
pub open spec fn spec_valid_func_type(ty: FuncTypeView) -> bool {
    ty.params.len() <= u32::MAX && ty.results.len() <= u32::MAX
}

/// A list of value types that is written is the list that is read.
pub proof fn lemma_value_type_list_at(s: Seq<u8>, pos: int, types: Seq<ValueType>)
    requires
        types.len() <= u32::MAX,
        spec_holds(s, pos, spec_encode_list(types.len(), spec_encode_value_types(types))),
    ensures
        spec_value_type_list(s, pos) == Ok::<(Seq<ValueType>, int), LoaderError>(
            (types, pos + spec_encode_list(types.len(), spec_encode_value_types(types)).len()),
        ),
{
    let count = spec_encode_u32(types.len() as u32);
    lemma_holds_both(s, pos, count, spec_encode_value_types(types));
    lemma_unsigned_at(s, pos, types.len() as u32);
    lemma_value_types_at(s, pos + count.len(), types, Seq::empty());
    assert(Seq::<ValueType>::empty() + types =~= types);
}

/// A function type that is written is the function type that is read.
pub proof fn lemma_func_type_at(s: Seq<u8>, pos: int, ty: FuncTypeView)
    requires
        spec_valid_func_type(ty),
        spec_holds(s, pos, spec_encode_func_type(ty)),
    ensures
        spec_func_type(s, pos) == Ok::<(FuncTypeView, int), LoaderError>(
            (ty, pos + spec_encode_func_type(ty).len()),
        ),
{
    let params = spec_encode_list(ty.params.len(), spec_encode_value_types(ty.params));
    let results = spec_encode_list(ty.results.len(), spec_encode_value_types(ty.results));
    lemma_holds_both(s, pos, seq![0x60u8] + params, results);
    lemma_holds_both(s, pos, seq![0x60u8], params);
    assert(s[pos] == s.subrange(pos, pos + 1)[0]);
    lemma_value_type_list_at(s, pos + 1, ty.params);
    lemma_value_type_list_at(s, pos + 1 + params.len(), ty.results);
}

/// The bytes of function types, one after the other.
pub open spec fn spec_encode_func_types(types: Seq<FuncTypeView>) -> Seq<u8>
    decreases types.len(),
{
    if types.len() == 0 {
        Seq::empty()
    } else {
        spec_encode_func_type(types[0]) + spec_encode_func_types(types.drop_first())
    }
}

/// Function types that are written are those that are read, after `acc`.
pub proof fn lemma_func_types_at(
    s: Seq<u8>,
    pos: int,
    types: Seq<FuncTypeView>,
    acc: Seq<FuncTypeView>,
)
    requires
        forall|i: int| 0 <= i < types.len() ==> spec_valid_func_type(#[trigger] types[i]),
        spec_holds(s, pos, spec_encode_func_types(types)),
    ensures
        spec_func_types_items(s, pos, types.len(), acc) == Ok::<
            (Seq<FuncTypeView>, int),
            LoaderError,
        >((acc + types, pos + spec_encode_func_types(types).len())),
    decreases types.len(),
{
    if types.len() == 0 {
        assert(acc + types =~= acc);
    } else {
        let first = spec_encode_func_type(types[0]);
        let rest = types.drop_first();
        lemma_holds_both(s, pos, first, spec_encode_func_types(rest));
        lemma_func_type_at(s, pos, types[0]);
        assert forall|i: int| 0 <= i < rest.len() implies spec_valid_func_type(
            #[trigger] rest[i],
        ) by {
            assert(rest[i] == types[i + 1]);
        }
        lemma_func_types_at(s, pos + first.len(), rest, acc.push(types[0]));
        assert(acc.push(types[0]) + rest =~= acc + types);
    }
}

/// The bytes of type indices, one after the other.
pub open spec fn spec_encode_indices(indices: Seq<u32>) -> Seq<u8>
    decreases indices.len(),
{
    if indices.len() == 0 {
        Seq::empty()
    } else {
        spec_encode_u32(indices[0]) + spec_encode_indices(indices.drop_first())
    }
}

/// The type indices as the module holds them.
pub open spec fn spec_held_indices(indices: Seq<u32>) -> Seq<usize> {
    Seq::new(indices.len(), |i: int| indices[i] as usize)
}

/// Type indices that are written are those that are read, after `acc`.
pub proof fn lemma_indices_at(s: Seq<u8>, pos: int, indices: Seq<u32>, acc: Seq<usize>)
    requires
        spec_holds(s, pos, spec_encode_indices(indices)),
    ensures
        spec_function_indices_items(s, pos, indices.len(), acc) == Ok::<
            (Seq<usize>, int),
            LoaderError,
        >((acc + spec_held_indices(indices), pos + spec_encode_indices(indices).len())),
    decreases indices.len(),
{
    if indices.len() == 0 {
        assert(acc + spec_held_indices(indices) =~= acc);
    } else {
        let first = spec_encode_u32(indices[0]);
        let rest = indices.drop_first();
        lemma_holds_both(s, pos, first, spec_encode_indices(rest));
        lemma_unsigned_at(s, pos, indices[0]);
        lemma_indices_at(s, pos + first.len(), rest, acc.push(indices[0] as usize));
        assert(acc.push(indices[0] as usize) + spec_held_indices(rest) =~= acc
            + spec_held_indices(indices));
    }
}

/// A function body as it is written: the types of its locals and the
/// bytes of its instructions.
pub struct Body {
    pub locals: Seq<ValueType>,
    pub instructions: Seq<u8>,
}

/// The bytes of the locals of a function body: a group of one for each.
pub open spec fn spec_encode_locals(locals: Seq<ValueType>) -> Seq<u8>
    decreases locals.len(),
{
    if locals.len() == 0 {
        Seq::empty()
    } else {
        seq![1u8, spec_type_byte(locals[0])] + spec_encode_locals(locals.drop_first())
    }
}

/// Locals that are written are those that are read, after `acc`.
pub proof fn lemma_locals_at(s: Seq<u8>, pos: int, locals: Seq<ValueType>, acc: Seq<ValueType>)
    requires
        spec_holds(s, pos, spec_encode_locals(locals)),
    ensures
        spec_local_groups(s, pos, locals.len(), acc) == Ok::<(Seq<ValueType>, int), LoaderError>(
            (acc + locals, pos + 2 * locals.len()),
        ),
        spec_encode_locals(locals).len() == 2 * locals.len(),
    decreases locals.len(),
{
    if locals.len() == 0 {
        assert(acc + locals =~= acc);
    } else {
        let rest = locals.drop_first();
        let byte = spec_type_byte(locals[0]);
        lemma_holds_both(s, pos, seq![1u8, byte], spec_encode_locals(rest));
        assert(seq![1u8, byte] =~= seq![1u8] + seq![byte]);
        lemma_holds_both(s, pos, seq![1u8], seq![byte]);
        assert(spec_encode_unsigned(1) =~= seq![1u8]);
        assert(spec_encode_unsigned(byte as nat) =~= seq![byte]);
        lemma_unsigned_at(s, pos, 1);
        lemma_unsigned_at(s, pos + 1, byte as u32);
        let next = acc + Seq::new(1, |i: int| locals[0]);
        assert(next =~= acc.push(locals[0]));
        lemma_locals_at(s, pos + 2, rest, next);
        assert(acc.push(locals[0]) + rest =~= acc + locals);
    }
}

/// The bytes of a function body behind its size: the number of groups of
/// locals, the groups, and the instructions.
pub open spec fn spec_encode_body(body: Body) -> Seq<u8> {
    spec_encode_u32(body.locals.len() as u32) + spec_encode_locals(body.locals)
        + body.instructions
}

/// The bytes of a function body: its size and what the size counts.
pub open spec fn spec_encode_code(body: Body) -> Seq<u8> {
    spec_encode_u32(spec_encode_body(body).len() as u32) + spec_encode_body(body)
}

/// Whether a function body can be written: its locals and its size are
/// counted in 32 bits.
pub open spec fn spec_valid_body(body: Body) -> bool {
    body.locals.len() <= u32::MAX && spec_encode_body(body).len() <= u32::MAX
}

/// The function body as the module holds it where its bytes stand at
/// `pos`: its locals, and the range of its instructions.
pub open spec fn spec_held_code(body: Body, pos: int) -> CodeView {
    CodeView {
        locals: body.locals,
        code: (
            (pos + spec_encode_code(body).len() - body.instructions.len()) as usize,
            (pos + spec_encode_code(body).len()) as usize,
        ),
    }
}

/// A function body that is written is the function body that is read, and
/// its range holds its instructions.
pub proof fn lemma_code_at(s: Seq<u8>, pos: int, body: Body)
    requires
        spec_valid_body(body),
        spec_holds(s, pos, spec_encode_code(body)),
    ensures
        spec_code_entry(s, pos) == Ok::<(CodeView, int), LoaderError>(
            (spec_held_code(body, pos), pos + spec_encode_code(body).len()),
        ),
        spec_holds(
            s,
            pos + spec_encode_code(body).len() - body.instructions.len(),
            body.instructions,
        ),
{
    let inner = spec_encode_body(body);
    let size = spec_encode_u32(inner.len() as u32);
    let groups = spec_encode_u32(body.locals.len() as u32);
    let locals = spec_encode_locals(body.locals);
    lemma_holds_both(s, pos, size, inner);
    lemma_unsigned_at(s, pos, inner.len() as u32);
    let before: int = pos + size.len();
    lemma_holds_both(s, before, groups + locals, body.instructions);
    lemma_holds_both(s, before, groups, locals);
    lemma_unsigned_at(s, before, body.locals.len() as u32);
    lemma_locals_at(s, before + groups.len(), body.locals, Seq::empty());
    assert(Seq::<ValueType>::empty() + body.locals =~= body.locals);
}

/// The bytes of function bodies, one after the other.
pub open spec fn spec_encode_codes(bodies: Seq<Body>) -> Seq<u8>
    decreases bodies.len(),
{
    if bodies.len() == 0 {
        Seq::empty()
    } else {
        spec_encode_code(bodies[0]) + spec_encode_codes(bodies.drop_first())
    }
}

/// The function bodies as the module holds them where their bytes stand
/// from `pos` on.
pub open spec fn spec_held_codes(bodies: Seq<Body>, pos: int) -> Seq<CodeView>
    decreases bodies.len(),
{
    if bodies.len() == 0 {
        Seq::empty()
    } else {
        seq![spec_held_code(bodies[0], pos)] + spec_held_codes(
            bodies.drop_first(),
            pos + spec_encode_code(bodies[0]).len(),
        )
    }
}

/// Function bodies that are written are those that are read, after `acc`.
pub proof fn lemma_codes_at(s: Seq<u8>, pos: int, bodies: Seq<Body>, acc: Seq<CodeView>)
    requires
        forall|i: int| 0 <= i < bodies.len() ==> spec_valid_body(#[trigger] bodies[i]),
        spec_holds(s, pos, spec_encode_codes(bodies)),
    ensures
        spec_code_entries_items(s, pos, bodies.len(), acc) == Ok::<
            (Seq<CodeView>, int),
            LoaderError,
        >((acc + spec_held_codes(bodies, pos), pos + spec_encode_codes(bodies).len())),
        spec_held_codes(bodies, pos).len() == bodies.len(),
    decreases bodies.len(),
{
    if bodies.len() == 0 {
        assert(acc + spec_held_codes(bodies, pos) =~= acc);
    } else {
        let first = spec_encode_code(bodies[0]);
        let rest = bodies.drop_first();
        lemma_holds_both(s, pos, first, spec_encode_codes(rest));
        lemma_code_at(s, pos, bodies[0]);
        assert forall|i: int| 0 <= i < rest.len() implies spec_valid_body(#[trigger] rest[i]) by {
            assert(rest[i] == bodies[i + 1]);
        }
        let held = spec_held_code(bodies[0], pos);
        lemma_codes_at(s, pos + first.len(), rest, acc.push(held));
        assert(acc.push(held) + spec_held_codes(rest, pos + first.len()) =~= acc
            + spec_held_codes(bodies, pos));
    }
}

/// Each function body that the module holds has the locals that were
/// written, and its range holds the instructions that were written.
pub proof fn lemma_codes_hold(s: Seq<u8>, pos: int, bodies: Seq<Body>, i: int)
    requires
        forall|k: int| 0 <= k < bodies.len() ==> spec_valid_body(#[trigger] bodies[k]),
        spec_holds(s, pos, spec_encode_codes(bodies)),
        s.len() <= usize::MAX,
        0 <= i < bodies.len(),
    ensures
        ({
            let held = spec_held_codes(bodies, pos)[i];
            &&& held.locals == bodies[i].locals
            &&& held.code.0 <= held.code.1 <= s.len()
            &&& s.subrange(held.code.0 as int, held.code.1 as int) == bodies[i].instructions
        }),
    decreases bodies.len(),
{
    let first = spec_encode_code(bodies[0]);
    let rest = bodies.drop_first();
    lemma_holds_both(s, pos, first, spec_encode_codes(rest));
    if i == 0 {
        lemma_code_at(s, pos, bodies[0]);
    } else {
        assert forall|k: int| 0 <= k < rest.len() implies spec_valid_body(#[trigger] rest[k]) by {
            assert(rest[k] == bodies[k + 1]);
        }
        lemma_codes_hold(s, pos + first.len(), rest, i - 1);
        lemma_codes_at_length(rest, pos + first.len());
        assert(spec_held_codes(bodies, pos)[i] == spec_held_codes(rest, pos + first.len())[i - 1]);
        assert(rest[i - 1] == bodies[i]);
    }
}

/// The bytes of a name: the number of the bytes of its UTF-8 encoding,
/// and those bytes.
pub open spec fn spec_encode_name(name: Seq<char>) -> Seq<u8> {
    spec_encode_u32(encode_utf8(name).len() as u32) + encode_utf8(name)
}

/// A name that is written is the name that is read.
pub proof fn lemma_name_at(s: Seq<u8>, pos: int, name: Seq<char>)
    requires
        encode_utf8(name).len() <= u32::MAX,
        spec_holds(s, pos, spec_encode_name(name)),
    ensures
        spec_string(s, pos) == Ok::<(Seq<char>, int), DecodeError>(
            (name, pos + spec_encode_name(name).len()),
        ),
{
    let bytes = encode_utf8(name);
    let length = spec_encode_u32(bytes.len() as u32);
    lemma_holds_both(s, pos, length, bytes);
    lemma_unsigned_at(s, pos, bytes.len() as u32);
    encode_utf8_valid_utf8(name);
    encode_utf8_decode_utf8(name);
}

/// The byte of a kind of import or export.
pub open spec fn spec_kind_byte(kind: ImportExportKind) -> u8 {
    match kind {
        ImportExportKind::Function => 0,
        ImportExportKind::Table => 1,
        ImportExportKind::Memory => 2,
        ImportExportKind::Global => 3,
    }
}

/// The bytes of an export: its name, its kind and its index.
pub open spec fn spec_encode_export(export: ExportEntryView) -> Seq<u8> {
    spec_encode_name(export.name) + seq![spec_kind_byte(export.kind)] + spec_encode_u32(
        export.index,
    )
}

/// Whether an export can be written: the bytes of its name are counted in
/// 32 bits.
pub open spec fn spec_valid_export(export: ExportEntryView) -> bool {
    encode_utf8(export.name).len() <= u32::MAX
}

/// An export that is written is the export that is read.
pub proof fn lemma_export_at(s: Seq<u8>, pos: int, export: ExportEntryView)
    requires
        spec_valid_export(export),
        spec_holds(s, pos, spec_encode_export(export)),
    ensures
        spec_export(s, pos) == Ok::<(ExportEntryView, int), LoaderError>(
            (export, pos + spec_encode_export(export).len()),
        ),
{
    let name = spec_encode_name(export.name);
    let kind = seq![spec_kind_byte(export.kind)];
    lemma_holds_both(s, pos, name + kind, spec_encode_u32(export.index));
    lemma_holds_both(s, pos, name, kind);
    lemma_name_at(s, pos, export.name);
    assert(s[pos + name.len()] == s.subrange(pos + name.len(), pos + name.len() + 1)[0]);
    lemma_unsigned_at(s, pos + name.len() + 1, export.index);
}

/// The bytes of exports, one after the other.
pub open spec fn spec_encode_exports(exports: Seq<ExportEntryView>) -> Seq<u8>
    decreases exports.len(),
{
    if exports.len() == 0 {
        Seq::empty()
    } else {
        spec_encode_export(exports[0]) + spec_encode_exports(exports.drop_first())
    }
}

/// Exports that are written are those that are read, after `acc`.
pub proof fn lemma_exports_at(
    s: Seq<u8>,
    pos: int,
    exports: Seq<ExportEntryView>,
    acc: Seq<ExportEntryView>,
)
    requires
        forall|i: int| 0 <= i < exports.len() ==> spec_valid_export(#[trigger] exports[i]),
        spec_holds(s, pos, spec_encode_exports(exports)),
    ensures
        spec_exports_items(s, pos, exports.len(), acc) == Ok::<
            (Seq<ExportEntryView>, int),
            LoaderError,
        >((acc + exports, pos + spec_encode_exports(exports).len())),
    decreases exports.len(),
{
    if exports.len() == 0 {
        assert(acc + exports =~= acc);
    } else {
        let first = spec_encode_export(exports[0]);
        let rest = exports.drop_first();
        lemma_holds_both(s, pos, first, spec_encode_exports(rest));
        lemma_export_at(s, pos, exports[0]);
        assert forall|i: int| 0 <= i < rest.len() implies spec_valid_export(#[trigger] rest[i]) by {
            assert(rest[i] == exports[i + 1]);
        }
        lemma_exports_at(s, pos + first.len(), rest, acc.push(exports[0]));
        assert(acc.push(exports[0]) + rest =~= acc + exports);
    }
}

/// The kind of thing that an import asks for.
pub open spec fn spec_kind_of(import: Import) -> ImportExportKind {
    match import {
        Import::Func(_) => ImportExportKind::Function,
        Import::Table(_, _) => ImportExportKind::Table,
        Import::Memory(_) => ImportExportKind::Memory,
        Import::Global(_, _) => ImportExportKind::Global,
    }
}

/// The bytes of what an import asks for, behind its kind: a type index, a
/// table type, limits, or a value type and whether the global is mutable.
pub open spec fn spec_encode_descriptor(import: Import) -> Seq<u8> {
    match import {
        Import::Func(index) => seq![0u8] + spec_encode_u32(index),
        Import::Table(ty, limits) => seq![1u8] + (seq![spec_reference_byte(ty)]
            + spec_encode_limits(limits)),
        Import::Memory(limits) => seq![2u8] + spec_encode_limits(limits),
        Import::Global(ty, mutable) => seq![3u8] + seq![
            spec_type_byte(ty),
            if mutable {
                1u8
            } else {
                0u8
            },
        ],
    }
}

/// The bytes of an import: the two names, the kind and what it asks for.
pub open spec fn spec_encode_import(import: ImportEntryView) -> Seq<u8> {
    spec_encode_name(import.0) + spec_encode_name(import.1) + spec_encode_descriptor(import.2)
}

/// Whether an import can be written: the bytes of its names are counted
/// in 32 bits, and its limits can be declared.
pub open spec fn spec_valid_import(import: ImportEntryView) -> bool {
    &&& encode_utf8(import.0).len() <= u32::MAX
    &&& encode_utf8(import.1).len() <= u32::MAX
    &&& match import.2 {
        Import::Table(_, limits) => spec_valid_limits(limits),
        Import::Memory(limits) => spec_valid_limits(limits),
        _ => true,
    }
}

/// What an import asks for is read as it was written.
pub proof fn lemma_descriptor_at(s: Seq<u8>, pos: int, import: Import)
    requires
        match import {
            Import::Table(_, limits) => spec_valid_limits(limits),
            Import::Memory(limits) => spec_valid_limits(limits),
            _ => true,
        },
        spec_holds(s, pos, spec_encode_descriptor(import)),
    ensures
        spec_u8(s, pos) == Ok::<(u8, int), DecodeError>(
            (spec_kind_byte(spec_kind_of(import)), pos + 1),
        ),
        spec_import_descriptor(s, pos + 1, spec_kind_of(import)) == Ok::<(Import, int), LoaderError>(
            (import, pos + spec_encode_descriptor(import).len()),
        ),
{
    match import {
        Import::Func(index) => {
            lemma_holds_both(s, pos, seq![0u8], spec_encode_u32(index));
            assert(s[pos] == s.subrange(pos, pos + 1)[0]);
            lemma_unsigned_at(s, pos + 1, index);
        },
        Import::Table(ty, limits) => {
            let table = seq![spec_reference_byte(ty)] + spec_encode_limits(limits);
            lemma_holds_both(s, pos, seq![1u8], table);
            assert(s[pos] == s.subrange(pos, pos + 1)[0]);
            lemma_holds_both(s, pos + 1, seq![spec_reference_byte(ty)], spec_encode_limits(limits));
            assert(s[pos + 1] == s.subrange(pos + 1, pos + 2)[0]);
            lemma_limits_at(s, pos + 2, limits);
        },
        Import::Memory(limits) => {
            lemma_holds_both(s, pos, seq![2u8], spec_encode_limits(limits));
            assert(s[pos] == s.subrange(pos, pos + 1)[0]);
            lemma_limits_at(s, pos + 1, limits);
        },
        Import::Global(ty, mutable) => {
            let byte = spec_type_byte(ty);
            let flag = if mutable {
                1u8
            } else {
                0u8
            };
            lemma_holds_both(s, pos, seq![3u8], seq![byte, flag]);
            assert(s[pos] == s.subrange(pos, pos + 1)[0]);
            assert(seq![byte, flag] =~= seq![byte] + seq![flag]);
            lemma_holds_both(s, pos + 1, seq![byte], seq![flag]);
            assert(spec_encode_unsigned(byte as nat) =~= seq![byte]);
            lemma_unsigned_at(s, pos + 1, byte as u32);
            assert(s[pos + 2] == s.subrange(pos + 2, pos + 3)[0]);
        },
    }
}

/// An import that is written is the import that is read.
pub proof fn lemma_import_at(s: Seq<u8>, pos: int, import: ImportEntryView)
    requires
        spec_valid_import(import),
        spec_holds(s, pos, spec_encode_import(import)),
    ensures
        spec_import(s, pos) == Ok::<(ImportEntryView, int), LoaderError>(
            (import, pos + spec_encode_import(import).len()),
        ),
{
    let module = spec_encode_name(import.0);
    let field = spec_encode_name(import.1);
    lemma_holds_both(s, pos, module + field, spec_encode_descriptor(import.2));
    lemma_holds_both(s, pos, module, field);
    lemma_name_at(s, pos, import.0);
    lemma_name_at(s, pos + module.len(), import.1);
    lemma_descriptor_at(s, pos + module.len() + field.len(), import.2);
}

/// The bytes of imports, one after the other.
pub open spec fn spec_encode_imports(imports: Seq<ImportEntryView>) -> Seq<u8>
    decreases imports.len(),
{
    if imports.len() == 0 {
        Seq::empty()
    } else {
        spec_encode_import(imports[0]) + spec_encode_imports(imports.drop_first())
    }
}

/// Imports that are written are those that are read, after `acc`.
pub proof fn lemma_imports_at(s: Seq<u8>, pos: int, imports: Seq<ImportEntryView>, acc: Seq<ImportEntryView>)
    requires
        forall|i: int| 0 <= i < imports.len() ==> spec_valid_import(#[trigger] imports[i]),
        spec_holds(s, pos, spec_encode_imports(imports)),
    ensures
        spec_imports_items(s, pos, imports.len(), acc) == Ok::<(Seq<ImportEntryView>, int), LoaderError>(
            (acc + imports, pos + spec_encode_imports(imports).len()),
        ),
    decreases imports.len(),
{
    if imports.len() == 0 {
        assert(acc + imports =~= acc);
    } else {
        let first = spec_encode_import(imports[0]);
        let rest = imports.drop_first();
        lemma_holds_both(s, pos, first, spec_encode_imports(rest));
        lemma_import_at(s, pos, imports[0]);
        assert forall|i: int| 0 <= i < rest.len() implies spec_valid_import(#[trigger] rest[i]) by {
            assert(rest[i] == imports[i + 1]);
        }
        lemma_imports_at(s, pos + first.len(), rest, acc.push(imports[0]));
        assert(acc.push(imports[0]) + rest =~= acc + imports);
    }
}

/// Whether the bytes `e` are an expression: a scan from their first byte
/// ends behind their last.
pub open spec fn spec_is_expression(e: Seq<u8>) -> bool {
    spec_scan_from(e, 0, Seq::empty()) == Ok::<int, DecodeError>(e.len() as int)
}

/// The range of an expression of `length` bytes that stands at `pos`.
pub open spec fn spec_held_expression(pos: int, length: nat) -> Region {
    (pos as usize, (pos + length - 1) as usize)
}

/// An expression that is written is found where it stands.
pub proof fn lemma_expression_at(s: Seq<u8>, pos: int, e: Seq<u8>)
    requires
        spec_is_expression(e),
        spec_holds(s, pos, e),
    ensures
        spec_expr_region(s, pos) == Ok::<(Region, int), LoaderError>(
            (spec_held_expression(pos, e.len()), pos + e.len()),
        ),
{
    assert forall|i: int| 0 <= i < e.len() implies s[pos + (i - 0)] == e[i] by {
        assert(s.subrange(pos, pos + e.len())[i] == e[i]);
    }
    lemma_scan_follows(s, pos, e, 0, Seq::empty());
}

/// A global as it is written: its type, whether it is mutable, and the
/// bytes of the expression that initialises it.
pub struct Initialised {
    pub ty: ValueType,
    pub mutable: bool,
    pub init: Seq<u8>,
}

/// The bytes of a global: its type, whether it is mutable, and its
/// expression.
pub open spec fn spec_encode_global(global: Initialised) -> Seq<u8> {
    seq![
        spec_type_byte(global.ty),
        if global.mutable {
            1u8
        } else {
            0u8
        },
    ] + global.init
}

/// The global as the module holds it where its bytes stand at `pos`.
pub open spec fn spec_held_global(global: Initialised, pos: int) -> Global {
    Global {
        ty: global.ty,
        mutable: global.mutable,
        expr: spec_held_expression(pos + 2, global.init.len()),
    }
}

/// A global that is written is the global that is read.
pub proof fn lemma_global_at(s: Seq<u8>, pos: int, global: Initialised)
    requires
        spec_is_expression(global.init),
        spec_holds(s, pos, spec_encode_global(global)),
    ensures
        spec_global(s, pos) == Ok::<(Global, int), LoaderError>(
            (spec_held_global(global, pos), pos + spec_encode_global(global).len()),
        ),
{
    let byte = spec_type_byte(global.ty);
    let flag = if global.mutable {
        1u8
    } else {
        0u8
    };
    lemma_holds_both(s, pos, seq![byte, flag], global.init);
    assert(seq![byte, flag] =~= seq![byte] + seq![flag]);
    lemma_holds_both(s, pos, seq![byte], seq![flag]);
    assert(spec_encode_unsigned(byte as nat) =~= seq![byte]);
    lemma_unsigned_at(s, pos, byte as u32);
    assert(s[pos + 1] == s.subrange(pos + 1, pos + 2)[0]);
    lemma_expression_at(s, pos + 2, global.init);
}

/// The bytes of globals, one after the other.
pub open spec fn spec_encode_globals(globals: Seq<Initialised>) -> Seq<u8>
    decreases globals.len(),
{
    if globals.len() == 0 {
        Seq::empty()
    } else {
        spec_encode_global(globals[0]) + spec_encode_globals(globals.drop_first())
    }
}

/// The globals as the module holds them where their bytes stand from
/// `pos` on.
pub open spec fn spec_held_globals(globals: Seq<Initialised>, pos: int) -> Seq<Global>
    decreases globals.len(),
{
    if globals.len() == 0 {
        Seq::empty()
    } else {
        seq![spec_held_global(globals[0], pos)] + spec_held_globals(
            globals.drop_first(),
            pos + spec_encode_global(globals[0]).len(),
        )
    }
}

/// Globals that are written are those that are read, after `acc`.
pub proof fn lemma_globals_at(s: Seq<u8>, pos: int, globals: Seq<Initialised>, acc: Seq<Global>)
    requires
        forall|i: int| 0 <= i < globals.len() ==> spec_is_expression(#[trigger] globals[i].init),
        spec_holds(s, pos, spec_encode_globals(globals)),
    ensures
        spec_globals_items(s, pos, globals.len(), acc) == Ok::<(Seq<Global>, int), LoaderError>(
            (acc + spec_held_globals(globals, pos), pos + spec_encode_globals(globals).len()),
        ),
    decreases globals.len(),
{
    if globals.len() == 0 {
        assert(acc + spec_held_globals(globals, pos) =~= acc);
    } else {
        let first = spec_encode_global(globals[0]);
        let rest = globals.drop_first();
        lemma_holds_both(s, pos, first, spec_encode_globals(rest));
        lemma_global_at(s, pos, globals[0]);
        assert forall|i: int| 0 <= i < rest.len() implies spec_is_expression(
            #[trigger] rest[i].init,
        ) by {
            assert(rest[i] == globals[i + 1]);
        }
        let held = spec_held_global(globals[0], pos);
        lemma_globals_at(s, pos + first.len(), rest, acc.push(held));
        assert(acc.push(held) + spec_held_globals(rest, pos + first.len()) =~= acc
            + spec_held_globals(globals, pos));
    }
}

/// A data segment as it is written: the bytes of the expression of its
/// offset and, with it, the index of its memory, where it has them, and
/// its bytes.
pub enum Segment {
    Active { init: Seq<u8>, bytes: Seq<u8> },
    Passive { bytes: Seq<u8> },
    ActiveIn { memory: u32, init: Seq<u8>, bytes: Seq<u8> },
}

/// The bytes of a run of bytes: their number, and the bytes.
pub open spec fn spec_encode_bytes(bytes: Seq<u8>) -> Seq<u8> {
    spec_encode_u32(bytes.len() as u32) + bytes
}

/// The range of a run of `length` bytes whose number stands at `pos`.
pub open spec fn spec_held_bytes(pos: int, length: nat) -> Region {
    (
        (pos + spec_encode_u32(length as u32).len()) as usize,
        (pos + spec_encode_u32(length as u32).len() + length) as usize,
    )
}

/// A run of bytes that is written is found where it stands.
pub proof fn lemma_bytes_at(s: Seq<u8>, pos: int, bytes: Seq<u8>)
    requires
        bytes.len() <= u32::MAX,
        spec_holds(s, pos, spec_encode_bytes(bytes)),
    ensures
        spec_data(s, pos) == Ok::<(Region, int), DecodeError>(
            (spec_held_bytes(pos, bytes.len()), pos + spec_encode_bytes(bytes).len()),
        ),
{
    lemma_holds_both(s, pos, spec_encode_u32(bytes.len() as u32), bytes);
    lemma_unsigned_at(s, pos, bytes.len() as u32);
}

/// The bytes of a data segment: its form, the index of its memory and the
/// expression of its offset, where it has them, and its bytes.
pub open spec fn spec_encode_segment(segment: Segment) -> Seq<u8> {
    match segment {
        Segment::Active { init, bytes } => seq![0u8] + init + spec_encode_bytes(bytes),
        Segment::Passive { bytes } => seq![1u8] + spec_encode_bytes(bytes),
        Segment::ActiveIn { memory, init, bytes } => seq![2u8] + spec_encode_u32(memory) + init
            + spec_encode_bytes(bytes),
    }
}

/// Whether a data segment can be written: its offset is an expression,
/// and its bytes are counted in 32 bits.
pub open spec fn spec_valid_segment(segment: Segment) -> bool {
    match segment {
        Segment::Active { init, bytes } => spec_is_expression(init) && bytes.len() <= u32::MAX,
        Segment::Passive { bytes } => bytes.len() <= u32::MAX,
        Segment::ActiveIn { memory, init, bytes } => spec_is_expression(init) && bytes.len()
            <= u32::MAX,
    }
}

/// The data segment as the module holds it where its bytes stand at `pos`.
pub open spec fn spec_held_segment(segment: Segment, pos: int) -> Data {
    match segment {
        Segment::Active { init, bytes } => Data::Active {
            expr: spec_held_expression(pos + 1, init.len()),
            data: spec_held_bytes(pos + 1 + init.len(), bytes.len()),
        },
        Segment::Passive { bytes } => Data::Passive { data: spec_held_bytes(pos + 1, bytes.len()) },
        Segment::ActiveIn { memory, init, bytes } => Data::ActiveMemIdx {
            memidx: memory,
            expr: spec_held_expression(pos + 1 + spec_encode_u32(memory).len(), init.len()),
            data: spec_held_bytes(
                pos + 1 + spec_encode_u32(memory).len() + init.len(),
                bytes.len(),
            ),
        },
    }
}

/// A data segment that is written is the data segment that is read.
pub proof fn lemma_segment_at(s: Seq<u8>, pos: int, segment: Segment)
    requires
        spec_valid_segment(segment),
        spec_holds(s, pos, spec_encode_segment(segment)),
    ensures
        spec_data_segment(s, pos) == Ok::<(Data, int), LoaderError>(
            (spec_held_segment(segment, pos), pos + spec_encode_segment(segment).len()),
        ),
{
    assert(spec_encode_unsigned(0) =~= seq![0u8]);
    assert(spec_encode_unsigned(1) =~= seq![1u8]);
    assert(spec_encode_unsigned(2) =~= seq![2u8]);
    match segment {
        Segment::Active { init, bytes } => {
            lemma_holds_both(s, pos, seq![0u8] + init, spec_encode_bytes(bytes));
            lemma_holds_both(s, pos, seq![0u8], init);
            lemma_unsigned_at(s, pos, 0);
            lemma_expression_at(s, pos + 1, init);
            lemma_bytes_at(s, pos + 1 + init.len(), bytes);
        },
        Segment::Passive { bytes } => {
            lemma_holds_both(s, pos, seq![1u8], spec_encode_bytes(bytes));
            lemma_unsigned_at(s, pos, 1);
            lemma_bytes_at(s, pos + 1, bytes);
        },
        Segment::ActiveIn { memory, init, bytes } => {
            let index = spec_encode_u32(memory);
            lemma_holds_both(s, pos, seq![2u8] + index + init, spec_encode_bytes(bytes));
            lemma_holds_both(s, pos, seq![2u8] + index, init);
            lemma_holds_both(s, pos, seq![2u8], index);
            lemma_unsigned_at(s, pos, 2);
            lemma_unsigned_at(s, pos + 1, memory);
            lemma_expression_at(s, pos + 1 + index.len(), init);
            lemma_bytes_at(s, pos + 1 + index.len() + init.len(), bytes);
        },
    }
}

/// The bytes of data segments, one after the other.
pub open spec fn spec_encode_segments(segments: Seq<Segment>) -> Seq<u8>
    decreases segments.len(),
{
    if segments.len() == 0 {
        Seq::empty()
    } else {
        spec_encode_segment(segments[0]) + spec_encode_segments(segments.drop_first())
    }
}

/// The data segments as the module holds them where their bytes stand
/// from `pos` on.
pub open spec fn spec_held_segments(segments: Seq<Segment>, pos: int) -> Seq<Data>
    decreases segments.len(),
{
    if segments.len() == 0 {
        Seq::empty()
    } else {
        seq![spec_held_segment(segments[0], pos)] + spec_held_segments(
            segments.drop_first(),
            pos + spec_encode_segment(segments[0]).len(),
        )
    }
}

/// Data segments that are written are those that are read, after `acc`.
pub proof fn lemma_segments_at(s: Seq<u8>, pos: int, segments: Seq<Segment>, acc: Seq<Data>)
    requires
        forall|i: int| 0 <= i < segments.len() ==> spec_valid_segment(#[trigger] segments[i]),
        spec_holds(s, pos, spec_encode_segments(segments)),
    ensures
        spec_data_segments_items(s, pos, segments.len(), acc) == Ok::<
            (Seq<Data>, int),
            LoaderError,
        >((acc + spec_held_segments(segments, pos), pos + spec_encode_segments(segments).len())),
    decreases segments.len(),
{
    if segments.len() == 0 {
        assert(acc + spec_held_segments(segments, pos) =~= acc);
    } else {
        let first = spec_encode_segment(segments[0]);
        let rest = segments.drop_first();
        lemma_holds_both(s, pos, first, spec_encode_segments(rest));
        lemma_segment_at(s, pos, segments[0]);
        assert forall|i: int| 0 <= i < rest.len() implies spec_valid_segment(
            #[trigger] rest[i],
        ) by {
            assert(rest[i] == segments[i + 1]);
        }
        let held = spec_held_segment(segments[0], pos);
        lemma_segments_at(s, pos + first.len(), rest, acc.push(held));
        assert(acc.push(held) + spec_held_segments(rest, pos + first.len()) =~= acc
            + spec_held_segments(segments, pos));
    }
}

/// Integers of 32 bits that are written are those that are read, after
/// `acc`.
pub proof fn lemma_numbers_at(s: Seq<u8>, pos: int, numbers: Seq<u32>, acc: Seq<u32>)
    requires
        spec_holds(s, pos, spec_encode_indices(numbers)),
    ensures
        spec_items_varu32(s, pos, numbers.len(), acc) == Ok::<(Seq<u32>, int), DecodeError>(
            (acc + numbers, pos + spec_encode_indices(numbers).len()),
        ),
    decreases numbers.len(),
{
    if numbers.len() == 0 {
        assert(acc + numbers =~= acc);
    } else {
        let first = spec_encode_u32(numbers[0]);
        let rest = numbers.drop_first();
        lemma_holds_both(s, pos, first, spec_encode_indices(rest));
        lemma_unsigned_at(s, pos, numbers[0]);
        lemma_numbers_at(s, pos + first.len(), rest, acc.push(numbers[0]));
        assert(acc.push(numbers[0]) + rest =~= acc + numbers);
    }
}

/// The bytes of expressions, one after the other.
pub open spec fn spec_encode_expressions(expressions: Seq<Seq<u8>>) -> Seq<u8>
    decreases expressions.len(),
{
    if expressions.len() == 0 {
        Seq::empty()
    } else {
        expressions[0] + spec_encode_expressions(expressions.drop_first())
    }
}

/// The ranges of expressions whose bytes stand from `pos` on.
pub open spec fn spec_held_expressions(expressions: Seq<Seq<u8>>, pos: int) -> Seq<Region>
    decreases expressions.len(),
{
    if expressions.len() == 0 {
        Seq::empty()
    } else {
        seq![spec_held_expression(pos, expressions[0].len())] + spec_held_expressions(
            expressions.drop_first(),
            pos + expressions[0].len(),
        )
    }
}

/// Expressions that are written are found where they stand, after `acc`.
pub proof fn lemma_expressions_at(
    s: Seq<u8>,
    pos: int,
    expressions: Seq<Seq<u8>>,
    acc: Seq<Region>,
)
    requires
        forall|i: int| 0 <= i < expressions.len() ==> spec_is_expression(#[trigger] expressions[i]),
        spec_holds(s, pos, spec_encode_expressions(expressions)),
    ensures
        spec_exprs_items(s, pos, expressions.len(), acc) == Ok::<(Seq<Region>, int), LoaderError>(
            (
                acc + spec_held_expressions(expressions, pos),
                pos + spec_encode_expressions(expressions).len(),
            ),
        ),
    decreases expressions.len(),
{
    if expressions.len() == 0 {
        assert(acc + spec_held_expressions(expressions, pos) =~= acc);
    } else {
        let first = expressions[0];
        let rest = expressions.drop_first();
        lemma_holds_both(s, pos, first, spec_encode_expressions(rest));
        lemma_expression_at(s, pos, first);
        assert forall|i: int| 0 <= i < rest.len() implies spec_is_expression(#[trigger] rest[i]) by {
            assert(rest[i] == expressions[i + 1]);
        }
        let held = spec_held_expression(pos, first.len());
        lemma_expressions_at(s, pos + first.len(), rest, acc.push(held));
        assert(acc.push(held) + spec_held_expressions(rest, pos + first.len()) =~= acc
            + spec_held_expressions(expressions, pos));
    }
}

/// What an element segment holds, as it is written: function indices, or
/// the bytes of expressions.
pub enum Payload {
    Functions(Seq<u32>),
    Expressions(Seq<Seq<u8>>),
}

/// The mode of an element segment as it is written; an active one with
/// the index of its table and the bytes of the expression of its offset.
pub enum Placing {
    Passive,
    Active { table: u32, init: Seq<u8> },
    Declarative,
}

/// An element segment as it is written.
pub struct Elemental {
    pub reftype: ReferenceType,
    pub placing: Placing,
    pub payload: Payload,
}

/// The flags of an element segment: 1 for a passive one, 2 for an active
/// one, 3 for a declarative one, and 4 more where it holds expressions.
pub open spec fn spec_element_flags(e: Elemental) -> u8 {
    let base: u8 = match e.placing {
        Placing::Passive => 1u8,
        Placing::Active { .. } => 2u8,
        Placing::Declarative => 3u8,
    };
    if e.payload is Expressions {
        (base + 4) as u8
    } else {
        base
    }
}

/// The byte of the kind of the elements: 0 where function indices stand
/// in a segment that is not passive, else the byte of the reference type.
pub open spec fn spec_element_kind(e: Elemental) -> u8 {
    if e.payload is Functions && !(e.placing is Passive) {
        0
    } else {
        spec_reference_byte(e.reftype)
    }
}

/// The bytes of the head of an element segment, behind its flags.
pub open spec fn spec_encode_element_head(e: Elemental) -> Seq<u8> {
    match e.placing {
        Placing::Active { table, init } => spec_encode_u32(table) + init + seq![
            spec_element_kind(e),
        ],
        _ => seq![spec_element_kind(e)],
    }
}

/// The bytes of what an element segment holds: the number of the items,
/// and the items.
pub open spec fn spec_encode_payload(payload: Payload) -> Seq<u8> {
    match payload {
        Payload::Functions(indices) => spec_encode_list(
            indices.len(),
            spec_encode_indices(indices),
        ),
        Payload::Expressions(expressions) => spec_encode_list(
            expressions.len(),
            spec_encode_expressions(expressions),
        ),
    }
}

/// The bytes of an element segment: its flags, its head and what it
/// holds.
pub open spec fn spec_encode_element(e: Elemental) -> Seq<u8> {
    seq![spec_element_flags(e)] + spec_encode_element_head(e) + spec_encode_payload(e.payload)
}

/// Whether an element segment can be written: its offset and its items
/// are expressions, its items are counted in 32 bits, and function
/// indices stand for function references unless the segment is passive.
pub open spec fn spec_valid_element(e: Elemental) -> bool {
    &&& match e.placing {
        Placing::Active { table, init } => spec_is_expression(init),
        _ => true,
    }
    &&& match e.payload {
        Payload::Functions(indices) => indices.len() <= u32::MAX && (e.placing is Passive
            || e.reftype == ReferenceType::FuncRef),
        Payload::Expressions(expressions) => expressions.len() <= u32::MAX && forall|i: int|
            0 <= i < expressions.len() ==> spec_is_expression(#[trigger] expressions[i]),
    }
}

/// The mode of an element segment as the module holds it where the head
/// of the segment stands at `pos`.
pub open spec fn spec_held_placing(e: Elemental, pos: int) -> ElementMode {
    match e.placing {
        Placing::Passive => ElementMode::Passive,
        Placing::Active { table, init } => ElementMode::Active {
            table_index: table,
            expr: spec_held_expression(pos + spec_encode_u32(table).len(), init.len()),
        },
        Placing::Declarative => ElementMode::Declarative,
    }
}

/// What an element segment holds, as the module holds it where the bytes
/// of it stand at `pos`.
pub open spec fn spec_held_payload(payload: Payload, pos: int) -> ElementsView {
    match payload {
        Payload::Functions(indices) => ElementsView::Function(indices),
        Payload::Expressions(expressions) => ElementsView::Expression(
            spec_held_expressions(
                expressions,
                pos + spec_encode_u32(expressions.len() as u32).len(),
            ),
        ),
    }
}

/// The element segment as the module holds it where its bytes stand at
/// `pos`.
pub open spec fn spec_held_element(e: Elemental, pos: int) -> ElementSegmentView {
    ElementSegmentView {
        reftype: e.reftype,
        elements: spec_held_payload(e.payload, pos + 1 + spec_encode_element_head(e).len()),
        mode: spec_held_placing(e, pos + 1),
    }
}

/// The head of an element segment that is written is the head that is
/// read.
pub proof fn lemma_element_head_at(s: Seq<u8>, pos: int, e: Elemental)
    requires
        spec_valid_element(e),
        spec_holds(s, pos, spec_encode_element_head(e)),
    ensures
        spec_element_head(s, pos, spec_element_flags(e) as u32) == Ok::<
            ((ReferenceType, ElementMode), int),
            LoaderError,
        >(((e.reftype, spec_held_placing(e, pos)), pos + spec_encode_element_head(e).len())),
{
    let kind = seq![spec_element_kind(e)];
    match e.placing {
        Placing::Active { table, init } => {
            let index = spec_encode_u32(table);
            lemma_holds_both(s, pos, index + init, kind);
            lemma_holds_both(s, pos, index, init);
            lemma_unsigned_at(s, pos, table);
            lemma_expression_at(s, pos + index.len(), init);
            let there = pos + index.len() + init.len();
            assert(s[there] == s.subrange(there, there + 1)[0]);
        },
        _ => {
            assert(s[pos] == s.subrange(pos, pos + 1)[0]);
        },
    }
}

/// What an element segment holds is read as it was written.
pub proof fn lemma_payload_at(s: Seq<u8>, pos: int, e: Elemental)
    requires
        spec_valid_element(e),
        spec_holds(s, pos, spec_encode_payload(e.payload)),
    ensures
        spec_element_payload(s, pos, spec_element_flags(e) as u32) == Ok::<
            (ElementsView, int),
            LoaderError,
        >((spec_held_payload(e.payload, pos), pos + spec_encode_payload(e.payload).len())),
{
    match e.payload {
        Payload::Functions(indices) => {
            let number = spec_encode_u32(indices.len() as u32);
            lemma_holds_both(s, pos, number, spec_encode_indices(indices));
            lemma_unsigned_at(s, pos, indices.len() as u32);
            lemma_numbers_at(s, pos + number.len(), indices, Seq::empty());
            assert(Seq::<u32>::empty() + indices =~= indices);
        },
        Payload::Expressions(expressions) => {
            let number = spec_encode_u32(expressions.len() as u32);
            lemma_holds_both(s, pos, number, spec_encode_expressions(expressions));
            lemma_unsigned_at(s, pos, expressions.len() as u32);
            lemma_expressions_at(s, pos + number.len(), expressions, Seq::empty());
            let held = spec_held_expressions(expressions, pos + number.len());
            assert(Seq::<Region>::empty() + held =~= held);
        },
    }
}

/// An element segment that is written is the element segment that is
/// read.
pub proof fn lemma_element_at(s: Seq<u8>, pos: int, e: Elemental)
    requires
        spec_valid_element(e),
        spec_holds(s, pos, spec_encode_element(e)),
    ensures
        spec_element_segment(s, pos) == Ok::<(ElementSegmentView, int), LoaderError>(
            (spec_held_element(e, pos), pos + spec_encode_element(e).len()),
        ),
{
    let flags = spec_element_flags(e);
    let head = spec_encode_element_head(e);
    lemma_holds_both(s, pos, seq![flags] + head, spec_encode_payload(e.payload));
    lemma_holds_both(s, pos, seq![flags], head);
    assert(spec_encode_unsigned(flags as nat) =~= seq![flags]);
    lemma_unsigned_at(s, pos, flags as u32);
    lemma_element_head_at(s, pos + 1, e);
    lemma_payload_at(s, pos + 1 + head.len(), e);
}

/// The bytes of element segments, one after the other.
pub open spec fn spec_encode_elements(elements: Seq<Elemental>) -> Seq<u8>
    decreases elements.len(),
{
    if elements.len() == 0 {
        Seq::empty()
    } else {
        spec_encode_element(elements[0]) + spec_encode_elements(elements.drop_first())
    }
}

/// The element segments as the module holds them where their bytes stand
/// from `pos` on.
pub open spec fn spec_held_elements(elements: Seq<Elemental>, pos: int) -> Seq<ElementSegmentView>
    decreases elements.len(),
{
    if elements.len() == 0 {
        Seq::empty()
    } else {
        seq![spec_held_element(elements[0], pos)] + spec_held_elements(
            elements.drop_first(),
            pos + spec_encode_element(elements[0]).len(),
        )
    }
}

/// Element segments that are written are those that are read, after
/// `acc`.
pub proof fn lemma_elements_at(
    s: Seq<u8>,
    pos: int,
    elements: Seq<Elemental>,
    acc: Seq<ElementSegmentView>,
)
    requires
        forall|i: int| 0 <= i < elements.len() ==> spec_valid_element(#[trigger] elements[i]),
        spec_holds(s, pos, spec_encode_elements(elements)),
    ensures
        spec_element_segments_items(s, pos, elements.len(), acc) == Ok::<
            (Seq<ElementSegmentView>, int),
            LoaderError,
        >((acc + spec_held_elements(elements, pos), pos + spec_encode_elements(elements).len())),
    decreases elements.len(),
{
    if elements.len() == 0 {
        assert(acc + spec_held_elements(elements, pos) =~= acc);
    } else {
        let first = spec_encode_element(elements[0]);
        let rest = elements.drop_first();
        lemma_holds_both(s, pos, first, spec_encode_elements(rest));
        lemma_element_at(s, pos, elements[0]);
        assert forall|i: int| 0 <= i < rest.len() implies spec_valid_element(
            #[trigger] rest[i],
        ) by {
            assert(rest[i] == elements[i + 1]);
        }
        let held = spec_held_element(elements[0], pos);
        lemma_elements_at(s, pos + first.len(), rest, acc.push(held));
        assert(acc.push(held) + spec_held_elements(rest, pos + first.len()) =~= acc
            + spec_held_elements(elements, pos));
    }
}

/// The bytes of a section: its id, the length of its body, and the body.
pub open spec fn spec_encode_section(id: u8, body: Seq<u8>) -> Seq<u8> {
    seq![id] + spec_encode_u32(body.len() as u32) + body
}

/// The body of the type section.
pub open spec fn spec_type_body(types: Seq<FuncTypeView>) -> Seq<u8> {
    spec_encode_list(types.len(), spec_encode_func_types(types))
}

/// The body of the function section.
pub open spec fn spec_function_body(indices: Seq<u32>) -> Seq<u8> {
    spec_encode_list(indices.len(), spec_encode_indices(indices))
}

/// The body of the table section.
pub open spec fn spec_table_body(tables: Seq<Table>) -> Seq<u8> {
    spec_encode_list(tables.len(), spec_encode_tables(tables))
}

/// The body of the memory section.
pub open spec fn spec_memory_body(memories: Seq<MemorySection>) -> Seq<u8> {
    spec_encode_list(memories.len(), spec_encode_memories(memories))
}

/// The body of the import section.
pub open spec fn spec_import_body(imports: Seq<ImportEntryView>) -> Seq<u8> {
    spec_encode_list(imports.len(), spec_encode_imports(imports))
}

/// The body of the global section.
pub open spec fn spec_global_body(globals: Seq<Initialised>) -> Seq<u8> {
    spec_encode_list(globals.len(), spec_encode_globals(globals))
}

/// Where the first item of a section stands, where the section stands at
/// `pos`, its body is `body` and it has `count` items.
pub open spec fn spec_first_item(pos: int, body: Seq<u8>, count: nat) -> int {
    pos + 1 + spec_encode_u32(body.len() as u32).len() + spec_encode_u32(count as u32).len()
}

/// The body of the data section.
pub open spec fn spec_data_body(segments: Seq<Segment>) -> Seq<u8> {
    spec_encode_list(segments.len(), spec_encode_segments(segments))
}

/// The body of the element section.
pub open spec fn spec_element_body(elements: Seq<Elemental>) -> Seq<u8> {
    spec_encode_list(elements.len(), spec_encode_elements(elements))
}

/// The body of the export section.
pub open spec fn spec_export_body(exports: Seq<ExportEntryView>) -> Seq<u8> {
    spec_encode_list(exports.len(), spec_encode_exports(exports))
}

/// The body of the code section.
pub open spec fn spec_code_body(bodies: Seq<Body>) -> Seq<u8> {
    spec_encode_list(bodies.len(), spec_encode_codes(bodies))
}

/// What a module is made of: its function types, its imports, the type
/// indices of its functions, its tables, memories and globals, its
/// exports, its start function, its element segments, the bodies of its
/// functions, and its data segments.
pub struct Written {
    pub types: Seq<FuncTypeView>,
    pub imports: Seq<ImportEntryView>,
    pub functions: Seq<u32>,
    pub tables: Seq<Table>,
    pub memories: Seq<MemorySection>,
    pub globals: Seq<Initialised>,
    pub exports: Seq<ExportEntryView>,
    pub start: Option<u32>,
    pub elements: Seq<Elemental>,
    pub bodies: Seq<Body>,
    pub data: Seq<Segment>,
}

/// The bytes of a module up to its function section: the magic, the
/// version 1, and the type and import sections.
pub open spec fn spec_encode_head(w: Written) -> Seq<u8> {
    seq![0x00u8, 0x61, 0x73, 0x6d, 1, 0, 0, 0] + spec_encode_section(1, spec_type_body(w.types))
        + spec_encode_section(2, spec_import_body(w.imports))
}

/// The bytes of a module up to its export section: the head, and the
/// function, table and memory sections.
pub open spec fn spec_encode_front(w: Written) -> Seq<u8> {
    spec_encode_head(w) + spec_encode_section(3, spec_function_body(w.functions))
        + spec_encode_section(4, spec_table_body(w.tables)) + spec_encode_section(
        5,
        spec_memory_body(w.memories),
    )
}

/// The bytes of the start section, where the module has a start function.
pub open spec fn spec_encode_start(start: Option<u32>) -> Seq<u8> {
    match start {
        Some(index) => spec_encode_section(8, spec_encode_u32(index)),
        None => Seq::empty(),
    }
}

/// The bytes of the global section, of the export section, of the start
/// section, where the module has a start function, and of the element
/// section.
pub open spec fn spec_encode_middle(w: Written) -> Seq<u8> {
    spec_encode_section(6, spec_global_body(w.globals)) + spec_encode_section(
        7,
        spec_export_body(w.exports),
    ) + spec_encode_start(w.start) + spec_encode_section(9, spec_element_body(w.elements))
}

/// Where the first element segment stands in the bytes of a module.
pub open spec fn spec_element_start(w: Written) -> int {
    spec_first_item(
        (spec_encode_front(w).len() + spec_encode_section(6, spec_global_body(w.globals)).len()
            + spec_encode_section(7, spec_export_body(w.exports)).len() + spec_encode_start(
            w.start,
        ).len()) as int,
        spec_element_body(w.elements),
        w.elements.len(),
    )
}

/// Where the first global stands in the bytes of a module.
pub open spec fn spec_global_start(w: Written) -> int {
    spec_first_item(
        spec_encode_front(w).len() as int,
        spec_global_body(w.globals),
        w.globals.len(),
    )
}

/// The bytes of a module: the sections in their canonical order.
pub open spec fn spec_encode_module(w: Written) -> Seq<u8> {
    spec_encode_front(w) + spec_encode_middle(w) + spec_encode_section(
        10,
        spec_code_body(w.bodies),
    ) + spec_encode_section(11, spec_data_body(w.data))
}

/// Where the first data segment stands in the bytes of a module.
pub open spec fn spec_data_start(w: Written) -> int {
    spec_first_item(
        (spec_encode_front(w).len() + spec_encode_middle(w).len() + spec_encode_section(
            10,
            spec_code_body(w.bodies),
        ).len()) as int,
        spec_data_body(w.data),
        w.data.len(),
    )
}

/// Where the first function body stands in the bytes of a module.
pub open spec fn spec_code_start(w: Written) -> int {
    (spec_encode_front(w).len() + spec_encode_middle(w).len() + 1 + spec_encode_u32(
        spec_code_body(w.bodies).len() as u32,
    ).len() + spec_encode_u32(w.bodies.len() as u32).len()) as int
}

/// The module that the bytes of `w` are loaded as.
pub open spec fn spec_held_module(w: Written) -> ModuleView {
    ModuleView {
        types: w.types,
        imports: w.imports,
        functions: spec_held_indices(w.functions),
        tables: w.tables,
        memories: w.memories,
        globals: spec_held_globals(w.globals, spec_global_start(w)),
        exports: w.exports,
        start_function: match w.start {
            Some(index) => Some(index as usize),
            None => None,
        },
        element_segments: spec_held_elements(w.elements, spec_element_start(w)),
        code: spec_held_codes(w.bodies, spec_code_start(w)),
        data: spec_held_segments(w.data, spec_data_start(w)),
        ..spec_empty_module(spec_encode_module(w))
    }
}

/// Whether a module can be written: it has a body for each function,
/// every list and every section is counted in 32 bits, and every item can
/// be declared.
pub open spec fn spec_valid_module(w: Written) -> bool {
    &&& w.functions.len() == w.bodies.len()
    &&& w.types.len() <= u32::MAX && spec_type_body(w.types).len() <= u32::MAX
    &&& w.functions.len() <= u32::MAX && spec_function_body(w.functions).len() <= u32::MAX
    &&& w.tables.len() <= u32::MAX && spec_table_body(w.tables).len() <= u32::MAX
    &&& w.memories.len() <= u32::MAX && spec_memory_body(w.memories).len() <= u32::MAX
    &&& w.imports.len() <= u32::MAX && spec_import_body(w.imports).len() <= u32::MAX
    &&& w.globals.len() <= u32::MAX && spec_global_body(w.globals).len() <= u32::MAX
    &&& w.exports.len() <= u32::MAX && spec_export_body(w.exports).len() <= u32::MAX
    &&& forall|i: int| 0 <= i < w.globals.len() ==> spec_is_expression(#[trigger] w.globals[i].init)
    &&& forall|i: int| 0 <= i < w.imports.len() ==> spec_valid_import(#[trigger] w.imports[i])
    &&& w.elements.len() <= u32::MAX && spec_element_body(w.elements).len() <= u32::MAX
    &&& forall|i: int| 0 <= i < w.elements.len() ==> spec_valid_element(#[trigger] w.elements[i])
    &&& spec_code_body(w.bodies).len() <= u32::MAX
    &&& w.data.len() <= u32::MAX && spec_data_body(w.data).len() <= u32::MAX
    &&& forall|i: int| 0 <= i < w.data.len() ==> spec_valid_segment(#[trigger] w.data[i])
    &&& forall|i: int| 0 <= i < w.exports.len() ==> spec_valid_export(#[trigger] w.exports[i])
    &&& forall|i: int| 0 <= i < w.types.len() ==> spec_valid_func_type(#[trigger] w.types[i])
    &&& forall|i: int| 0 <= i < w.tables.len() ==> spec_valid_limits(#[trigger] w.tables[i].limits)
    &&& forall|i: int|
        0 <= i < w.memories.len() ==> spec_valid_limits(#[trigger] w.memories[i].limits)
    &&& forall|i: int| 0 <= i < w.bodies.len() ==> spec_valid_body(#[trigger] w.bodies[i])
}

/// The head of a section that is written is read as its id and the length
/// of its body, and the body stands behind it.
proof fn lemma_section_head_at(s: Seq<u8>, pos: int, id: u8, body: Seq<u8>)
    requires
        body.len() <= u32::MAX,
        spec_holds(s, pos, spec_encode_section(id, body)),
    ensures
        spec_u8(s, pos) == Ok::<(u8, int), DecodeError>((id, pos + 1)),
        spec_varuint32(s, pos + 1) == Ok::<(u32, int), DecodeError>(
            (body.len() as u32, pos + 1 + spec_encode_u32(body.len() as u32).len()),
        ),
        spec_holds(s, pos + 1 + spec_encode_u32(body.len() as u32).len(), body),
        spec_encode_section(id, body).len() == 1 + spec_encode_u32(body.len() as u32).len()
            + body.len(),
{
    let length = spec_encode_u32(body.len() as u32);
    lemma_holds_both(s, pos, seq![id] + length, body);
    lemma_holds_both(s, pos, seq![id], length);
    assert(s[pos] == s.subrange(pos, pos + 1)[0]);
    lemma_unsigned_at(s, pos + 1, body.len() as u32);
}

/// A type section that is written is read as the function types of the
/// module, and the cursor stops behind it.
pub proof fn lemma_type_section_at(
    s: Seq<u8>,
    pos: int,
    rank: u8,
    m: ModuleView,
    count: Option<u32>,
    types: Seq<FuncTypeView>,
)
    requires
        rank < 1,
        types.len() <= u32::MAX,
        spec_type_body(types).len() <= u32::MAX,
        forall|i: int| 0 <= i < types.len() ==> spec_valid_func_type(#[trigger] types[i]),
        spec_holds(s, pos, spec_encode_section(1, spec_type_body(types))),
    ensures
        spec_section(s, pos, rank, m, count) == Ok::<
            (ModuleView, Option<u32>, u8, int),
            LoaderError,
        >(
            (
                ModuleView { types, ..m },
                count,
                1,
                pos + spec_encode_section(1, spec_type_body(types)).len(),
            ),
        ),
{
    let body = spec_type_body(types);
    let number = spec_encode_u32(types.len() as u32);
    lemma_section_head_at(s, pos, 1, body);
    let start: int = pos + 1 + spec_encode_u32(body.len() as u32).len();
    lemma_holds_both(s, start, number, spec_encode_func_types(types));
    lemma_unsigned_at(s, start, types.len() as u32);
    lemma_func_types_at(s, start + number.len(), types, Seq::empty());
    assert(Seq::<FuncTypeView>::empty() + types =~= types);
    assert(spec_func_types(s, start) == Ok::<(Seq<FuncTypeView>, int), LoaderError>(
        (types, start + body.len()),
    ));
}

/// A table section that is written is read as the tables of the module,
/// and the cursor stops behind it.
pub proof fn lemma_table_section_at(
    s: Seq<u8>,
    pos: int,
    rank: u8,
    m: ModuleView,
    count: Option<u32>,
    tables: Seq<Table>,
)
    requires
        rank < 4,
        tables.len() <= u32::MAX,
        spec_table_body(tables).len() <= u32::MAX,
        forall|i: int| 0 <= i < tables.len() ==> spec_valid_limits(#[trigger] tables[i].limits),
        spec_holds(s, pos, spec_encode_section(4, spec_table_body(tables))),
    ensures
        spec_section(s, pos, rank, m, count) == Ok::<
            (ModuleView, Option<u32>, u8, int),
            LoaderError,
        >(
            (
                ModuleView { tables, ..m },
                count,
                4,
                pos + spec_encode_section(4, spec_table_body(tables)).len(),
            ),
        ),
{
    let body = spec_table_body(tables);
    let number = spec_encode_u32(tables.len() as u32);
    lemma_section_head_at(s, pos, 4, body);
    let start: int = pos + 1 + spec_encode_u32(body.len() as u32).len();
    lemma_holds_both(s, start, number, spec_encode_tables(tables));
    lemma_unsigned_at(s, start, tables.len() as u32);
    lemma_tables_at(s, start + number.len(), tables, Seq::empty());
    assert(Seq::<Table>::empty() + tables =~= tables);
    assert(spec_tables(s, start) == Ok::<(Seq<Table>, int), LoaderError>(
        (tables, start + body.len()),
    ));
}

/// A memory section that is written is read as the memories of the
/// module, and the cursor stops behind it.
pub proof fn lemma_memory_section_at(
    s: Seq<u8>,
    pos: int,
    rank: u8,
    m: ModuleView,
    count: Option<u32>,
    memories: Seq<MemorySection>,
)
    requires
        rank < 5,
        memories.len() <= u32::MAX,
        spec_memory_body(memories).len() <= u32::MAX,
        forall|i: int| 0 <= i < memories.len() ==> spec_valid_limits(#[trigger] memories[i].limits),
        spec_holds(s, pos, spec_encode_section(5, spec_memory_body(memories))),
    ensures
        spec_section(s, pos, rank, m, count) == Ok::<
            (ModuleView, Option<u32>, u8, int),
            LoaderError,
        >(
            (
                ModuleView { memories, ..m },
                count,
                5,
                pos + spec_encode_section(5, spec_memory_body(memories)).len(),
            ),
        ),
{
    let body = spec_memory_body(memories);
    let number = spec_encode_u32(memories.len() as u32);
    lemma_section_head_at(s, pos, 5, body);
    let start: int = pos + 1 + spec_encode_u32(body.len() as u32).len();
    lemma_holds_both(s, start, number, spec_encode_memories(memories));
    lemma_unsigned_at(s, start, memories.len() as u32);
    lemma_memories_at(s, start + number.len(), memories, Seq::empty());
    assert(Seq::<MemorySection>::empty() + memories =~= memories);
    assert(spec_memories(s, start) == Ok::<(Seq<MemorySection>, int), LoaderError>(
        (memories, start + body.len()),
    ));
}

/// A function section that is written is read as the type indices of the
/// functions, and the cursor stops behind it.
pub proof fn lemma_function_section_at(
    s: Seq<u8>,
    pos: int,
    rank: u8,
    m: ModuleView,
    count: Option<u32>,
    indices: Seq<u32>,
)
    requires
        rank < 3,
        indices.len() <= u32::MAX,
        spec_function_body(indices).len() <= u32::MAX,
        spec_holds(s, pos, spec_encode_section(3, spec_function_body(indices))),
    ensures
        spec_section(s, pos, rank, m, count) == Ok::<
            (ModuleView, Option<u32>, u8, int),
            LoaderError,
        >(
            (
                ModuleView { functions: spec_held_indices(indices), ..m },
                count,
                3,
                pos + spec_encode_section(3, spec_function_body(indices)).len(),
            ),
        ),
{
    let body = spec_function_body(indices);
    let number = spec_encode_u32(indices.len() as u32);
    lemma_section_head_at(s, pos, 3, body);
    let start: int = pos + 1 + spec_encode_u32(body.len() as u32).len();
    lemma_holds_both(s, start, number, spec_encode_indices(indices));
    lemma_unsigned_at(s, start, indices.len() as u32);
    lemma_indices_at(s, start + number.len(), indices, Seq::empty());
    assert(Seq::<usize>::empty() + spec_held_indices(indices) =~= spec_held_indices(indices));
    assert(spec_function_indices(s, start) == Ok::<(Seq<usize>, int), LoaderError>(
        (spec_held_indices(indices), start + body.len()),
    ));
}

/// An import section that is written is read as the imports of the
/// module, and the cursor stops behind it.
pub proof fn lemma_import_section_at(
    s: Seq<u8>,
    pos: int,
    rank: u8,
    m: ModuleView,
    count: Option<u32>,
    imports: Seq<ImportEntryView>,
)
    requires
        rank < 2,
        imports.len() <= u32::MAX,
        spec_import_body(imports).len() <= u32::MAX,
        forall|i: int| 0 <= i < imports.len() ==> spec_valid_import(#[trigger] imports[i]),
        spec_holds(s, pos, spec_encode_section(2, spec_import_body(imports))),
    ensures
        spec_section(s, pos, rank, m, count) == Ok::<
            (ModuleView, Option<u32>, u8, int),
            LoaderError,
        >(
            (
                ModuleView { imports, ..m },
                count,
                2,
                pos + spec_encode_section(2, spec_import_body(imports)).len(),
            ),
        ),
{
    let body = spec_import_body(imports);
    let number = spec_encode_u32(imports.len() as u32);
    lemma_section_head_at(s, pos, 2, body);
    let start: int = pos + 1 + spec_encode_u32(body.len() as u32).len();
    lemma_holds_both(s, start, number, spec_encode_imports(imports));
    lemma_unsigned_at(s, start, imports.len() as u32);
    lemma_imports_at(s, start + number.len(), imports, Seq::empty());
    assert(Seq::<ImportEntryView>::empty() + imports =~= imports);
    assert(spec_imports(s, start) == Ok::<(Seq<ImportEntryView>, int), LoaderError>(
        (imports, start + body.len()),
    ));
}

/// A global section that is written is read as the globals of the
/// module, and the cursor stops behind it.
pub proof fn lemma_global_section_at(
    s: Seq<u8>,
    pos: int,
    rank: u8,
    m: ModuleView,
    count: Option<u32>,
    globals: Seq<Initialised>,
)
    requires
        rank < 6,
        globals.len() <= u32::MAX,
        spec_global_body(globals).len() <= u32::MAX,
        forall|i: int| 0 <= i < globals.len() ==> spec_is_expression(#[trigger] globals[i].init),
        spec_holds(s, pos, spec_encode_section(6, spec_global_body(globals))),
    ensures
        spec_section(s, pos, rank, m, count) == Ok::<
            (ModuleView, Option<u32>, u8, int),
            LoaderError,
        >(
            (
                ModuleView {
                    globals: spec_held_globals(
                        globals,
                        spec_first_item(pos, spec_global_body(globals), globals.len()),
                    ),
                    ..m
                },
                count,
                6,
                pos + spec_encode_section(6, spec_global_body(globals)).len(),
            ),
        ),
{
    let body = spec_global_body(globals);
    let number = spec_encode_u32(globals.len() as u32);
    lemma_section_head_at(s, pos, 6, body);
    let start: int = pos + 1 + spec_encode_u32(body.len() as u32).len();
    lemma_holds_both(s, start, number, spec_encode_globals(globals));
    lemma_unsigned_at(s, start, globals.len() as u32);
    lemma_globals_at(s, start + number.len(), globals, Seq::empty());
    let held = spec_held_globals(globals, start + number.len());
    assert(Seq::<Global>::empty() + held =~= held);
    assert(spec_globals(s, start) == Ok::<(Seq<Global>, int), LoaderError>(
        (held, start + body.len()),
    ));
    assert(spec_section_body(s, start, body.len() as u32, SectionType::Global, m, count) == Ok::<
        (ModuleView, Option<u32>, int),
        LoaderError,
    >((ModuleView { globals: held, ..m }, count, start + body.len())));
}

/// An export section that is written is read as the exports of the
/// module, and the cursor stops behind it.
pub proof fn lemma_export_section_at(
    s: Seq<u8>,
    pos: int,
    rank: u8,
    m: ModuleView,
    count: Option<u32>,
    exports: Seq<ExportEntryView>,
)
    requires
        rank < 7,
        exports.len() <= u32::MAX,
        spec_export_body(exports).len() <= u32::MAX,
        forall|i: int| 0 <= i < exports.len() ==> spec_valid_export(#[trigger] exports[i]),
        spec_holds(s, pos, spec_encode_section(7, spec_export_body(exports))),
    ensures
        spec_section(s, pos, rank, m, count) == Ok::<
            (ModuleView, Option<u32>, u8, int),
            LoaderError,
        >(
            (
                ModuleView { exports, ..m },
                count,
                7,
                pos + spec_encode_section(7, spec_export_body(exports)).len(),
            ),
        ),
{
    let body = spec_export_body(exports);
    let number = spec_encode_u32(exports.len() as u32);
    lemma_section_head_at(s, pos, 7, body);
    let start: int = pos + 1 + spec_encode_u32(body.len() as u32).len();
    lemma_holds_both(s, start, number, spec_encode_exports(exports));
    lemma_unsigned_at(s, start, exports.len() as u32);
    lemma_exports_at(s, start + number.len(), exports, Seq::empty());
    assert(Seq::<ExportEntryView>::empty() + exports =~= exports);
    assert(spec_exports(s, start) == Ok::<(Seq<ExportEntryView>, int), LoaderError>(
        (exports, start + body.len()),
    ));
}

/// A start section that is written is read as the start function, and the
/// cursor stops behind it.
pub proof fn lemma_start_section_at(
    s: Seq<u8>,
    pos: int,
    rank: u8,
    m: ModuleView,
    count: Option<u32>,
    index: u32,
)
    requires
        rank < 8,
        spec_holds(s, pos, spec_encode_section(8, spec_encode_u32(index))),
    ensures
        spec_section(s, pos, rank, m, count) == Ok::<
            (ModuleView, Option<u32>, u8, int),
            LoaderError,
        >(
            (
                ModuleView { start_function: Some(index as usize), ..m },
                count,
                8,
                pos + spec_encode_section(8, spec_encode_u32(index)).len(),
            ),
        ),
{
    let body = spec_encode_u32(index);
    lemma_encoding_is_short(index);
    lemma_section_head_at(s, pos, 8, body);
    let start: int = pos + 1 + spec_encode_u32(body.len() as u32).len();
    lemma_unsigned_at(s, start, index);
}

/// The encoding of a number of 32 bits has at most five bytes.
pub proof fn lemma_encoding_is_short(v: u32)
    ensures
        1 <= spec_encode_u32(v).len() <= 5,
{
    reveal_with_fuel(spec_encode_unsigned, 6);
    let n = v as nat;
    assert(n / 128 / 128 / 128 / 128 < 128) by (nonlinear_arith)
        requires
            n <= 0xffff_ffff,
    ;
}

/// A list of function bodies that is written is the list that is read.
pub proof fn lemma_code_list_at(s: Seq<u8>, pos: int, bodies: Seq<Body>)
    requires
        bodies.len() <= u32::MAX,
        forall|i: int| 0 <= i < bodies.len() ==> spec_valid_body(#[trigger] bodies[i]),
        spec_holds(s, pos, spec_code_body(bodies)),
    ensures
        spec_code_entries(s, pos) == Ok::<(Seq<CodeView>, int), LoaderError>(
            (
                spec_held_codes(bodies, pos + spec_encode_u32(bodies.len() as u32).len()),
                pos + spec_code_body(bodies).len(),
            ),
        ),
{
    let number = spec_encode_u32(bodies.len() as u32);
    lemma_holds_both(s, pos, number, spec_encode_codes(bodies));
    lemma_unsigned_at(s, pos, bodies.len() as u32);
    lemma_codes_at(s, pos + number.len(), bodies, Seq::empty());
    let held = spec_held_codes(bodies, pos + number.len());
    assert(Seq::<CodeView>::empty() + held =~= held);
}

/// A code section that is written is read as the bodies of the functions,
/// and the cursor stops behind it.
pub proof fn lemma_code_section_at(
    s: Seq<u8>,
    pos: int,
    rank: u8,
    m: ModuleView,
    count: Option<u32>,
    bodies: Seq<Body>,
)
    requires
        rank < 11,
        bodies.len() <= u32::MAX,
        spec_code_body(bodies).len() <= u32::MAX,
        forall|i: int| 0 <= i < bodies.len() ==> spec_valid_body(#[trigger] bodies[i]),
        spec_holds(s, pos, spec_encode_section(10, spec_code_body(bodies))),
    ensures
        spec_section(s, pos, rank, m, count) == Ok::<
            (ModuleView, Option<u32>, u8, int),
            LoaderError,
        >(
            (
                ModuleView {
                    code: spec_held_codes(bodies, spec_first_body(pos, bodies)),
                    ..m
                },
                count,
                11,
                pos + spec_encode_section(10, spec_code_body(bodies)).len(),
            ),
        ),
{
    let body = spec_code_body(bodies);
    lemma_section_head_at(s, pos, 10, body);
    let start: int = pos + 1 + spec_encode_u32(body.len() as u32).len();
    lemma_code_list_at(s, start, bodies);
    let held = spec_held_codes(bodies, spec_first_body(pos, bodies));
    assert(spec_code_entries(s, start) == Ok::<(Seq<CodeView>, int), LoaderError>(
        (held, start + body.len()),
    ));
    assert(spec_section_body(s, start, body.len() as u32, SectionType::Code, m, count) == Ok::<
        (ModuleView, Option<u32>, int),
        LoaderError,
    >((ModuleView { code: held, ..m }, count, start + body.len())));
}

/// Where the first function body stands in a code section that stands at
/// `pos`.
pub open spec fn spec_first_body(pos: int, bodies: Seq<Body>) -> int {
    pos + 1 + spec_encode_u32(spec_code_body(bodies).len() as u32).len() + spec_encode_u32(
        bodies.len() as u32,
    ).len()
}

/// The type and import sections that are written are read as they were
/// written, and the reading goes on behind them.
pub proof fn lemma_head_at(s: Seq<u8>, w: Written)
    requires
        spec_valid_module(w),
        spec_holds(s, 0, spec_encode_head(w)),
    ensures
        spec_holds(s, 0, seq![0x00u8, 0x61, 0x73, 0x6d, 1, 0, 0, 0]),
        spec_sections(s, 8, 0, spec_empty_module(s), None) == spec_sections(
            s,
            spec_encode_head(w).len() as int,
            2,
            ModuleView { types: w.types, imports: w.imports, ..spec_empty_module(s) },
            None,
        ),
{
    let head = seq![0x00u8, 0x61, 0x73, 0x6d, 1, 0, 0, 0];
    let first = spec_encode_section(1, spec_type_body(w.types));
    let second = spec_encode_section(2, spec_import_body(w.imports));
    lemma_holds_both(s, 0, head + first, second);
    lemma_holds_both(s, 0, head, first);
    let m0 = spec_empty_module(s);
    let m1 = ModuleView { types: w.types, ..m0 };
    let m2 = ModuleView { imports: w.imports, ..m1 };
    let p1: int = 8int + first.len();
    let p2: int = p1 + second.len();
    lemma_type_section_at(s, 8, 0, m0, None, w.types);
    lemma_import_section_at(s, p1, 1, m1, None, w.imports);
    assert(spec_sections(s, p1, 1, m1, None) == spec_sections(s, p2, 2, m2, None));
    assert(spec_sections(s, 8, 0, m0, None) == spec_sections(s, p1, 1, m1, None));
}

/// The function, table and memory sections that are written are read as
/// they were written, and the reading goes on behind them.
pub proof fn lemma_front_at(s: Seq<u8>, pos: int, m: ModuleView, w: Written)
    requires
        spec_valid_module(w),
        spec_holds(
            s,
            pos,
            spec_encode_section(3, spec_function_body(w.functions)) + spec_encode_section(
                4,
                spec_table_body(w.tables),
            ) + spec_encode_section(5, spec_memory_body(w.memories)),
        ),
    ensures
        spec_sections(s, pos, 2, m, None) == spec_sections(
            s,
            pos + spec_encode_section(3, spec_function_body(w.functions)).len()
                + spec_encode_section(4, spec_table_body(w.tables)).len() + spec_encode_section(
                5,
                spec_memory_body(w.memories),
            ).len(),
            5,
            ModuleView {
                functions: spec_held_indices(w.functions),
                tables: w.tables,
                memories: w.memories,
                ..m
            },
            None,
        ),
{
    let second = spec_encode_section(3, spec_function_body(w.functions));
    let third = spec_encode_section(4, spec_table_body(w.tables));
    let fourth = spec_encode_section(5, spec_memory_body(w.memories));
    lemma_holds_both(s, pos, second + third, fourth);
    lemma_holds_both(s, pos, second, third);
    let m2 = ModuleView { functions: spec_held_indices(w.functions), ..m };
    let m3 = ModuleView { tables: w.tables, ..m2 };
    let m4 = ModuleView { memories: w.memories, ..m3 };
    let p2: int = pos + second.len();
    let p3: int = p2 + third.len();
    let p4: int = p3 + fourth.len();
    lemma_function_section_at(s, pos, 2, m, None, w.functions);
    lemma_table_section_at(s, p2, 3, m2, None, w.tables);
    lemma_memory_section_at(s, p3, 4, m3, None, w.memories);
    assert(spec_sections(s, p3, 4, m3, None) == spec_sections(s, p4, 5, m4, None));
    assert(spec_sections(s, p2, 3, m2, None) == spec_sections(s, p3, 4, m3, None));
    assert(spec_sections(s, pos, 2, m, None) == spec_sections(s, p2, 3, m2, None));
}

/// The global section and the export section that are written are read
/// as they were written, and the reading goes on behind them.
pub proof fn lemma_middle_at(
    s: Seq<u8>,
    pos: int,
    m: ModuleView,
    globals: Seq<Initialised>,
    exports: Seq<ExportEntryView>,
)
    requires
        globals.len() <= u32::MAX,
        spec_global_body(globals).len() <= u32::MAX,
        forall|i: int| 0 <= i < globals.len() ==> spec_is_expression(#[trigger] globals[i].init),
        exports.len() <= u32::MAX,
        spec_export_body(exports).len() <= u32::MAX,
        forall|i: int| 0 <= i < exports.len() ==> spec_valid_export(#[trigger] exports[i]),
        spec_holds(
            s,
            pos,
            spec_encode_section(6, spec_global_body(globals)) + spec_encode_section(
                7,
                spec_export_body(exports),
            ),
        ),
    ensures
        spec_sections(s, pos, 5, m, None) == spec_sections(
            s,
            pos + spec_encode_section(6, spec_global_body(globals)).len() + spec_encode_section(
                7,
                spec_export_body(exports),
            ).len(),
            7,
            ModuleView {
                globals: spec_held_globals(
                    globals,
                    spec_first_item(pos, spec_global_body(globals), globals.len()),
                ),
                exports,
                ..m
            },
            None,
        ),
{
    let first = spec_encode_section(6, spec_global_body(globals));
    let second = spec_encode_section(7, spec_export_body(exports));
    lemma_holds_both(s, pos, first, second);
    let valued = ModuleView {
        globals: spec_held_globals(
            globals,
            spec_first_item(pos, spec_global_body(globals), globals.len()),
        ),
        ..m
    };
    let named = ModuleView { exports, ..valued };
    let next: int = pos + first.len();
    let from: int = next + second.len();
    lemma_global_section_at(s, pos, 5, m, None, globals);
    lemma_export_section_at(s, next, 6, valued, None, exports);
    assert(spec_sections(s, next, 6, valued, None) == spec_sections(s, from, 7, named, None));
    assert(spec_sections(s, pos, 5, m, None) == spec_sections(s, next, 6, valued, None));
}

/// A data section that is written is read as the data segments of the
/// module, and the cursor stops behind it.
pub proof fn lemma_data_section_at(
    s: Seq<u8>,
    pos: int,
    rank: u8,
    m: ModuleView,
    count: Option<u32>,
    segments: Seq<Segment>,
)
    requires
        rank < 12,
        segments.len() <= u32::MAX,
        spec_data_body(segments).len() <= u32::MAX,
        forall|i: int| 0 <= i < segments.len() ==> spec_valid_segment(#[trigger] segments[i]),
        spec_holds(s, pos, spec_encode_section(11, spec_data_body(segments))),
    ensures
        spec_section(s, pos, rank, m, count) == Ok::<
            (ModuleView, Option<u32>, u8, int),
            LoaderError,
        >(
            (
                ModuleView {
                    data: spec_held_segments(
                        segments,
                        spec_first_item(pos, spec_data_body(segments), segments.len()),
                    ),
                    ..m
                },
                count,
                12,
                pos + spec_encode_section(11, spec_data_body(segments)).len(),
            ),
        ),
{
    let body = spec_data_body(segments);
    let number = spec_encode_u32(segments.len() as u32);
    lemma_section_head_at(s, pos, 11, body);
    let start: int = pos + 1 + spec_encode_u32(body.len() as u32).len();
    lemma_holds_both(s, start, number, spec_encode_segments(segments));
    lemma_unsigned_at(s, start, segments.len() as u32);
    lemma_segments_at(s, start + number.len(), segments, Seq::empty());
    let held = spec_held_segments(segments, start + number.len());
    assert(Seq::<Data>::empty() + held =~= held);
    assert(spec_data_segments(s, start) == Ok::<(Seq<Data>, int), LoaderError>(
        (held, start + body.len()),
    ));
    assert(spec_section_body(s, start, body.len() as u32, SectionType::Data, m, count) == Ok::<
        (ModuleView, Option<u32>, int),
        LoaderError,
    >((ModuleView { data: held, ..m }, count, start + body.len())));
}

/// An element section that is written is read as the element segments of
/// the module, and the cursor stops behind it.
pub proof fn lemma_element_section_at(
    s: Seq<u8>,
    pos: int,
    rank: u8,
    m: ModuleView,
    count: Option<u32>,
    elements: Seq<Elemental>,
)
    requires
        rank < 9,
        elements.len() <= u32::MAX,
        spec_element_body(elements).len() <= u32::MAX,
        forall|i: int| 0 <= i < elements.len() ==> spec_valid_element(#[trigger] elements[i]),
        spec_holds(s, pos, spec_encode_section(9, spec_element_body(elements))),
    ensures
        spec_section(s, pos, rank, m, count) == Ok::<
            (ModuleView, Option<u32>, u8, int),
            LoaderError,
        >(
            (
                ModuleView {
                    element_segments: spec_held_elements(
                        elements,
                        spec_first_item(pos, spec_element_body(elements), elements.len()),
                    ),
                    ..m
                },
                count,
                9,
                pos + spec_encode_section(9, spec_element_body(elements)).len(),
            ),
        ),
{
    let body = spec_element_body(elements);
    let number = spec_encode_u32(elements.len() as u32);
    lemma_section_head_at(s, pos, 9, body);
    let start: int = pos + 1 + spec_encode_u32(body.len() as u32).len();
    lemma_holds_both(s, start, number, spec_encode_elements(elements));
    lemma_unsigned_at(s, start, elements.len() as u32);
    lemma_elements_at(s, start + number.len(), elements, Seq::empty());
    let held = spec_held_elements(elements, start + number.len());
    assert(Seq::<ElementSegmentView>::empty() + held =~= held);
    assert(spec_element_segments(s, start) == Ok::<(Seq<ElementSegmentView>, int), LoaderError>(
        (held, start + body.len()),
    ));
    assert(spec_section_body(s, start, body.len() as u32, SectionType::Element, m, count) == Ok::<
        (ModuleView, Option<u32>, int),
        LoaderError,
    >((ModuleView { element_segments: held, ..m }, count, start + body.len())));
}

/// The start section, where there is one, and the element section that
/// are written are read as they were written, and the reading goes on
/// behind them.
proof fn lemma_tail_at(
    s: Seq<u8>,
    pos: int,
    m: ModuleView,
    start: Option<u32>,
    elements: Seq<Elemental>,
)
    requires
        elements.len() <= u32::MAX,
        spec_element_body(elements).len() <= u32::MAX,
        forall|i: int| 0 <= i < elements.len() ==> spec_valid_element(#[trigger] elements[i]),
        spec_holds(s, pos, spec_encode_start(start)),
        spec_holds(
            s,
            pos + spec_encode_start(start).len(),
            spec_encode_section(9, spec_element_body(elements)),
        ),
    ensures
        spec_sections(s, pos, 7, m, None) == spec_sections(
            s,
            pos + spec_encode_start(start).len() + spec_encode_section(
                9,
                spec_element_body(elements),
            ).len(),
            9,
            ModuleView {
                start_function: match start {
                    Some(index) => Some(index as usize),
                    None => m.start_function,
                },
                element_segments: spec_held_elements(
                    elements,
                    spec_first_item(
                        pos + spec_encode_start(start).len(),
                        spec_element_body(elements),
                        elements.len(),
                    ),
                ),
                ..m
            },
            None,
        ),
{
    let next: int = pos + spec_encode_start(start).len();
    let end: int = next + spec_encode_section(9, spec_element_body(elements)).len();
    let (after, rank) = match start {
        Some(index) => (ModuleView { start_function: Some(index as usize), ..m }, 8u8),
        None => (m, 7u8),
    };
    match start {
        Some(index) => {
            lemma_start_section_at(s, pos, 7, m, None, index);
            assert(spec_sections(s, pos, 7, m, None) == spec_sections(s, next, 8, after, None));
        },
        None => {},
    }
    lemma_element_section_at(s, next, rank, after, None, elements);
    let last = ModuleView {
        element_segments: spec_held_elements(
            elements,
            spec_first_item(next, spec_element_body(elements), elements.len()),
        ),
        ..after
    };
    assert(spec_sections(s, next, rank, after, None) == spec_sections(s, end, 9, last, None));
}

/// The code section that is written is read as it was written, and the
/// reading goes on behind it.
proof fn lemma_coded_at(s: Seq<u8>, pos: int, m: ModuleView, bodies: Seq<Body>)
    requires
        bodies.len() <= u32::MAX,
        spec_code_body(bodies).len() <= u32::MAX,
        forall|i: int| 0 <= i < bodies.len() ==> spec_valid_body(#[trigger] bodies[i]),
        spec_holds(s, pos, spec_encode_section(10, spec_code_body(bodies))),
    ensures
        spec_sections(s, pos, 9, m, None) == spec_sections(
            s,
            pos + spec_encode_section(10, spec_code_body(bodies)).len(),
            11,
            ModuleView { code: spec_held_codes(bodies, spec_first_body(pos, bodies)), ..m },
            None,
        ),
{
    lemma_code_section_at(s, pos, 9, m, None, bodies);
    let last = ModuleView { code: spec_held_codes(bodies, spec_first_body(pos, bodies)), ..m };
    let end: int = pos + spec_encode_section(10, spec_code_body(bodies)).len();
    assert(spec_sections(s, pos, 9, m, None) == spec_sections(s, end, 11, last, None));
}

/// The data section that is written is read as it was written, and it
/// ends the module.
proof fn lemma_end_at(s: Seq<u8>, pos: int, m: ModuleView, segments: Seq<Segment>)
    requires
        segments.len() <= u32::MAX,
        spec_data_body(segments).len() <= u32::MAX,
        forall|i: int| 0 <= i < segments.len() ==> spec_valid_segment(#[trigger] segments[i]),
        spec_holds(s, pos, spec_encode_section(11, spec_data_body(segments))),
        pos + spec_encode_section(11, spec_data_body(segments)).len() == s.len(),
    ensures
        spec_sections(s, pos, 11, m, None) == Ok::<(ModuleView, Option<u32>), LoaderError>(
            (
                ModuleView {
                    data: spec_held_segments(
                        segments,
                        spec_first_item(pos, spec_data_body(segments), segments.len()),
                    ),
                    ..m
                },
                None,
            ),
        ),
{
    lemma_data_section_at(s, pos, 11, m, None, segments);
    let last = ModuleView {
        data: spec_held_segments(
            segments,
            spec_first_item(pos, spec_data_body(segments), segments.len()),
        ),
        ..m
    };
    let end: int = pos + spec_encode_section(11, spec_data_body(segments)).len();
    assert(spec_sections(s, end, 12, last, None) == Ok::<(ModuleView, Option<u32>), LoaderError>(
        (last, None),
    ));
    assert(spec_sections(s, pos, 11, m, None) == spec_sections(s, end, 12, last, None));
}

/// The function, table and memory sections of a module.
pub open spec fn spec_encode_declared(w: Written) -> Seq<u8> {
    spec_encode_section(3, spec_function_body(w.functions)) + spec_encode_section(
        4,
        spec_table_body(w.tables),
    ) + spec_encode_section(5, spec_memory_body(w.memories))
}

/// The global and export sections of a module.
pub open spec fn spec_encode_named(w: Written) -> Seq<u8> {
    spec_encode_section(6, spec_global_body(w.globals)) + spec_encode_section(
        7,
        spec_export_body(w.exports),
    )
}

/// Bytes that are put together of runs hold each of them in its place,
/// and end with the last.
proof fn lemma_parts(
    a: Seq<u8>,
    b: Seq<u8>,
    c: Seq<u8>,
    d: Seq<u8>,
    e: Seq<u8>,
    f: Seq<u8>,
    g: Seq<u8>,
)
    ensures
        ({
            let s = a + b + (c + d + e) + f + g;
            &&& spec_holds(s, 0, a)
            &&& spec_holds(s, a.len() as int, b)
            &&& spec_holds(s, (a.len() + b.len()) as int, c)
            &&& spec_holds(s, (a.len() + b.len() + c.len()) as int, d)
            &&& spec_holds(s, (a.len() + b.len() + c.len() + d.len()) as int, e)
            &&& spec_holds(s, (a.len() + b.len() + c.len() + d.len() + e.len()) as int, f)
            &&& spec_holds(
                s,
                (a.len() + b.len() + c.len() + d.len() + e.len() + f.len()) as int,
                g,
            )
            &&& s.len() == a.len() + b.len() + c.len() + d.len() + e.len() + f.len() + g.len()
        }),
{
    let s = a + b + (c + d + e) + f + g;
    assert(s.subrange(0, s.len() as int) =~= s);
    assert(s =~= a + (b + (c + (d + (e + (f + g))))));
    lemma_holds_both(s, 0, a, b + (c + (d + (e + (f + g)))));
    lemma_holds_both(s, a.len() as int, b, c + (d + (e + (f + g))));
    lemma_holds_both(s, (a.len() + b.len()) as int, c, d + (e + (f + g)));
    lemma_holds_both(s, (a.len() + b.len() + c.len()) as int, d, e + (f + g));
    lemma_holds_both(s, (a.len() + b.len() + c.len() + d.len()) as int, e, f + g);
    lemma_holds_both(s, (a.len() + b.len() + c.len() + d.len() + e.len()) as int, f, g);
}

/// The bytes of a module hold its parts one after the other, up to the
/// end.
proof fn lemma_layout(w: Written)
    ensures
        ({
            let s = spec_encode_module(w);
            let head = spec_encode_head(w).len() as int;
            let front = head + spec_encode_declared(w).len();
            let from = front + spec_encode_named(w).len();
            let listed = from + spec_encode_start(w.start).len();
            let coded = listed + spec_encode_section(9, spec_element_body(w.elements)).len();
            let last = coded + spec_encode_section(10, spec_code_body(w.bodies)).len();
            &&& spec_holds(s, 0, spec_encode_head(w))
            &&& spec_holds(s, head, spec_encode_declared(w))
            &&& spec_holds(s, front, spec_encode_named(w))
            &&& spec_holds(s, from, spec_encode_start(w.start))
            &&& spec_holds(s, listed, spec_encode_section(9, spec_element_body(w.elements)))
            &&& spec_holds(s, coded, spec_encode_section(10, spec_code_body(w.bodies)))
            &&& spec_holds(s, last, spec_encode_section(11, spec_data_body(w.data)))
            &&& last + spec_encode_section(11, spec_data_body(w.data)).len() == s.len()
            &&& front == spec_encode_front(w).len()
            &&& coded == spec_encode_front(w).len() + spec_encode_middle(w).len()
        }),
{
    lemma_parts(
        spec_encode_head(w),
        spec_encode_declared(w),
        spec_encode_named(w),
        spec_encode_start(w.start),
        spec_encode_section(9, spec_element_body(w.elements)),
        spec_encode_section(10, spec_code_body(w.bodies)),
        spec_encode_section(11, spec_data_body(w.data)),
    );
    lemma_front_is(w);
}

/// The bytes of a module up to its export section are its head and its
/// function, table and memory sections; and those from there up to its
/// code section are its global and export sections, its start section and
/// its element section.
proof fn lemma_front_is(w: Written)
    ensures
        spec_encode_front(w) == spec_encode_head(w) + spec_encode_declared(w),
        spec_encode_middle(w) == spec_encode_named(w) + spec_encode_start(w.start)
            + spec_encode_section(9, spec_element_body(w.elements)),
{
    assert(spec_encode_front(w) =~= spec_encode_head(w) + spec_encode_declared(w));
}

/// The sections of a module that are written are read, from the first to
/// the end of the bytes, as the module that was written.
pub proof fn lemma_sections_round_trip(w: Written)
    requires
        spec_valid_module(w),
    ensures
        ({
            let s = spec_encode_module(w);
            &&& spec_holds(s, 0, seq![0x00u8, 0x61, 0x73, 0x6d, 1, 0, 0, 0])
            &&& spec_sections(s, 8, 0, spec_empty_module(s), None) == Ok::<
                (ModuleView, Option<u32>),
                LoaderError,
            >((spec_held_module(w), None))
        }),
{
    let s = spec_encode_module(w);
    lemma_layout(w);
    let head: int = spec_encode_head(w).len() as int;
    let front: int = head + spec_encode_declared(w).len();
    let from: int = front + spec_encode_named(w).len();
    let listed: int = from + spec_encode_start(w.start).len();
    let coded: int = listed + spec_encode_section(9, spec_element_body(w.elements)).len();
    let last: int = coded + spec_encode_section(10, spec_code_body(w.bodies)).len();
    lemma_head_at(s, w);
    let m2 = ModuleView { types: w.types, imports: w.imports, ..spec_empty_module(s) };
    lemma_front_at(s, head, m2, w);
    let m4 = ModuleView {
        functions: spec_held_indices(w.functions),
        tables: w.tables,
        memories: w.memories,
        ..m2
    };
    lemma_middle_at(s, front, m4, w.globals, w.exports);
    let m6 = ModuleView {
        globals: spec_held_globals(w.globals, spec_global_start(w)),
        exports: w.exports,
        ..m4
    };
    assert(spec_first_item(front, spec_global_body(w.globals), w.globals.len())
        == spec_global_start(w));
    lemma_tail_at(s, from, m6, w.start, w.elements);
    let m8 = ModuleView {
        start_function: match w.start {
            Some(index) => Some(index as usize),
            None => None,
        },
        element_segments: spec_held_elements(w.elements, spec_element_start(w)),
        ..m6
    };
    assert(spec_first_item(listed, spec_element_body(w.elements), w.elements.len())
        == spec_element_start(w));
    lemma_coded_at(s, coded, m8, w.bodies);
    let m9 = ModuleView { code: spec_held_codes(w.bodies, spec_code_start(w)), ..m8 };
    assert(spec_first_body(coded, w.bodies) == spec_code_start(w));
    lemma_end_at(s, last, m9, w.data);
    assert(spec_first_item(last, spec_data_body(w.data), w.data.len()) == spec_data_start(w));
}

/// What is written is what is read: the bytes of a module load as a
/// module with the same function types, imports, type indices, tables,
/// memories, exports and start function, in their order; with the type
/// and the mutability of each global and the range of its expression;
/// with the reference type, the mode and the items of each element
/// segment; with the locals of each function body and the range of its
/// instructions; and with the form of each data segment and the ranges of
/// its offset and of its bytes.
pub proof fn lemma_module_round_trip(w: Written)
    requires
        spec_valid_module(w),
    ensures
        spec_load(spec_encode_module(w)) == Ok::<ModuleView, LoaderError>(spec_held_module(w)),
{
    lemma_sections_round_trip(w);
    lemma_head(spec_encode_module(w));
    lemma_held_lengths(w);
}

/// Bytes that hold the magic and the version 1 begin with them.
proof fn lemma_head(s: Seq<u8>)
    requires
        spec_holds(s, 0, seq![0x00u8, 0x61, 0x73, 0x6d, 1, 0, 0, 0]),
    ensures
        s.len() >= 8,
        s[0] == 0x00 && s[1] == 0x61 && s[2] == 0x73 && s[3] == 0x6d,
        s[4] == 1 && s[5] == 0 && s[6] == 0 && s[7] == 0,
{
    let head = seq![0x00u8, 0x61, 0x73, 0x6d, 1, 0, 0, 0];
    assert forall|i: int| 0 <= i < 8 implies s[i] == head[i] by {
        assert(s[i] == s.subrange(0, 8)[i]);
    }
}

/// The module that is loaded holds as many function bodies as type
/// indices.
proof fn lemma_held_lengths(w: Written)
    requires
        w.functions.len() == w.bodies.len(),
    ensures
        spec_held_module(w).code.len() == spec_held_module(w).functions.len(),
{
    lemma_codes_at_length(w.bodies, spec_code_start(w));
}

/// In the bytes of a module, the range of each function body that the
/// module holds is that of the instructions that were written.
pub proof fn lemma_module_holds_instructions(w: Written, i: int)
    requires
        spec_valid_module(w),
        spec_encode_module(w).len() <= usize::MAX,
        0 <= i < w.bodies.len(),
    ensures
        ({
            let s = spec_encode_module(w);
            let held = spec_held_module(w).code[i];
            &&& held.locals == w.bodies[i].locals
            &&& held.code.0 <= held.code.1 <= s.len()
            &&& s.subrange(held.code.0 as int, held.code.1 as int) == w.bodies[i].instructions
        }),
{
    let s = spec_encode_module(w);
    let front = spec_encode_front(w);
    let start = spec_encode_middle(w);
    let body = spec_code_body(w.bodies);
    let code = spec_encode_section(10, body);
    assert(s.subrange(0, s.len() as int) =~= s);
    let data = spec_encode_section(11, spec_data_body(w.data));
    assert(s =~= front + start + code + data);
    lemma_holds_both(s, 0, front + start + code, data);
    lemma_holds_both(s, 0, front + start, code);
    let pos: int = (front + start).len() as int;
    lemma_section_head_at(s, pos, 10, body);
    let inner: int = pos + 1 + spec_encode_u32(body.len() as u32).len();
    lemma_holds_both(s, inner, spec_encode_u32(w.bodies.len() as u32), spec_encode_codes(w.bodies));
    assert(inner + spec_encode_u32(w.bodies.len() as u32).len() == spec_code_start(w));
    lemma_codes_hold(s, spec_code_start(w), w.bodies, i);
}

/// There are as many held function bodies as written ones.
proof fn lemma_codes_at_length(bodies: Seq<Body>, pos: int)
    ensures
        spec_held_codes(bodies, pos).len() == bodies.len(),
    decreases bodies.len(),
{
    if bodies.len() > 0 {
        lemma_codes_at_length(bodies.drop_first(), pos + spec_encode_code(bodies[0]).len());
    }
}

} // verus!
