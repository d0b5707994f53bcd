//! The module loader: magic, version, then the sections in canonical order.
use crate::decode::{DecodeError, DecodeFailure, Malformed};
use crate::module::leb128::{
    advanced, lemma_varuint_advances, reads, reads_view, reads_views, spec_array_varu32,
    spec_data, spec_expr, spec_string, spec_u8, spec_varuint32, LEB128Reader,
};
use crate::module::{
    import_views, Code, CodeView, Data, ElementMode, ElementSegment, ElementSegmentView, Elements,
    ElementsView, ExportEntry, ExportEntryView, Global, Import, ImportEntry, ImportEntryView,
    ImportExportKind, LoaderError, MemorySection, Module, ModuleView, ReferenceType, Region,
    SectionType, Table,
};
use crate::{lemma_views_push, spec_read_value_type, views, FuncType, FuncTypeView, ValueType};
use vstd::prelude::*;

verus! {

/// The largest number of pages that limits may name.
pub const MAX_MEMORY_SIZE_PAGES: u32 = 0x10000;

/// A reading of the byte level, as a reading of the loader.
pub open spec fn lift<T>(r: Result<(T, int), DecodeError>) -> Result<(T, int), LoaderError> {
    match r {
        Ok(v) => Ok(v),
        Err(e) => Err(LoaderError::DecoderError(e)),
    }
}

fn lift_err<T>(r: Result<T, DecodeError>) -> (l: Result<T, LoaderError>)
    ensures
        l == match r {
            Ok(v) => Ok::<T, LoaderError>(v),
            Err(e) => Err::<T, LoaderError>(LoaderError::DecoderError(e)),
        },
{
    match r {
        Ok(v) => Ok(v),
        Err(e) => Err(LoaderError::DecoderError(e)),
    }
}

/// Limits: a flag, the minimum, and the maximum where the flag is 1; both
/// at most 65,536, the maximum not below the minimum.
pub open spec fn spec_limits(s: Seq<u8>, pos: int) -> Result<((u32, Option<u32>), int), DecodeError> {
    match spec_u8(s, pos) {
        Ok((has_maximum, p)) => match spec_varuint32(s, p) {
            Ok((initial, q)) => if has_maximum == 1 {
                match spec_varuint32(s, q) {
                    Ok((max, r)) => if initial > MAX_MEMORY_SIZE_PAGES || max
                        > MAX_MEMORY_SIZE_PAGES {
                        Err(DecodeError::MalformedMemory(Malformed::LimitsTooLarge))
                    } else if max < initial {
                        Err(DecodeError::MalformedMemory(Malformed::MaximumBelowMinimum))
                    } else {
                        Ok(((initial, Some(max)), r))
                    },
                    Err(e) => Err(e),
                }
            } else if initial > MAX_MEMORY_SIZE_PAGES {
                Err(DecodeError::MalformedMemory(Malformed::LimitsTooLarge))
            } else {
                Ok(((initial, None), q))
            },
            Err(e) => Err(e),
        },
        Err(e) => Err(e),
    }
}

/// Reads limits.
pub fn read_limits(reader: &mut LEB128Reader) -> (r: Result<(u32, Option<u32>), DecodeError>)
    ensures
        reads(*old(reader), *final(reader), r, spec_limits(old(reader).bytes(), old(reader).cursor())),
        advanced(*old(reader), *final(reader), r),
{
    let has_maximum = reader.load_imm_u8()?;
    let initial = reader.load_imm_varuint32()?;
    let maximum = if has_maximum == 1 {
        Some(reader.load_imm_varuint32()?)
    } else {
        None
    };
    if initial > MAX_MEMORY_SIZE_PAGES {
        return Err(DecodeError::MalformedMemory(Malformed::LimitsTooLarge));
    }
    match maximum {
        Some(max) => {
            if max > MAX_MEMORY_SIZE_PAGES {
                return Err(DecodeError::MalformedMemory(Malformed::LimitsTooLarge));
            }
            if max < initial {
                return Err(DecodeError::MalformedMemory(Malformed::MaximumBelowMinimum));
            }
        },
        None => {},
    }
    Ok((initial, maximum))
}

/// A reference type byte, then limits.
pub open spec fn spec_table(s: Seq<u8>, pos: int) -> Result<(Table, int), LoaderError> {
    match lift(spec_u8(s, pos)) {
        Ok((b, p)) => match ReferenceType::spec_from_u8(b) {
            Ok(ty) => match lift(spec_limits(s, p)) {
                Ok((limits, q)) => Ok((Table { ty, limits }, q)),
                Err(e) => Err(e),
            },
            Err(e) => Err(e),
        },
        Err(e) => Err(e),
    }
}

/// Reads the declaration of a table.
pub fn read_table(reader: &mut LEB128Reader) -> (r: Result<Table, LoaderError>)
    ensures
        reads(*old(reader), *final(reader), r, spec_table(old(reader).bytes(), old(reader).cursor())),
        advanced(*old(reader), *final(reader), r),
{
    let ty = lift_err(reader.load_imm_u8())?;
    let ty = ReferenceType::from_u8(ty)?;
    let limits = lift_err(read_limits(reader))?;
    Ok(Table { ty, limits })
}

/// `remaining` value types from `pos` on, after `acc`.
pub open spec fn spec_value_types(s: Seq<u8>, pos: int, remaining: nat, acc: Seq<ValueType>) -> Result<
    (Seq<ValueType>, int),
    LoaderError,
>
    decreases remaining,
{
    if remaining == 0 {
        Ok((acc, pos))
    } else {
        match lift(spec_read_value_type(s, pos)) {
            Ok((v, p)) => spec_value_types(s, p, (remaining - 1) as nat, acc.push(v)),
            Err(e) => Err(e),
        }
    }
}

/// A count, then that many value types.
pub open spec fn spec_value_type_list(s: Seq<u8>, pos: int) -> Result<
    (Seq<ValueType>, int),
    LoaderError,
> {
    match lift(spec_varuint32(s, pos)) {
        Ok((n, p)) => spec_value_types(s, p, n as nat, Seq::empty()),
        Err(e) => Err(e),
    }
}

fn read_value_type_list(reader: &mut LEB128Reader) -> (r: Result<Vec<ValueType>, LoaderError>)
    ensures
        reads_view(
            *old(reader),
            *final(reader),
            r,
            spec_value_type_list(old(reader).bytes(), old(reader).cursor()),
        ),
        advanced(*old(reader), *final(reader), r),
{
    let count = lift_err(reader.load_imm_varuint32())?;
    let ghost first = reader.cursor();
    let mut items: Vec<ValueType> = Vec::new();
    let mut i: u32 = 0;
    while i < count
        invariant
            reader.bytes() == old(reader).bytes(),
            old(reader).cursor() < first <= reader.cursor() <= reader.bytes().len(),
            i <= count,
            spec_value_type_list(old(reader).bytes(), old(reader).cursor()) == spec_value_types(
                reader.bytes(),
                first,
                count as nat,
                Seq::empty(),
            ),
            spec_value_types(reader.bytes(), first, count as nat, Seq::empty())
                == spec_value_types(reader.bytes(), reader.cursor(), (count - i) as nat, items@),
        decreases count - i,
    {
        let item = lift_err(ValueType::read(reader))?;
        items.push(item);
        i = i + 1;
    }
    Ok(items)
}

/// A function type: the marker 0x60, the parameter types, the result types.
pub open spec fn spec_func_type(s: Seq<u8>, pos: int) -> Result<(FuncTypeView, int), LoaderError> {
    match lift(spec_u8(s, pos)) {
        Ok((marker, p)) => if marker != 0x60 {
            Err(
                LoaderError::DecoderError(
                    DecodeError::FailedToDecode(DecodeFailure::InvalidFunctionTypeMarker(marker)),
                ),
            )
        } else {
            match spec_value_type_list(s, p) {
                Ok((params, q)) => match spec_value_type_list(s, q) {
                    Ok((results, r)) => Ok((FuncTypeView { params, results }, r)),
                    Err(e) => Err(e),
                },
                Err(e) => Err(e),
            }
        },
        Err(e) => Err(e),
    }
}

fn read_func_type(reader: &mut LEB128Reader) -> (r: Result<FuncType, LoaderError>)
    ensures
        reads_view(
            *old(reader),
            *final(reader),
            r,
            spec_func_type(old(reader).bytes(), old(reader).cursor()),
        ),
        advanced(*old(reader), *final(reader), r),
{
    let marker = lift_err(reader.load_imm_u8())?;
    if marker != 0x60 {
        return Err(
            LoaderError::DecoderError(
                DecodeError::FailedToDecode(DecodeFailure::InvalidFunctionTypeMarker(marker)),
            ),
        );
    }
    let params = read_value_type_list(reader)?;
    let results = read_value_type_list(reader)?;
    Ok(FuncType { params, results })
}


/// `remaining` function types from `pos` on, after `acc`.
pub open spec fn spec_func_types_items(s: Seq<u8>, pos: int, remaining: nat, acc: Seq<FuncTypeView>) -> Result<
    (Seq<FuncTypeView>, int),
    LoaderError,
>
    decreases remaining,
{
    if remaining == 0 {
        Ok((acc, pos))
    } else {
        match spec_func_type(s, pos) {
            Ok((v, p)) => spec_func_types_items(s, p, (remaining - 1) as nat, acc.push(v)),
            Err(e) => Err(e),
        }
    }
}

/// A count, then that many function types.
pub open spec fn spec_func_types(s: Seq<u8>, pos: int) -> Result<(Seq<FuncTypeView>, int), LoaderError> {
    match lift(spec_varuint32(s, pos)) {
        Ok((n, p)) => spec_func_types_items(s, p, n as nat, Seq::empty()),
        Err(e) => Err(e),
    }
}

fn read_func_types(reader: &mut LEB128Reader) -> (r: Result<Vec<FuncType>, LoaderError>)
    ensures
        reads_views(
            *old(reader),
            *final(reader),
            r,
            spec_func_types(old(reader).bytes(), old(reader).cursor()),
        ),
        advanced(*old(reader), *final(reader), r),
{
    let count = lift_err(reader.load_imm_varuint32())?;
    let ghost first = reader.cursor();
    let mut items: Vec<FuncType> = Vec::new();
    assert(views(items@) =~= Seq::<FuncTypeView>::empty());
    let mut i: u32 = 0;
    while i < count
        invariant
            reader.bytes() == old(reader).bytes(),
            old(reader).cursor() < first <= reader.cursor() <= reader.bytes().len(),
            i <= count,
            spec_func_types(old(reader).bytes(), old(reader).cursor()) == spec_func_types_items(
                reader.bytes(),
                first,
                count as nat,
                Seq::empty(),
            ),
            spec_func_types_items(reader.bytes(), first, count as nat, Seq::empty())
                == spec_func_types_items(
                reader.bytes(),
                reader.cursor(),
                (count - i) as nat,
                views(items@),
            ),
        decreases count - i,
    {
        let item = read_func_type(reader)?;
        proof {
            lemma_views_push(items@, item);
        }
        items.push(item);
        i = i + 1;
    }
    Ok(items)
}
/// The type index of a function.
pub open spec fn spec_function_index(s: Seq<u8>, pos: int) -> Result<(usize, int), LoaderError> {
    match lift(spec_varuint32(s, pos)) {
        Ok((v, p)) => Ok((v as usize, p)),
        Err(e) => Err(e),
    }
}

fn read_function_index(reader: &mut LEB128Reader) -> (r: Result<usize, LoaderError>)
    ensures
        reads(
            *old(reader),
            *final(reader),
            r,
            spec_function_index(old(reader).bytes(), old(reader).cursor()),
        ),
        advanced(*old(reader), *final(reader), r),
{
    let v = lift_err(reader.load_imm_varuint32())?;
    Ok(v as usize)
}


/// `remaining` type indices from `pos` on, after `acc`.
pub open spec fn spec_function_indices_items(s: Seq<u8>, pos: int, remaining: nat, acc: Seq<usize>) -> Result<
    (Seq<usize>, int),
    LoaderError,
>
    decreases remaining,
{
    if remaining == 0 {
        Ok((acc, pos))
    } else {
        match spec_function_index(s, pos) {
            Ok((v, p)) => spec_function_indices_items(s, p, (remaining - 1) as nat, acc.push(v)),
            Err(e) => Err(e),
        }
    }
}

/// A count, then that many type indices.
pub open spec fn spec_function_indices(s: Seq<u8>, pos: int) -> Result<(Seq<usize>, int), LoaderError> {
    match lift(spec_varuint32(s, pos)) {
        Ok((n, p)) => spec_function_indices_items(s, p, n as nat, Seq::empty()),
        Err(e) => Err(e),
    }
}

fn read_function_indices(reader: &mut LEB128Reader) -> (r: Result<Vec<usize>, LoaderError>)
    ensures
        reads_view(
            *old(reader),
            *final(reader),
            r,
            spec_function_indices(old(reader).bytes(), old(reader).cursor()),
        ),
        advanced(*old(reader), *final(reader), r),
{
    let count = lift_err(reader.load_imm_varuint32())?;
    let ghost first = reader.cursor();
    let mut items: Vec<usize> = Vec::new();
    assert(items@ =~= Seq::<usize>::empty());
    let mut i: u32 = 0;
    while i < count
        invariant
            reader.bytes() == old(reader).bytes(),
            old(reader).cursor() < first <= reader.cursor() <= reader.bytes().len(),
            i <= count,
            spec_function_indices(old(reader).bytes(), old(reader).cursor()) == spec_function_indices_items(
                reader.bytes(),
                first,
                count as nat,
                Seq::empty(),
            ),
            spec_function_indices_items(reader.bytes(), first, count as nat, Seq::empty())
                == spec_function_indices_items(
                reader.bytes(),
                reader.cursor(),
                (count - i) as nat,
                items@,
            ),
        decreases count - i,
    {
        let item = read_function_index(reader)?;
        items.push(item);
        i = i + 1;
    }
    Ok(items)
}
/// An export: a name, a kind byte, an index.
pub open spec fn spec_export(s: Seq<u8>, pos: int) -> Result<(ExportEntryView, int), LoaderError> {
    match lift(spec_string(s, pos)) {
        Ok((name, p)) => match lift(spec_u8(s, p)) {
            Ok((b, q)) => match ImportExportKind::spec_from_u8(b) {
                Ok(kind) => match lift(spec_varuint32(s, q)) {
                    Ok((index, r)) => Ok((ExportEntryView { name, kind, index }, r)),
                    Err(e) => Err(e),
                },
                Err(e) => Err(e),
            },
            Err(e) => Err(e),
        },
        Err(e) => Err(e),
    }
}

fn read_export(reader: &mut LEB128Reader) -> (r: Result<ExportEntry, LoaderError>)
    ensures
        reads_view(*old(reader), *final(reader), r, spec_export(old(reader).bytes(), old(reader).cursor())),
        advanced(*old(reader), *final(reader), r),
{
    let name = lift_err(reader.load_string())?;
    let kind = lift_err(reader.load_imm_u8())?;
    let kind = ImportExportKind::from_u8(kind)?;
    let index = lift_err(reader.load_imm_varuint32())?;
    Ok(ExportEntry { name, kind, index })
}


/// `remaining` exports from `pos` on, after `acc`.
pub open spec fn spec_exports_items(s: Seq<u8>, pos: int, remaining: nat, acc: Seq<ExportEntryView>) -> Result<
    (Seq<ExportEntryView>, int),
    LoaderError,
>
    decreases remaining,
{
    if remaining == 0 {
        Ok((acc, pos))
    } else {
        match spec_export(s, pos) {
            Ok((v, p)) => spec_exports_items(s, p, (remaining - 1) as nat, acc.push(v)),
            Err(e) => Err(e),
        }
    }
}

/// A count, then that many exports.
pub open spec fn spec_exports(s: Seq<u8>, pos: int) -> Result<(Seq<ExportEntryView>, int), LoaderError> {
    match lift(spec_varuint32(s, pos)) {
        Ok((n, p)) => spec_exports_items(s, p, n as nat, Seq::empty()),
        Err(e) => Err(e),
    }
}

fn read_exports(reader: &mut LEB128Reader) -> (r: Result<Vec<ExportEntry>, LoaderError>)
    ensures
        reads_views(
            *old(reader),
            *final(reader),
            r,
            spec_exports(old(reader).bytes(), old(reader).cursor()),
        ),
        advanced(*old(reader), *final(reader), r),
{
    let count = lift_err(reader.load_imm_varuint32())?;
    let ghost first = reader.cursor();
    let mut items: Vec<ExportEntry> = Vec::new();
    assert(views(items@) =~= Seq::<ExportEntryView>::empty());
    let mut i: u32 = 0;
    while i < count
        invariant
            reader.bytes() == old(reader).bytes(),
            old(reader).cursor() < first <= reader.cursor() <= reader.bytes().len(),
            i <= count,
            spec_exports(old(reader).bytes(), old(reader).cursor()) == spec_exports_items(
                reader.bytes(),
                first,
                count as nat,
                Seq::empty(),
            ),
            spec_exports_items(reader.bytes(), first, count as nat, Seq::empty())
                == spec_exports_items(
                reader.bytes(),
                reader.cursor(),
                (count - i) as nat,
                views(items@),
            ),
        decreases count - i,
    {
        let item = read_export(reader)?;
        proof {
            lemma_views_push(items@, item);
        }
        items.push(item);
        i = i + 1;
    }
    Ok(items)
}
/// `remaining` groups of locals from `pos` on, after `acc`: each a count
/// below 2^30 and a value type, which stands for that many locals.
pub open spec fn spec_local_groups(s: Seq<u8>, pos: int, remaining: nat, acc: Seq<ValueType>) -> Result<
    (Seq<ValueType>, int),
    LoaderError,
>
    decreases remaining,
{
    if remaining == 0 {
        Ok((acc, pos))
    } else {
        match lift(spec_varuint32(s, pos)) {
            Ok((count, p)) => if count >= 0x4000_0000 {
                Err(
                    LoaderError::DecoderError(
                        DecodeError::FailedToDecode(DecodeFailure::TooManyLocals),
                    ),
                )
            } else {
                match lift(spec_read_value_type(s, p)) {
                    Ok((ty, q)) => spec_local_groups(
                        s,
                        q,
                        (remaining - 1) as nat,
                        acc + Seq::new(count as nat, |i: int| ty),
                    ),
                    Err(e) => Err(e),
                }
            },
            Err(e) => Err(e),
        }
    }
}

/// A function body: its size, the groups of locals, and the range of the
/// instructions, which is what the size leaves after the locals.
pub open spec fn spec_code_entry(s: Seq<u8>, pos: int) -> Result<(CodeView, int), LoaderError> {
    match lift(spec_varuint32(s, pos)) {
        Ok((size, before)) => match lift(spec_varuint32(s, before)) {
            Ok((groups, p)) => match spec_local_groups(s, p, groups as nat, Seq::empty()) {
                Ok((locals, after)) => if after - before > size {
                    Err(
                        LoaderError::DecoderError(
                            DecodeError::FailedToDecode(DecodeFailure::CodeSizeMismatch),
                        ),
                    )
                } else if before + size > s.len() {
                    Err(
                        LoaderError::DecoderError(
                            DecodeError::MalformedMemory(Malformed::UnexpectedEnd),
                        ),
                    )
                } else {
                    Ok(
                        (
                            CodeView { locals, code: (after as usize, (before + size) as usize) },
                            before + size,
                        ),
                    )
                },
                Err(e) => Err(e),
            },
            Err(e) => Err(e),
        },
        Err(e) => Err(e),
    }
}

fn read_local_groups(reader: &mut LEB128Reader, groups: u32) -> (r: Result<
    Vec<ValueType>,
    LoaderError,
>)
    requires
        old(reader).cursor() <= old(reader).bytes().len(),
    ensures
        reads_view(
            *old(reader),
            *final(reader),
            r,
            spec_local_groups(old(reader).bytes(), old(reader).cursor(), groups as nat, Seq::empty()),
        ),
        r is Ok ==> old(reader).cursor() <= final(reader).cursor() <= old(reader).bytes().len(),
{
    let mut locals: Vec<ValueType> = Vec::new();
    let mut i: u32 = 0;
    while i < groups
        invariant
            reader.bytes() == old(reader).bytes(),
            old(reader).cursor() <= reader.cursor() <= reader.bytes().len(),
            i <= groups,
            spec_local_groups(old(reader).bytes(), old(reader).cursor(), groups as nat, Seq::empty())
                == spec_local_groups(reader.bytes(), reader.cursor(), (groups - i) as nat, locals@),
        decreases groups - i,
    {
        let count = lift_err(reader.load_imm_varuint32())?;
        if count >= 0x40000000 {
            return Err(
                LoaderError::DecoderError(DecodeError::FailedToDecode(DecodeFailure::TooManyLocals)),
            );
        }
        let ty = lift_err(ValueType::read(reader))?;
        let ghost before = locals@;
        let mut j: u32 = 0;
        while j < count
            invariant
                j <= count,
                locals@ == before + Seq::new(j as nat, |k: int| ty),
            decreases count - j,
        {
            locals.push(ty);
            j = j + 1;
            assert(locals@ =~= before + Seq::new(j as nat, |k: int| ty));
        }
        assert(locals@ =~= before + Seq::new(count as nat, |k: int| ty));
        i = i + 1;
    }
    Ok(locals)
}

fn read_code_entry(reader: &mut LEB128Reader) -> (r: Result<Code, LoaderError>)
    ensures
        reads_view(
            *old(reader),
            *final(reader),
            r,
            spec_code_entry(old(reader).bytes(), old(reader).cursor()),
        ),
        advanced(*old(reader), *final(reader), r),
{
    let code_size = lift_err(reader.load_imm_varuint32())? as usize;
    let before_locals = reader.position();
    let num_types = lift_err(reader.load_imm_varuint32())?;
    let locals = read_local_groups(reader, num_types)?;
    let start = reader.position();
    if start - before_locals > code_size {
        return Err(
            LoaderError::DecoderError(DecodeError::FailedToDecode(DecodeFailure::CodeSizeMismatch)),
        );
    }
    if reader.len() - before_locals < code_size {
        return Err(
            LoaderError::DecoderError(DecodeError::MalformedMemory(Malformed::UnexpectedEnd)),
        );
    }
    let body = code_size - (start - before_locals);
    reader.advance(body);
    Ok(Code { locals, code: (start, start + body) })
}


/// `remaining` function bodies from `pos` on, after `acc`.
pub open spec fn spec_code_entries_items(s: Seq<u8>, pos: int, remaining: nat, acc: Seq<CodeView>) -> Result<
    (Seq<CodeView>, int),
    LoaderError,
>
    decreases remaining,
{
    if remaining == 0 {
        Ok((acc, pos))
    } else {
        match spec_code_entry(s, pos) {
            Ok((v, p)) => spec_code_entries_items(s, p, (remaining - 1) as nat, acc.push(v)),
            Err(e) => Err(e),
        }
    }
}

/// A count, then that many function bodies.
pub open spec fn spec_code_entries(s: Seq<u8>, pos: int) -> Result<(Seq<CodeView>, int), LoaderError> {
    match lift(spec_varuint32(s, pos)) {
        Ok((n, p)) => spec_code_entries_items(s, p, n as nat, Seq::empty()),
        Err(e) => Err(e),
    }
}

fn read_code_entries(reader: &mut LEB128Reader) -> (r: Result<Vec<Code>, LoaderError>)
    ensures
        reads_views(
            *old(reader),
            *final(reader),
            r,
            spec_code_entries(old(reader).bytes(), old(reader).cursor()),
        ),
        advanced(*old(reader), *final(reader), r),
{
    let count = lift_err(reader.load_imm_varuint32())?;
    let ghost first = reader.cursor();
    let mut items: Vec<Code> = Vec::new();
    assert(views(items@) =~= Seq::<CodeView>::empty());
    let mut i: u32 = 0;
    while i < count
        invariant
            reader.bytes() == old(reader).bytes(),
            old(reader).cursor() < first <= reader.cursor() <= reader.bytes().len(),
            i <= count,
            spec_code_entries(old(reader).bytes(), old(reader).cursor()) == spec_code_entries_items(
                reader.bytes(),
                first,
                count as nat,
                Seq::empty(),
            ),
            spec_code_entries_items(reader.bytes(), first, count as nat, Seq::empty())
                == spec_code_entries_items(
                reader.bytes(),
                reader.cursor(),
                (count - i) as nat,
                views(items@),
            ),
        decreases count - i,
    {
        let item = read_code_entry(reader)?;
        proof {
            lemma_views_push(items@, item);
        }
        items.push(item);
        i = i + 1;
    }
    Ok(items)
}
/// An import: two names, a kind byte, and what that kind asks for.
pub open spec fn spec_import(s: Seq<u8>, pos: int) -> Result<(ImportEntryView, int), LoaderError> {
    match lift(spec_string(s, pos)) {
        Ok((module, p)) => match lift(spec_string(s, p)) {
            Ok((field, q)) => match lift(spec_u8(s, q)) {
                Ok((b, r)) => match ImportExportKind::spec_from_u8(b) {
                    Ok(kind) => match spec_import_descriptor(s, r, kind) {
                        Ok((import, t)) => Ok(((module, field, import), t)),
                        Err(e) => Err(e),
                    },
                    Err(e) => Err(e),
                },
                Err(e) => Err(e),
            },
            Err(e) => Err(e),
        },
        Err(e) => Err(e),
    }
}

/// What an import of the given kind asks for: a type index, a table type,
/// limits, or a value type and whether the global is mutable.
pub open spec fn spec_import_descriptor(s: Seq<u8>, pos: int, kind: ImportExportKind) -> Result<
    (Import, int),
    LoaderError,
> {
    match kind {
        ImportExportKind::Function => match lift(spec_varuint32(s, pos)) {
            Ok((index, p)) => Ok((Import::Func(index), p)),
            Err(e) => Err(e),
        },
        ImportExportKind::Table => match spec_table(s, pos) {
            Ok((table, p)) => Ok((Import::Table(table.ty, table.limits), p)),
            Err(e) => Err(e),
        },
        ImportExportKind::Memory => match lift(spec_limits(s, pos)) {
            Ok((limits, p)) => Ok((Import::Memory(limits), p)),
            Err(e) => Err(e),
        },
        ImportExportKind::Global => match lift(spec_read_value_type(s, pos)) {
            Ok((ty, p)) => match lift(spec_u8(s, p)) {
                Ok((flag, q)) => Ok((Import::Global(ty, flag == 1), q)),
                Err(e) => Err(e),
            },
            Err(e) => Err(e),
        },
    }
}

fn read_import(reader: &mut LEB128Reader) -> (r: Result<ImportEntry, LoaderError>)
    ensures
        final(reader).bytes() == old(reader).bytes(),
        match spec_import(old(reader).bytes(), old(reader).cursor()) {
            Ok((v, p)) => r is Ok && (r->Ok_0.0@, r->Ok_0.1@, r->Ok_0.2) == v
                && final(reader).cursor() == p,
            Err(e) => r == Err::<ImportEntry, LoaderError>(e),
        },
        advanced(*old(reader), *final(reader), r),
{
    let module = lift_err(reader.load_string())?;
    let field = lift_err(reader.load_string())?;
    let kind = lift_err(reader.load_imm_u8())?;
    let kind = ImportExportKind::from_u8(kind)?;
    let import = match kind {
        ImportExportKind::Function => {
            let function_index = lift_err(reader.load_imm_varuint32())?;
            Import::Func(function_index)
        },
        ImportExportKind::Table => {
            let table = read_table(reader)?;
            Import::Table(table.ty, table.limits)
        },
        ImportExportKind::Memory => {
            let limits = lift_err(read_limits(reader))?;
            Import::Memory(limits)
        },
        ImportExportKind::Global => {
            let valtype = lift_err(ValueType::read(reader))?;
            let is_mut = lift_err(reader.load_imm_u8())? == 1;
            Import::Global(valtype, is_mut)
        },
    };
    Ok((module, field, import))
}


/// `remaining` imports from `pos` on, after `acc`.
pub open spec fn spec_imports_items(s: Seq<u8>, pos: int, remaining: nat, acc: Seq<ImportEntryView>) -> Result<
    (Seq<ImportEntryView>, int),
    LoaderError,
>
    decreases remaining,
{
    if remaining == 0 {
        Ok((acc, pos))
    } else {
        match spec_import(s, pos) {
            Ok((v, p)) => spec_imports_items(s, p, (remaining - 1) as nat, acc.push(v)),
            Err(e) => Err(e),
        }
    }
}

/// A count, then that many imports.
pub open spec fn spec_imports(s: Seq<u8>, pos: int) -> Result<(Seq<ImportEntryView>, int), LoaderError> {
    match lift(spec_varuint32(s, pos)) {
        Ok((n, p)) => spec_imports_items(s, p, n as nat, Seq::empty()),
        Err(e) => Err(e),
    }
}

fn read_imports(reader: &mut LEB128Reader) -> (r: Result<Vec<ImportEntry>, LoaderError>)
    ensures
        final(reader).bytes() == old(reader).bytes(),
        match spec_imports(old(reader).bytes(), old(reader).cursor()) {
            Ok((v, p)) => r is Ok && import_views(r->Ok_0@) == v && final(reader).cursor() == p,
            Err(e) => r == Err::<Vec<ImportEntry>, LoaderError>(e),
        },
        advanced(*old(reader), *final(reader), r),
{
    let count = lift_err(reader.load_imm_varuint32())?;
    let ghost first = reader.cursor();
    let mut items: Vec<ImportEntry> = Vec::new();
    assert(import_views(items@) =~= Seq::<ImportEntryView>::empty());
    let mut i: u32 = 0;
    while i < count
        invariant
            reader.bytes() == old(reader).bytes(),
            old(reader).cursor() < first <= reader.cursor() <= reader.bytes().len(),
            i <= count,
            spec_imports(old(reader).bytes(), old(reader).cursor()) == spec_imports_items(
                reader.bytes(),
                first,
                count as nat,
                Seq::empty(),
            ),
            spec_imports_items(reader.bytes(), first, count as nat, Seq::empty())
                == spec_imports_items(
                reader.bytes(),
                reader.cursor(),
                (count - i) as nat,
                import_views(items@),
            ),
        decreases count - i,
    {
        let item = read_import(reader)?;
        let ghost before = items@;
        let ghost added = (item.0@, item.1@, item.2);
        items.push(item);
        proof {
            assert(import_views(items@) =~= import_views(before).push(added));
        }
        i = i + 1;
    }
    Ok(items)
}

/// `remaining` tables from `pos` on, after `acc`.
pub open spec fn spec_tables_items(s: Seq<u8>, pos: int, remaining: nat, acc: Seq<Table>) -> Result<
    (Seq<Table>, int),
    LoaderError,
>
    decreases remaining,
{
    if remaining == 0 {
        Ok((acc, pos))
    } else {
        match spec_table(s, pos) {
            Ok((v, p)) => spec_tables_items(s, p, (remaining - 1) as nat, acc.push(v)),
            Err(e) => Err(e),
        }
    }
}

/// A count, then that many tables.
pub open spec fn spec_tables(s: Seq<u8>, pos: int) -> Result<(Seq<Table>, int), LoaderError> {
    match lift(spec_varuint32(s, pos)) {
        Ok((n, p)) => spec_tables_items(s, p, n as nat, Seq::empty()),
        Err(e) => Err(e),
    }
}

fn read_tables(reader: &mut LEB128Reader) -> (r: Result<Vec<Table>, LoaderError>)
    ensures
        reads_view(
            *old(reader),
            *final(reader),
            r,
            spec_tables(old(reader).bytes(), old(reader).cursor()),
        ),
        advanced(*old(reader), *final(reader), r),
{
    let count = lift_err(reader.load_imm_varuint32())?;
    let ghost first = reader.cursor();
    let mut items: Vec<Table> = Vec::new();
    assert(items@ =~= Seq::<Table>::empty());
    let mut i: u32 = 0;
    while i < count
        invariant
            reader.bytes() == old(reader).bytes(),
            old(reader).cursor() < first <= reader.cursor() <= reader.bytes().len(),
            i <= count,
            spec_tables(old(reader).bytes(), old(reader).cursor()) == spec_tables_items(
                reader.bytes(),
                first,
                count as nat,
                Seq::empty(),
            ),
            spec_tables_items(reader.bytes(), first, count as nat, Seq::empty())
                == spec_tables_items(
                reader.bytes(),
                reader.cursor(),
                (count - i) as nat,
                items@,
            ),
        decreases count - i,
    {
        let item = read_table(reader)?;
        items.push(item);
        i = i + 1;
    }
    Ok(items)
}
/// The range of an expression.
pub open spec fn spec_expr_region(s: Seq<u8>, pos: int) -> Result<(Region, int), LoaderError> {
    lift(spec_expr(s, pos))
}

fn read_expr_region(reader: &mut LEB128Reader) -> (r: Result<Region, LoaderError>)
    ensures
        reads(
            *old(reader),
            *final(reader),
            r,
            spec_expr_region(old(reader).bytes(), old(reader).cursor()),
        ),
        advanced(*old(reader), *final(reader), r),
{
    lift_err(reader.load_expr())
}


/// `remaining` expressions from `pos` on, after `acc`.
pub open spec fn spec_exprs_items(s: Seq<u8>, pos: int, remaining: nat, acc: Seq<Region>) -> Result<
    (Seq<Region>, int),
    LoaderError,
>
    decreases remaining,
{
    if remaining == 0 {
        Ok((acc, pos))
    } else {
        match spec_expr_region(s, pos) {
            Ok((v, p)) => spec_exprs_items(s, p, (remaining - 1) as nat, acc.push(v)),
            Err(e) => Err(e),
        }
    }
}

/// A count, then that many expressions.
pub open spec fn spec_exprs(s: Seq<u8>, pos: int) -> Result<(Seq<Region>, int), LoaderError> {
    match lift(spec_varuint32(s, pos)) {
        Ok((n, p)) => spec_exprs_items(s, p, n as nat, Seq::empty()),
        Err(e) => Err(e),
    }
}

fn read_exprs(reader: &mut LEB128Reader) -> (r: Result<Vec<Region>, LoaderError>)
    ensures
        reads_view(
            *old(reader),
            *final(reader),
            r,
            spec_exprs(old(reader).bytes(), old(reader).cursor()),
        ),
        advanced(*old(reader), *final(reader), r),
{
    let count = lift_err(reader.load_imm_varuint32())?;
    let ghost first = reader.cursor();
    let mut items: Vec<Region> = Vec::new();
    assert(items@ =~= Seq::<Region>::empty());
    let mut i: u32 = 0;
    while i < count
        invariant
            reader.bytes() == old(reader).bytes(),
            old(reader).cursor() < first <= reader.cursor() <= reader.bytes().len(),
            i <= count,
            spec_exprs(old(reader).bytes(), old(reader).cursor()) == spec_exprs_items(
                reader.bytes(),
                first,
                count as nat,
                Seq::empty(),
            ),
            spec_exprs_items(reader.bytes(), first, count as nat, Seq::empty())
                == spec_exprs_items(
                reader.bytes(),
                reader.cursor(),
                (count - i) as nat,
                items@,
            ),
        decreases count - i,
    {
        let item = read_expr_region(reader)?;
        items.push(item);
        i = i + 1;
    }
    Ok(items)
}
/// The reference type that an element kind byte names: function references
/// for 0, else the reference type of that byte.
pub open spec fn spec_element_reftype(s: Seq<u8>, pos: int) -> Result<(ReferenceType, int), LoaderError> {
    match lift(spec_u8(s, pos)) {
        Ok((kind, p)) => if kind == 0 {
            Ok((ReferenceType::FuncRef, p))
        } else {
            match ReferenceType::spec_from_u8(kind) {
                Ok(t) => Ok((t, p)),
                Err(e) => Err(e),
            }
        },
        Err(e) => Err(e),
    }
}

/// An element kind byte that must be 0.
pub open spec fn spec_element_kind_zero(s: Seq<u8>, pos: int) -> Result<(ReferenceType, int), LoaderError> {
    match lift(spec_u8(s, pos)) {
        Ok((kind, p)) => if kind == 0 {
            Ok((ReferenceType::FuncRef, p))
        } else {
            Err(
                LoaderError::DecoderError(
                    DecodeError::FailedToDecode(DecodeFailure::UnsupportedElementKind(kind)),
                ),
            )
        },
        Err(e) => Err(e),
    }
}

/// The payload of an element segment: function indices where bit 2 of the
/// flags is clear, expressions where it is set.
pub open spec fn spec_element_payload(s: Seq<u8>, pos: int, flags: u32) -> Result<
    (ElementsView, int),
    LoaderError,
> {
    if flags < 4 {
        match lift(spec_array_varu32(s, pos)) {
            Ok((v, p)) => Ok((ElementsView::Function(v), p)),
            Err(e) => Err(e),
        }
    } else {
        match spec_exprs(s, pos) {
            Ok((v, p)) => Ok((ElementsView::Expression(v), p)),
            Err(e) => Err(e),
        }
    }
}

/// The head of an element segment with the given flags: a table index
/// where bit 1 is set and bit 0 clear, an offset expression where bit 0 is
/// clear, and an element kind for all flags but 0 and 4.
pub open spec fn spec_element_head(s: Seq<u8>, pos: int, flags: u32) -> Result<
    ((ReferenceType, ElementMode), int),
    LoaderError,
> {
    if flags == 0 || flags == 4 {
        match spec_expr_region(s, pos) {
            Ok((expr, p)) => Ok(
                ((ReferenceType::FuncRef, ElementMode::Active { table_index: 0, expr }), p),
            ),
            Err(e) => Err(e),
        }
    } else if flags == 2 || flags == 6 {
        match lift(spec_varuint32(s, pos)) {
            Ok((table_index, p)) => match spec_expr_region(s, p) {
                Ok((expr, q)) => match (if flags == 2 {
                    spec_element_kind_zero(s, q)
                } else {
                    spec_element_reftype(s, q)
                }) {
                    Ok((reftype, r)) => Ok(((reftype, ElementMode::Active { table_index, expr }), r)),
                    Err(e) => Err(e),
                },
                Err(e) => Err(e),
            },
            Err(e) => Err(e),
        }
    } else {
        match (if flags == 3 {
            spec_element_kind_zero(s, pos)
        } else {
            spec_element_reftype(s, pos)
        }) {
            Ok((reftype, p)) => Ok(
                (
                    (
                        reftype,
                        if flags == 1 || flags == 5 {
                            ElementMode::Passive
                        } else {
                            ElementMode::Declarative
                        },
                    ),
                    p,
                ),
            ),
            Err(e) => Err(e),
        }
    }
}

/// An element segment: flags at most 7, the head, the payload.
pub open spec fn spec_element_segment(s: Seq<u8>, pos: int) -> Result<
    (ElementSegmentView, int),
    LoaderError,
> {
    match lift(spec_varuint32(s, pos)) {
        Ok((flags, p)) => if flags > 7 {
            Err(
                LoaderError::DecoderError(
                    DecodeError::FailedToDecode(DecodeFailure::UnsupportedElementFlags(flags)),
                ),
            )
        } else {
            match spec_element_head(s, p, flags) {
                Ok(((reftype, mode), q)) => match spec_element_payload(s, q, flags) {
                    Ok((elements, r)) => Ok((ElementSegmentView { reftype, elements, mode }, r)),
                    Err(e) => Err(e),
                },
                Err(e) => Err(e),
            }
        },
        Err(e) => Err(e),
    }
}

fn read_element_reftype(reader: &mut LEB128Reader, zero_only: bool) -> (r: Result<
    ReferenceType,
    LoaderError,
>)
    ensures
        reads(
            *old(reader),
            *final(reader),
            r,
            if zero_only {
                spec_element_kind_zero(old(reader).bytes(), old(reader).cursor())
            } else {
                spec_element_reftype(old(reader).bytes(), old(reader).cursor())
            },
        ),
        advanced(*old(reader), *final(reader), r),
{
    let kind = lift_err(reader.load_imm_u8())?;
    if kind == 0 {
        Ok(ReferenceType::FuncRef)
    } else if zero_only {
        Err(
            LoaderError::DecoderError(
                DecodeError::FailedToDecode(DecodeFailure::UnsupportedElementKind(kind)),
            ),
        )
    } else {
        ReferenceType::from_u8(kind)
    }
}

fn read_element_segment(reader: &mut LEB128Reader) -> (r: Result<ElementSegment, LoaderError>)
    ensures
        reads_view(
            *old(reader),
            *final(reader),
            r,
            spec_element_segment(old(reader).bytes(), old(reader).cursor()),
        ),
        advanced(*old(reader), *final(reader), r),
{
    let flags = lift_err(reader.load_imm_varuint32())?;
    if flags > 7 {
        return Err(
            LoaderError::DecoderError(
                DecodeError::FailedToDecode(DecodeFailure::UnsupportedElementFlags(flags)),
            ),
        );
    }
    let (reftype, mode) = if flags == 0 || flags == 4 {
        let expr = read_expr_region(reader)?;
        (ReferenceType::FuncRef, ElementMode::Active { table_index: 0, expr })
    } else if flags == 2 || flags == 6 {
        let table_index = lift_err(reader.load_imm_varuint32())?;
        let expr = read_expr_region(reader)?;
        let reftype = read_element_reftype(reader, flags == 2)?;
        (reftype, ElementMode::Active { table_index, expr })
    } else {
        let reftype = read_element_reftype(reader, flags == 3)?;
        if flags == 1 || flags == 5 {
            (reftype, ElementMode::Passive)
        } else {
            (reftype, ElementMode::Declarative)
        }
    };
    let elements = if flags < 4 {
        proof {
            lemma_varuint_advances(reader.bytes(), reader.cursor());
        }
        let func_indices = lift_err(reader.load_array_varu32())?;
        Elements::Function(func_indices)
    } else {
        let elem_exprs = read_exprs(reader)?;
        Elements::Expression(elem_exprs)
    };
    Ok(ElementSegment { reftype, elements, mode })
}


/// `remaining` element segments from `pos` on, after `acc`.
pub open spec fn spec_element_segments_items(s: Seq<u8>, pos: int, remaining: nat, acc: Seq<ElementSegmentView>) -> Result<
    (Seq<ElementSegmentView>, int),
    LoaderError,
>
    decreases remaining,
{
    if remaining == 0 {
        Ok((acc, pos))
    } else {
        match spec_element_segment(s, pos) {
            Ok((v, p)) => spec_element_segments_items(s, p, (remaining - 1) as nat, acc.push(v)),
            Err(e) => Err(e),
        }
    }
}

/// A count, then that many element segments.
pub open spec fn spec_element_segments(s: Seq<u8>, pos: int) -> Result<(Seq<ElementSegmentView>, int), LoaderError> {
    match lift(spec_varuint32(s, pos)) {
        Ok((n, p)) => spec_element_segments_items(s, p, n as nat, Seq::empty()),
        Err(e) => Err(e),
    }
}

fn read_element_segments(reader: &mut LEB128Reader) -> (r: Result<Vec<ElementSegment>, LoaderError>)
    ensures
        reads_views(
            *old(reader),
            *final(reader),
            r,
            spec_element_segments(old(reader).bytes(), old(reader).cursor()),
        ),
        advanced(*old(reader), *final(reader), r),
{
    let count = lift_err(reader.load_imm_varuint32())?;
    let ghost first = reader.cursor();
    let mut items: Vec<ElementSegment> = Vec::new();
    assert(views(items@) =~= Seq::<ElementSegmentView>::empty());
    let mut i: u32 = 0;
    while i < count
        invariant
            reader.bytes() == old(reader).bytes(),
            old(reader).cursor() < first <= reader.cursor() <= reader.bytes().len(),
            i <= count,
            spec_element_segments(old(reader).bytes(), old(reader).cursor()) == spec_element_segments_items(
                reader.bytes(),
                first,
                count as nat,
                Seq::empty(),
            ),
            spec_element_segments_items(reader.bytes(), first, count as nat, Seq::empty())
                == spec_element_segments_items(
                reader.bytes(),
                reader.cursor(),
                (count - i) as nat,
                views(items@),
            ),
        decreases count - i,
    {
        let item = read_element_segment(reader)?;
        proof {
            lemma_views_push(items@, item);
        }
        items.push(item);
        i = i + 1;
    }
    Ok(items)
}
/// A memory: its limits.
pub open spec fn spec_memory(s: Seq<u8>, pos: int) -> Result<(MemorySection, int), LoaderError> {
    match lift(spec_limits(s, pos)) {
        Ok((limits, p)) => Ok((MemorySection { limits }, p)),
        Err(e) => Err(e),
    }
}

fn read_memory(reader: &mut LEB128Reader) -> (r: Result<MemorySection, LoaderError>)
    ensures
        reads(*old(reader), *final(reader), r, spec_memory(old(reader).bytes(), old(reader).cursor())),
        advanced(*old(reader), *final(reader), r),
{
    let limits = lift_err(read_limits(reader))?;
    Ok(MemorySection { limits })
}


/// `remaining` memories from `pos` on, after `acc`.
pub open spec fn spec_memories_items(s: Seq<u8>, pos: int, remaining: nat, acc: Seq<MemorySection>) -> Result<
    (Seq<MemorySection>, int),
    LoaderError,
>
    decreases remaining,
{
    if remaining == 0 {
        Ok((acc, pos))
    } else {
        match spec_memory(s, pos) {
            Ok((v, p)) => spec_memories_items(s, p, (remaining - 1) as nat, acc.push(v)),
            Err(e) => Err(e),
        }
    }
}

/// A count, then that many memories.
pub open spec fn spec_memories(s: Seq<u8>, pos: int) -> Result<(Seq<MemorySection>, int), LoaderError> {
    match lift(spec_varuint32(s, pos)) {
        Ok((n, p)) => spec_memories_items(s, p, n as nat, Seq::empty()),
        Err(e) => Err(e),
    }
}

fn read_memories(reader: &mut LEB128Reader) -> (r: Result<Vec<MemorySection>, LoaderError>)
    ensures
        reads_view(
            *old(reader),
            *final(reader),
            r,
            spec_memories(old(reader).bytes(), old(reader).cursor()),
        ),
        advanced(*old(reader), *final(reader), r),
{
    let count = lift_err(reader.load_imm_varuint32())?;
    let ghost first = reader.cursor();
    let mut items: Vec<MemorySection> = Vec::new();
    assert(items@ =~= Seq::<MemorySection>::empty());
    let mut i: u32 = 0;
    while i < count
        invariant
            reader.bytes() == old(reader).bytes(),
            old(reader).cursor() < first <= reader.cursor() <= reader.bytes().len(),
            i <= count,
            spec_memories(old(reader).bytes(), old(reader).cursor()) == spec_memories_items(
                reader.bytes(),
                first,
                count as nat,
                Seq::empty(),
            ),
            spec_memories_items(reader.bytes(), first, count as nat, Seq::empty())
                == spec_memories_items(
                reader.bytes(),
                reader.cursor(),
                (count - i) as nat,
                items@,
            ),
        decreases count - i,
    {
        let item = read_memory(reader)?;
        items.push(item);
        i = i + 1;
    }
    Ok(items)
}
/// A global: its value type, whether it is mutable, and the range of the
/// expression that initialises it.
pub open spec fn spec_global(s: Seq<u8>, pos: int) -> Result<(Global, int), LoaderError> {
    match lift(spec_read_value_type(s, pos)) {
        Ok((ty, p)) => match lift(spec_u8(s, p)) {
            Ok((flag, q)) => match spec_expr_region(s, q) {
                Ok((expr, r)) => Ok((Global { ty, mutable: flag == 1, expr }, r)),
                Err(e) => Err(e),
            },
            Err(e) => Err(e),
        },
        Err(e) => Err(e),
    }
}

fn read_global(reader: &mut LEB128Reader) -> (r: Result<Global, LoaderError>)
    ensures
        reads(*old(reader), *final(reader), r, spec_global(old(reader).bytes(), old(reader).cursor())),
        advanced(*old(reader), *final(reader), r),
{
    let ty = lift_err(ValueType::read(reader))?;
    let mut_flag = lift_err(reader.load_imm_u8())?;
    let mutable = mut_flag == 1;
    let expr = read_expr_region(reader)?;
    Ok(Global { ty, mutable, expr })
}


/// `remaining` globals from `pos` on, after `acc`.
pub open spec fn spec_globals_items(s: Seq<u8>, pos: int, remaining: nat, acc: Seq<Global>) -> Result<
    (Seq<Global>, int),
    LoaderError,
>
    decreases remaining,
{
    if remaining == 0 {
        Ok((acc, pos))
    } else {
        match spec_global(s, pos) {
            Ok((v, p)) => spec_globals_items(s, p, (remaining - 1) as nat, acc.push(v)),
            Err(e) => Err(e),
        }
    }
}

/// A count, then that many globals.
pub open spec fn spec_globals(s: Seq<u8>, pos: int) -> Result<(Seq<Global>, int), LoaderError> {
    match lift(spec_varuint32(s, pos)) {
        Ok((n, p)) => spec_globals_items(s, p, n as nat, Seq::empty()),
        Err(e) => Err(e),
    }
}

fn read_globals(reader: &mut LEB128Reader) -> (r: Result<Vec<Global>, LoaderError>)
    ensures
        reads_view(
            *old(reader),
            *final(reader),
            r,
            spec_globals(old(reader).bytes(), old(reader).cursor()),
        ),
        advanced(*old(reader), *final(reader), r),
{
    let count = lift_err(reader.load_imm_varuint32())?;
    let ghost first = reader.cursor();
    let mut items: Vec<Global> = Vec::new();
    assert(items@ =~= Seq::<Global>::empty());
    let mut i: u32 = 0;
    while i < count
        invariant
            reader.bytes() == old(reader).bytes(),
            old(reader).cursor() < first <= reader.cursor() <= reader.bytes().len(),
            i <= count,
            spec_globals(old(reader).bytes(), old(reader).cursor()) == spec_globals_items(
                reader.bytes(),
                first,
                count as nat,
                Seq::empty(),
            ),
            spec_globals_items(reader.bytes(), first, count as nat, Seq::empty())
                == spec_globals_items(
                reader.bytes(),
                reader.cursor(),
                (count - i) as nat,
                items@,
            ),
        decreases count - i,
    {
        let item = read_global(reader)?;
        items.push(item);
        i = i + 1;
    }
    Ok(items)
}
/// A data segment: 0 for active, 1 for passive, 2 for active with a memory
/// index.
pub open spec fn spec_data_segment(s: Seq<u8>, pos: int) -> Result<(Data, int), LoaderError> {
    match lift(spec_varuint32(s, pos)) {
        Ok((memtype, p)) => if memtype == 0 {
            match spec_expr_region(s, p) {
                Ok((expr, q)) => match lift(spec_data(s, q)) {
                    Ok((data, r)) => Ok((Data::Active { expr, data }, r)),
                    Err(e) => Err(e),
                },
                Err(e) => Err(e),
            }
        } else if memtype == 1 {
            match lift(spec_data(s, p)) {
                Ok((data, q)) => Ok((Data::Passive { data }, q)),
                Err(e) => Err(e),
            }
        } else if memtype == 2 {
            match lift(spec_varuint32(s, p)) {
                Ok((memidx, q)) => match spec_expr_region(s, q) {
                    Ok((expr, r)) => match lift(spec_data(s, r)) {
                        Ok((data, t)) => Ok((Data::ActiveMemIdx { memidx, expr, data }, t)),
                        Err(e) => Err(e),
                    },
                    Err(e) => Err(e),
                },
                Err(e) => Err(e),
            }
        } else {
            Err(LoaderError::DecoderError(DecodeError::InvalidDataSegmentType(memtype)))
        },
        Err(e) => Err(e),
    }
}

fn read_data_segment(reader: &mut LEB128Reader) -> (r: Result<Data, LoaderError>)
    ensures
        reads(
            *old(reader),
            *final(reader),
            r,
            spec_data_segment(old(reader).bytes(), old(reader).cursor()),
        ),
        advanced(*old(reader), *final(reader), r),
{
    let memtype = lift_err(reader.load_imm_varuint32())?;
    match memtype {
        0 => {
            let expr = read_expr_region(reader)?;
            let data = lift_err(reader.load_data())?;
            Ok(Data::Active { expr, data })
        },
        1 => {
            let data = lift_err(reader.load_data())?;
            Ok(Data::Passive { data })
        },
        2 => {
            let memidx = lift_err(reader.load_imm_varuint32())?;
            let expr = read_expr_region(reader)?;
            let data = lift_err(reader.load_data())?;
            Ok(Data::ActiveMemIdx { memidx, expr, data })
        },
        _ => Err(LoaderError::DecoderError(DecodeError::InvalidDataSegmentType(memtype))),
    }
}


/// `remaining` data segments from `pos` on, after `acc`.
pub open spec fn spec_data_segments_items(s: Seq<u8>, pos: int, remaining: nat, acc: Seq<Data>) -> Result<
    (Seq<Data>, int),
    LoaderError,
>
    decreases remaining,
{
    if remaining == 0 {
        Ok((acc, pos))
    } else {
        match spec_data_segment(s, pos) {
            Ok((v, p)) => spec_data_segments_items(s, p, (remaining - 1) as nat, acc.push(v)),
            Err(e) => Err(e),
        }
    }
}

/// A count, then that many data segments.
pub open spec fn spec_data_segments(s: Seq<u8>, pos: int) -> Result<(Seq<Data>, int), LoaderError> {
    match lift(spec_varuint32(s, pos)) {
        Ok((n, p)) => spec_data_segments_items(s, p, n as nat, Seq::empty()),
        Err(e) => Err(e),
    }
}

fn read_data_segments(reader: &mut LEB128Reader) -> (r: Result<Vec<Data>, LoaderError>)
    ensures
        reads_view(
            *old(reader),
            *final(reader),
            r,
            spec_data_segments(old(reader).bytes(), old(reader).cursor()),
        ),
        advanced(*old(reader), *final(reader), r),
{
    let count = lift_err(reader.load_imm_varuint32())?;
    let ghost first = reader.cursor();
    let mut items: Vec<Data> = Vec::new();
    assert(items@ =~= Seq::<Data>::empty());
    let mut i: u32 = 0;
    while i < count
        invariant
            reader.bytes() == old(reader).bytes(),
            old(reader).cursor() < first <= reader.cursor() <= reader.bytes().len(),
            i <= count,
            spec_data_segments(old(reader).bytes(), old(reader).cursor()) == spec_data_segments_items(
                reader.bytes(),
                first,
                count as nat,
                Seq::empty(),
            ),
            spec_data_segments_items(reader.bytes(), first, count as nat, Seq::empty())
                == spec_data_segments_items(
                reader.bytes(),
                reader.cursor(),
                (count - i) as nat,
                items@,
            ),
        decreases count - i,
    {
        let item = read_data_segment(reader)?;
        items.push(item);
        i = i + 1;
    }
    Ok(items)
}
/// What the body of a section, which starts at `pos` and is declared
/// `length` bytes long, makes of the module read so far and of the data
/// count, and the position after it.
pub open spec fn spec_section_body(
    s: Seq<u8>,
    pos: int,
    length: u32,
    section: SectionType,
    m: ModuleView,
    data_count: Option<u32>,
) -> Result<(ModuleView, Option<u32>, int), LoaderError> {
    match section {
        SectionType::Type => match spec_func_types(s, pos) {
            Ok((v, p)) => Ok((ModuleView { types: v, ..m }, data_count, p)),
            Err(e) => Err(e),
        },
        SectionType::Function => match spec_function_indices(s, pos) {
            Ok((v, p)) => Ok((ModuleView { functions: v, ..m }, data_count, p)),
            Err(e) => Err(e),
        },
        SectionType::Export => match spec_exports(s, pos) {
            Ok((v, p)) => Ok((ModuleView { exports: v, ..m }, data_count, p)),
            Err(e) => Err(e),
        },
        SectionType::Code => match spec_code_entries(s, pos) {
            Ok((v, p)) => Ok((ModuleView { code: v, ..m }, data_count, p)),
            Err(e) => Err(e),
        },
        SectionType::Import => match spec_imports(s, pos) {
            Ok((v, p)) => Ok((ModuleView { imports: v, ..m }, data_count, p)),
            Err(e) => Err(e),
        },
        SectionType::Table => match spec_tables(s, pos) {
            Ok((v, p)) => Ok((ModuleView { tables: v, ..m }, data_count, p)),
            Err(e) => Err(e),
        },
        SectionType::Element => match spec_element_segments(s, pos) {
            Ok((v, p)) => Ok((ModuleView { element_segments: v, ..m }, data_count, p)),
            Err(e) => Err(e),
        },
        SectionType::Memory => match spec_memories(s, pos) {
            Ok((v, p)) => Ok((ModuleView { memories: v, ..m }, data_count, p)),
            Err(e) => Err(e),
        },
        SectionType::Global => match spec_globals(s, pos) {
            Ok((v, p)) => Ok((ModuleView { globals: v, ..m }, data_count, p)),
            Err(e) => Err(e),
        },
        SectionType::Data => match spec_data_segments(s, pos) {
            Ok((v, p)) => Ok((ModuleView { data: v, ..m }, data_count, p)),
            Err(e) => Err(e),
        },
        SectionType::Start => match lift(spec_varuint32(s, pos)) {
            Ok((f, p)) => Ok((ModuleView { start_function: Some(f as usize), ..m }, data_count, p)),
            Err(e) => Err(e),
        },
        SectionType::Custom => match lift(spec_string(s, pos)) {
            Ok((_, p)) => if p > pos + length {
                Err(
                    LoaderError::DecoderError(
                        DecodeError::FailedToDecode(DecodeFailure::SectionLengthMismatch),
                    ),
                )
            } else if pos + length > s.len() {
                Err(LoaderError::DecoderError(DecodeError::MalformedMemory(Malformed::UnexpectedEnd)))
            } else {
                Ok((m, data_count, pos + length))
            },
            Err(e) => Err(e),
        },
        SectionType::DataCount => match lift(spec_varuint32(s, pos)) {
            Ok((n, p)) => Ok((m, Some(n), p)),
            Err(e) => Err(e),
        },
    }
}

/// The section at `pos`: an id, a length and a body that is exactly that
/// long. A section other than a custom one stands after the canonical
/// place `rank` of the last such section before it, and its place is the
/// new rank.
pub open spec fn spec_section(
    s: Seq<u8>,
    pos: int,
    rank: u8,
    m: ModuleView,
    data_count: Option<u32>,
) -> Result<(ModuleView, Option<u32>, u8, int), LoaderError> {
    match lift(spec_u8(s, pos)) {
        Ok((id, p)) => match lift(spec_varuint32(s, p)) {
            Ok((length, body)) => match SectionType::spec_from_u8(id) {
                Ok(section) => if section != SectionType::Custom && section.spec_rank() <= rank {
                    Err(
                        LoaderError::DecoderError(
                            DecodeError::FailedToDecode(DecodeFailure::SectionOutOfOrder),
                        ),
                    )
                } else {
                    match spec_section_body(s, body, length, section, m, data_count) {
                        Ok((after, count, next)) => if next - body != length {
                            Err(
                                LoaderError::DecoderError(
                                    DecodeError::FailedToDecode(
                                        DecodeFailure::SectionLengthMismatch,
                                    ),
                                ),
                            )
                        } else {
                            Ok(
                                (
                                    after,
                                    count,
                                    if section == SectionType::Custom {
                                        rank
                                    } else {
                                        section.spec_rank()
                                    },
                                    next,
                                ),
                            )
                        },
                        Err(e) => Err(e),
                    }
                },
                Err(e) => Err(e),
            },
            Err(e) => Err(e),
        },
        Err(e) => Err(e),
    }
}

/// A section ends after its start.
pub proof fn lemma_section_advances(
    s: Seq<u8>,
    pos: int,
    rank: u8,
    m: ModuleView,
    data_count: Option<u32>,
)
    ensures
        spec_section(s, pos, rank, m, data_count) matches Ok((_, _, _, next)) ==> pos < next,
{
    lemma_varuint_advances(s, pos + 1);
}

/// The sections from `pos` on.
pub open spec fn spec_sections(
    s: Seq<u8>,
    pos: int,
    rank: u8,
    m: ModuleView,
    data_count: Option<u32>,
) -> Result<(ModuleView, Option<u32>), LoaderError>
    decreases
            if pos < s.len() {
                s.len() - pos
            } else {
                0
            },
    via spec_sections_decreases
{
    if pos >= s.len() {
        Ok((m, data_count))
    } else {
        match spec_section(s, pos, rank, m, data_count) {
            Ok((after, count, place, next)) => spec_sections(s, next, place, after, count),
            Err(e) => Err(e),
        }
    }
}

#[via_fn]
proof fn spec_sections_decreases(
    s: Seq<u8>,
    pos: int,
    rank: u8,
    m: ModuleView,
    data_count: Option<u32>,
) {
    lemma_section_advances(s, pos, rank, m, data_count);
}

/// A module with no sections over the bytes `s`.
pub open spec fn spec_empty_module(s: Seq<u8>) -> ModuleView {
    ModuleView {
        module_data: s,
        version: 1,
        types: Seq::empty(),
        code: Seq::empty(),
        tables: Seq::empty(),
        functions: Seq::empty(),
        exports: Seq::empty(),
        imports: Seq::empty(),
        memories: Seq::empty(),
        globals: Seq::empty(),
        data: Seq::empty(),
        start_function: None,
        element_segments: Seq::empty(),
    }
}

/// What the sections of a module amount to: as many function bodies as
/// type indices, and as many data segments as the data count says, where
/// there is one.
pub open spec fn spec_loaded(sections: Result<(ModuleView, Option<u32>), LoaderError>) -> Result<
    ModuleView,
    LoaderError,
> {
    match sections {
        Ok((m, data_count)) => if m.code.len() != m.functions.len() {
            Err(
                LoaderError::DecoderError(
                    DecodeError::FailedToDecode(DecodeFailure::FunctionCodeMismatch),
                ),
            )
        } else if data_count is Some && data_count->Some_0 != m.data.len() {
            Err(
                LoaderError::DecoderError(
                    DecodeError::FailedToDecode(DecodeFailure::DataCountMismatch),
                ),
            )
        } else {
            Ok(m)
        },
        Err(e) => Err(e),
    }
}

/// The module that the bytes `s` hold: the magic `\0asm`, the version 1 in
/// four little-endian bytes, then the sections.
pub open spec fn spec_load(s: Seq<u8>) -> Result<ModuleView, LoaderError> {
    if s.len() < 4 || s[0] != 0x00 || s[1] != 0x61 || s[2] != 0x73 || s[3] != 0x6d {
        Err(LoaderError::InvalidMagicNumber)
    } else if s.len() < 8 || s[4] != 1 || s[5] != 0 || s[6] != 0 || s[7] != 0 {
        Err(LoaderError::InvalidVersion)
    } else {
        spec_loaded(spec_sections(s, 8, 0, spec_empty_module(s), None))
    }
}

/// Reads the body of one section into `module`.
fn read_section_body(
    reader: &mut LEB128Reader,
    length: u32,
    section: SectionType,
    module: &mut Module,
    data_count: &mut Option<u32>,
) -> (r: Result<(), LoaderError>)
    requires
        old(reader).cursor() <= old(reader).bytes().len(),
    ensures
        final(reader).bytes() == old(reader).bytes(),
        match spec_section_body(
            old(reader).bytes(),
            old(reader).cursor(),
            length,
            section,
            old(module)@,
            *old(data_count),
        ) {
            Ok((m, count, p)) => r is Ok && final(module)@ == m && *final(data_count) == count
                && final(reader).cursor() == p && p <= old(reader).bytes().len(),
            Err(e) => r == Err::<(), LoaderError>(e),
        },
{
    match section {
        SectionType::Type => {
            module.types = read_func_types(reader)?;
        },
        SectionType::Function => {
            module.functions = read_function_indices(reader)?;
        },
        SectionType::Export => {
            module.exports = read_exports(reader)?;
        },
        SectionType::Code => {
            module.code = read_code_entries(reader)?;
        },
        SectionType::Import => {
            module.imports = read_imports(reader)?;
        },
        SectionType::Table => {
            module.tables = read_tables(reader)?;
        },
        SectionType::Element => {
            module.element_segments = read_element_segments(reader)?;
        },
        SectionType::Memory => {
            module.memories = read_memories(reader)?;
        },
        SectionType::Global => {
            module.globals = read_globals(reader)?;
        },
        SectionType::Data => {
            module.data = read_data_segments(reader)?;
        },
        SectionType::Start => {
            let funcidx = lift_err(reader.load_imm_varuint32())?;
            module.start_function = Some(funcidx as usize);
        },
        SectionType::Custom => {
            let start = reader.position();
            let _name = lift_err(reader.load_string())?;
            let consumed = reader.position() - start;
            if consumed > length as usize {
                return Err(
                    LoaderError::DecoderError(
                        DecodeError::FailedToDecode(DecodeFailure::SectionLengthMismatch),
                    ),
                );
            }
            if reader.len() - start < length as usize {
                return Err(
                    LoaderError::DecoderError(
                        DecodeError::MalformedMemory(Malformed::UnexpectedEnd),
                    ),
                );
            }
            reader.advance(length as usize - consumed);
        },
        SectionType::DataCount => {
            *data_count = Some(lift_err(reader.load_imm_varuint32())?);
        },
    }
    Ok(())
}

/// Reads one section into `module`, and gives its place in the canonical
/// order, or `rank` for a custom section.
fn read_section(
    reader: &mut LEB128Reader,
    rank: u8,
    module: &mut Module,
    data_count: &mut Option<u32>,
) -> (r: Result<u8, LoaderError>)
    requires
        old(reader).cursor() <= old(reader).bytes().len(),
    ensures
        final(reader).bytes() == old(reader).bytes(),
        match spec_section(
            old(reader).bytes(),
            old(reader).cursor(),
            rank,
            old(module)@,
            *old(data_count),
        ) {
            Ok((m, count, place, p)) => r == Ok::<u8, LoaderError>(place) && final(module)@ == m
                && *final(data_count) == count && final(reader).cursor() == p && p <= old(
                reader,
            ).bytes().len(),
            Err(e) => r == Err::<u8, LoaderError>(e),
        },
{
    let section_type = lift_err(reader.load_imm_u8())?;
    let section_length = lift_err(reader.load_imm_varuint32())?;
    let offset = reader.position();
    let section_type = SectionType::from_u8(section_type)?;
    let section_rank = section_type.rank();
    if section_rank != 0 && section_rank <= rank {
        return Err(
            LoaderError::DecoderError(
                DecodeError::FailedToDecode(DecodeFailure::SectionOutOfOrder),
            ),
        );
    }
    read_section_body(reader, section_length, section_type, module, data_count)?;
    if reader.position() < offset || reader.position() - offset != section_length as usize {
        return Err(
            LoaderError::DecoderError(
                DecodeError::FailedToDecode(DecodeFailure::SectionLengthMismatch),
            ),
        );
    }
    if section_rank != 0 {
        Ok(section_rank)
    } else {
        Ok(rank)
    }
}

impl Module {
    /// Loads a module from its binary.
    pub fn load(module_data: &[u8]) -> (r: Result<Self, LoaderError>)
        ensures
            match spec_load(module_data@) {
                Ok(m) => r is Ok && r->Ok_0@ == m,
                Err(e) => r is Err && r->Err_0 == e,
            },
    {
        if module_data.len() < 4 || module_data[0] != 0x00 || module_data[1] != 0x61
            || module_data[2] != 0x73 || module_data[3] != 0x6d {
            return Err(LoaderError::InvalidMagicNumber);
        }
        if module_data.len() < 8 || module_data[4] != 1 || module_data[5] != 0 || module_data[6]
            != 0 || module_data[7] != 0 {
            return Err(LoaderError::InvalidVersion);
        }
        let mut reader = LEB128Reader::new(module_data, 8);
        let mut module = Module {
            module_data: vstd::slice::slice_to_vec(module_data),
            version: 1,
            types: Vec::new(),
            code: Vec::new(),
            tables: Vec::new(),
            functions: Vec::new(),
            exports: Vec::new(),
            imports: Vec::new(),
            memories: Vec::new(),
            globals: Vec::new(),
            data: Vec::new(),
            start_function: None,
            element_segments: Vec::new(),
        };
        let mut data_count: Option<u32> = None;
        let mut rank: u8 = 0;
        proof {
            let e = spec_empty_module(module_data@);
            assert(module@.module_data =~= e.module_data);
            assert(module@.types =~= e.types);
            assert(module@.code =~= e.code);
            assert(module@.exports =~= e.exports);
            assert(module@.imports =~= e.imports);
            assert(module@.element_segments =~= e.element_segments);
            assert(module@ == e);
        }
        while reader.has_more()
            invariant
                reader.bytes() == module_data@,
                reader.cursor() <= module_data@.len(),
                spec_load(module_data@) == spec_loaded(
                    spec_sections(module_data@, reader.cursor(), rank, module@, data_count),
                ),
            decreases module_data@.len() - reader.cursor(),
        {
            proof {
                lemma_section_advances(
                    module_data@,
                    reader.cursor(),
                    rank,
                    module@,
                    data_count,
                );
            }
            rank = read_section(&mut reader, rank, &mut module, &mut data_count)?;
        }
        if module.code.len() != module.functions.len() {
            return Err(
                LoaderError::DecoderError(
                    DecodeError::FailedToDecode(DecodeFailure::FunctionCodeMismatch),
                ),
            );
        }
        match data_count {
            Some(count) => {
                if count as usize != module.data.len() {
                    return Err(
                        LoaderError::DecoderError(
                            DecodeError::FailedToDecode(DecodeFailure::DataCountMismatch),
                        ),
                    );
                }
            },
            None => {},
        }
        Ok(module)
    }
}

/// The sections leave the bytes and the version of the module as they
/// were.
pub proof fn lemma_sections_keep_bytes(
    s: Seq<u8>,
    pos: int,
    rank: u8,
    m: ModuleView,
    data_count: Option<u32>,
)
    ensures
        spec_sections(s, pos, rank, m, data_count) matches Ok((after, _)) ==> after.module_data
            == m.module_data && after.version == m.version,
    decreases
            if pos < s.len() {
                s.len() - pos
            } else {
                0
            },
{
    if pos < s.len() {
        lemma_section_advances(s, pos, rank, m, data_count);
        match spec_section(s, pos, rank, m, data_count) {
            Ok((after, count, place, next)) => {
                lemma_sections_keep_bytes(s, next, place, after, count);
            },
            Err(_) => {},
        }
    }
}

/// A module that loads holds the bytes that it was loaded from, and has
/// the version 1.
pub proof fn lemma_load_keeps_bytes(s: Seq<u8>)
    ensures
        spec_load(s) matches Ok(m) ==> m.module_data == s && m.version == 1,
{
    lemma_sections_keep_bytes(s, 8, 0, spec_empty_module(s), None);
}

} // verus!
