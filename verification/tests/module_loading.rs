use wasbox::decode::{DecodeError, DecodeFailure, Malformed};
use wasbox::exec::{ExecError, Execution, Fault, Value};
use wasbox::instance::{mk_instance, LinkError};
use wasbox::module::{
    Data, ElementMode, Elements, ExportEntry, Global, Import, ImportExportKind, LoaderError,
    MemorySection, Module, ReferenceType, SectionType, Table,
};
use wasbox::{FuncType, Memory, ValueType};

/// A module with one imported function, a table of 32 function references
/// and three functions of the type `(i32) -> i32`, two of them exported.
fn table_wasm() -> Vec<u8> {
    wat::parse_str(
        r#"
        (module
          (type $t (func (param i32) (result i32)))
          (import "env" "jstimes3" (func $jstimes3 (type $t)))
          (table 32 funcref)
          (func $pick (type $t)
            (call_indirect (type $t) (i32.const 7) (local.get 0)))
          (func $times2 (type $t)
            (i32.mul (local.get 0) (i32.const 2)))
          (func $times3 (type $t)
            (i32.mul (local.get 0) (i32.const 3)))
          (export "times2" (func $times2))
          (export "times3" (func $times3))
          (elem (i32.const 0) $times2 $times3)
        )
    "#,
    )
    .unwrap()
}

/// A module that writes a number in decimal behind the digits in its
/// memory: one import, a memory of one page, a global for the address of
/// the buffer, and the function `itoa`.
fn itoa_wasm() -> Vec<u8> {
    vec![
        0x00, 0x61, 0x73, 0x6d, 0x01, 0x00, 0x00, 0x00, 0x01, 0x0b, 0x02, 0x60,
        0x01, 0x7f, 0x00, 0x60, 0x01, 0x7f, 0x02, 0x7f, 0x7f, 0x02, 0x0b, 0x01,
        0x03, 0x65, 0x6e, 0x76, 0x03, 0x6c, 0x6f, 0x67, 0x00, 0x00, 0x03, 0x02,
        0x01, 0x01, 0x05, 0x03, 0x01, 0x00, 0x01, 0x06, 0x07, 0x01, 0x7f, 0x00,
        0x41, 0xca, 0x3e, 0x0b, 0x07, 0x11, 0x02, 0x06, 0x6d, 0x65, 0x6d, 0x6f,
        0x72, 0x79, 0x02, 0x00, 0x04, 0x69, 0x74, 0x6f, 0x61, 0x00, 0x01, 0x0a,
        0x77, 0x01, 0x75, 0x01, 0x03, 0x7f, 0x01, 0x01, 0x01, 0x01, 0x01, 0x01,
        0x01, 0x01, 0x01, 0x01, 0x01, 0x01, 0x01, 0x01, 0x01, 0x01, 0x01, 0x01,
        0x01, 0x01, 0x01, 0x01, 0x01, 0x01, 0x01, 0x01, 0x01, 0x01, 0x01, 0x01,
        0x01, 0x01, 0x01, 0x01, 0x01, 0x01, 0x01, 0x01, 0x01, 0x20, 0x00, 0x21,
        0x02, 0x03, 0x40, 0x20, 0x01, 0x41, 0x01, 0x6a, 0x21, 0x01, 0x20, 0x02,
        0x41, 0x0a, 0x6e, 0x22, 0x02, 0x0d, 0x00, 0x0b, 0x23, 0x00, 0x20, 0x01,
        0x6a, 0x22, 0x03, 0x41, 0x00, 0x3a, 0x00, 0x00, 0x20, 0x00, 0x21, 0x02,
        0x03, 0x40, 0x20, 0x03, 0x41, 0x01, 0x6b, 0x22, 0x03, 0x20, 0x02, 0x41,
        0x0a, 0x70, 0x2d, 0x00, 0xc0, 0x3e, 0x3a, 0x00, 0x00, 0x20, 0x02, 0x41,
        0x0a, 0x6e, 0x22, 0x02, 0x0d, 0x00, 0x0b, 0x23, 0x00, 0x20, 0x01, 0x0b,
        0x0b, 0x11, 0x01, 0x00, 0x41, 0xc0, 0x3e, 0x0b, 0x0a, 0x30, 0x31, 0x32,
        0x33, 0x34, 0x35, 0x36, 0x37, 0x38, 0x39,
    ]
}

#[test]
fn verify_section_loading_table() {
    let mod_data = table_wasm();
    let program = Module::load(&mod_data).unwrap();

    // Verify basic counts of things
    assert_eq!(program.version, 1);
    assert_eq!(program.tables.len(), 1);
    assert_eq!(program.exports.len(), 2);
    assert_eq!(program.imports.len(), 1);
    assert_eq!(program.types.len(), 1);
    assert_eq!(program.functions.len(), 3);
    assert_eq!(program.code.len(), program.functions.len());

    // Verify the tables
    assert_eq!(
        program.tables,
        vec![Table {
            ty: ReferenceType::FuncRef,
            limits: (32, None),
        }]
    );

    // Verify the exports
    assert_eq!(
        program.exports,
        vec![
            ExportEntry {
                name: "times2".to_string(),
                kind: ImportExportKind::Function,
                index: 2,
            },
            ExportEntry {
                name: "times3".to_string(),
                kind: ImportExportKind::Function,
                index: 3,
            },
        ]
    );

    // Verify the types
    assert_eq!(
        program.types,
        vec![FuncType {
            params: vec![ValueType::I32],
            results: vec![ValueType::I32],
        }]
    );

    // Verify the functions
    assert_eq!(
        program.functions,
        vec![0, 0, 0] // 0 is the index into the types array
    );

    // Verify code offsets
    assert_eq!(program.code[0].locals, vec![]);
    assert_eq!(program.code[1].locals, vec![]);
    assert_eq!(program.code[2].locals, vec![]);
}

#[test]
fn test_verify_section_loading_itoa() {
    let mod_data = itoa_wasm();
    let program = Module::load(&mod_data).unwrap();

    assert_eq!(program.version, 1);
    assert_eq!(program.tables.len(), 0);
    assert_eq!(program.exports.len(), 2);
    assert_eq!(program.imports.len(), 1);
    assert_eq!(program.types.len(), 2);
    assert_eq!(program.functions.len(), 1);
    assert_eq!(program.code.len(), program.functions.len());
    assert_eq!(program.memories.len(), 1);
    assert_eq!(program.globals.len(), 1);
    assert_eq!(program.data.len(), 1);

    // Verify the exports
    assert_eq!(
        program.exports,
        vec![
            ExportEntry {
                name: "memory".to_string(),
                kind: ImportExportKind::Memory,
                index: 0,
            },
            ExportEntry {
                name: "itoa".to_string(),
                kind: ImportExportKind::Function,
                index: 1,
            },
        ]
    );

    // Verify the types
    assert_eq!(
        program.types,
        vec![
            FuncType {
                params: vec![ValueType::I32],
                results: vec![],
            },
            FuncType {
                params: vec![ValueType::I32],
                results: vec![ValueType::I32, ValueType::I32],
            }
        ]
    );

    // Verify the functions
    assert_eq!(program.functions, vec![1]);

    // Verify the memories
    assert_eq!(program.memories, vec![MemorySection { limits: (1, None) }]);

    // Verify the globals
    assert_eq!(
        program.globals,
        vec![Global {
            ty: ValueType::I32,
            mutable: false,
            expr: (48, 51)
        }]
    );

    // Verify the data
    assert_eq!(
        program.data,
        vec![Data::Active {
            expr: (196, 199),
            data: (201, 211),
        }]
    );
}

#[test]
fn load_run_itoa() {
    let module_data: Vec<u8> = itoa_wasm();
    let module = Module::load(&module_data).unwrap();

    let linked = mk_instance(module).unwrap();
    let memory = linked.memories[0].clone();
    let mut execution = Execution::new(linked, memory);
    execution.prepare(1, &[Value::I32(123)]).unwrap();
    execution.run().unwrap();
}

#[test]
fn itoa_writes_the_digits_and_a_zero_behind_them() {
    let module = Module::load(&itoa_wasm()).unwrap();
    let instance = mk_instance(module).unwrap();
    assert_eq!(&instance.memories[0].data()[8000..8010], b"0123456789");
    assert_eq!(instance.globals[0].value, Value::I32(8010));
    let memory = instance.memories[0].clone();
    let mut execution = Execution::new(instance, memory);
    let itoa = execution.instance().find_funcidx("itoa").unwrap();
    assert_eq!(itoa, 1);
    execution.prepare(itoa, &[Value::I32(123)]).unwrap();
    execution.run().unwrap();
    assert_eq!(
        execution.result().unwrap(),
        &[Value::I32(8010), Value::I32(3)]
    );
    assert_eq!(&execution.memory().data()[8010..8014], &[49, 50, 51, 0]);
}

#[test]
fn the_imported_function_of_itoa_cannot_be_called() {
    let module = Module::load(&itoa_wasm()).unwrap();
    let instance = mk_instance(module).unwrap();
    assert_eq!(instance.imported_functions(), 1);
    let memory = instance.memories[0].clone();
    let mut execution = Execution::new(instance, memory);
    assert_eq!(
        execution.prepare(0, &[Value::I32(1)]),
        Err(ExecError::LinkageError(LinkError::UnsupportedFeature(
            wasbox::instance::Unsupported::ImportedFunctions
        )))
    );
    assert_eq!(
        execution.prepare(2, &[]),
        Err(ExecError::LinkageError(LinkError::FunctionNotFound))
    );
    assert_eq!(
        execution.prepare(1, &[Value::I64(1)]),
        Err(ExecError::LinkageError(LinkError::ArgumentTypeMismatch(
            0,
            ValueType::I32,
            ValueType::I64
        )))
    );
    assert_eq!(execution.frame_stack_len(), 0);
}

#[test]
fn the_table_module_has_its_import_and_its_element_segment() {
    let program = Module::load(&table_wasm()).unwrap();
    assert_eq!(
        program.imports,
        vec![("env".to_string(), "jstimes3".to_string(), Import::Func(0))]
    );
    assert_eq!(program.element_segments.len(), 1);
    assert_eq!(program.element_segments[0].reftype, ReferenceType::FuncRef);
    match &program.element_segments[0].elements {
        Elements::Function(indices) => assert_eq!(indices, &vec![2, 3]),
        Elements::Expression(_) => panic!("function indices expected"),
    }
    match program.element_segments[0].mode {
        ElementMode::Active { table_index, expr } => {
            assert_eq!(table_index, 0);
            assert_eq!(program.get_expr(&expr), &[0x41, 0x00]);
        }
        _ => panic!("active segment expected"),
    }
    assert_eq!(program.start_function, None);
    assert_eq!(program.module_data, table_wasm());
}

#[test]
fn a_module_needs_its_magic_and_its_version() {
    assert!(matches!(Module::load(&[]), Err(LoaderError::InvalidMagicNumber)));
    assert!(matches!(
        Module::load(&[0, 0x61, 0x73]),
        Err(LoaderError::InvalidMagicNumber)
    ));
    assert!(matches!(
        Module::load(&[1, 0x61, 0x73, 0x6d, 1, 0, 0, 0]),
        Err(LoaderError::InvalidMagicNumber)
    ));
    assert!(matches!(
        Module::load(&[0, 0x61, 0x73, 0x6d]),
        Err(LoaderError::InvalidVersion)
    ));
    assert!(matches!(
        Module::load(&[0, 0x61, 0x73, 0x6d, 2, 0, 0, 0]),
        Err(LoaderError::InvalidVersion)
    ));
    let empty = Module::load(&[0, 0x61, 0x73, 0x6d, 1, 0, 0, 0]).unwrap();
    assert_eq!(empty.version, 1);
    assert_eq!(empty.types.len(), 0);
    assert_eq!(empty.code.len(), 0);
}

fn with_sections(sections: &[u8]) -> Vec<u8> {
    let mut bytes = vec![0, 0x61, 0x73, 0x6d, 1, 0, 0, 0];
    bytes.extend_from_slice(sections);
    bytes
}

fn load_error(sections: &[u8]) -> LoaderError {
    match Module::load(&with_sections(sections)) {
        Ok(_) => panic!("the module should not load"),
        Err(e) => e,
    }
}

#[test]
fn each_rule_of_the_format_has_its_error() {
    assert_eq!(load_error(&[13, 0]), LoaderError::InvalidSectionType(13));
    // a type that does not start with 0x60
    assert_eq!(
        load_error(&[1, 4, 1, 0x61, 0, 0]),
        LoaderError::DecoderError(DecodeError::FailedToDecode(
            DecodeFailure::InvalidFunctionTypeMarker(0x61)
        ))
    );
    // a type section that claims one byte more than it has
    assert_eq!(
        load_error(&[1, 5, 1, 0x60, 0, 0]),
        LoaderError::DecoderError(DecodeError::FailedToDecode(
            DecodeFailure::SectionLengthMismatch
        ))
    );
    // a section cut short
    assert_eq!(
        load_error(&[1, 4, 1, 0x60]),
        LoaderError::DecoderError(DecodeError::MalformedMemory(Malformed::UnexpectedEnd))
    );
    // an unknown value type
    assert_eq!(
        load_error(&[1, 5, 1, 0x60, 1, 0x11, 0]),
        LoaderError::DecoderError(DecodeError::InvalidSignature(0x11))
    );
    // an export of an unknown kind
    assert_eq!(
        load_error(&[7, 5, 1, 1, 0x61, 9, 0]),
        LoaderError::InvalidImportType(9)
    );
    // a name that is not UTF-8
    assert_eq!(
        load_error(&[7, 5, 1, 1, 0xff, 0, 0]),
        LoaderError::DecoderError(DecodeError::MalformedMemory(Malformed::InvalidString))
    );
    // a table of an unknown reference type
    assert_eq!(
        load_error(&[4, 4, 1, 0x7f, 0, 1]),
        LoaderError::InvalidReferenceType(0x7f)
    );
    // limits above 65,536 pages, and a maximum below the minimum
    assert_eq!(
        load_error(&[5, 5, 1, 0, 0x81, 0x80, 0x04]),
        LoaderError::DecoderError(DecodeError::MalformedMemory(Malformed::LimitsTooLarge))
    );
    assert_eq!(
        load_error(&[5, 4, 1, 1, 2, 1]),
        LoaderError::DecoderError(DecodeError::MalformedMemory(
            Malformed::MaximumBelowMinimum
        ))
    );
    // a data segment of an unknown type
    assert_eq!(
        load_error(&[11, 2, 1, 3]),
        LoaderError::DecoderError(DecodeError::InvalidDataSegmentType(3))
    );
    // element segment flags above 7, and an element kind that is not 0
    assert_eq!(
        load_error(&[9, 2, 1, 8]),
        LoaderError::DecoderError(DecodeError::FailedToDecode(
            DecodeFailure::UnsupportedElementFlags(8)
        ))
    );
    assert_eq!(
        load_error(&[9, 4, 1, 3, 1, 0]),
        LoaderError::DecoderError(DecodeError::FailedToDecode(
            DecodeFailure::UnsupportedElementKind(1)
        ))
    );
    // a group of too many locals
    assert_eq!(
        load_error(&[10, 9, 1, 7, 1, 0x80, 0x80, 0x80, 0x80, 0x04, 0x7f]),
        LoaderError::DecoderError(DecodeError::FailedToDecode(DecodeFailure::TooManyLocals))
    );
    // a body that is shorter than its locals
    assert_eq!(
        load_error(&[10, 5, 1, 1, 1, 1, 0x7f]),
        LoaderError::DecoderError(DecodeError::FailedToDecode(
            DecodeFailure::CodeSizeMismatch
        ))
    );
    // a body without a type index
    assert_eq!(
        load_error(&[10, 4, 1, 2, 0, 0x0b]),
        LoaderError::DecoderError(DecodeError::FailedToDecode(
            DecodeFailure::FunctionCodeMismatch
        ))
    );
    // a data count that is not the number of data segments
    assert_eq!(
        load_error(&[12, 1, 1]),
        LoaderError::DecoderError(DecodeError::FailedToDecode(
            DecodeFailure::DataCountMismatch
        ))
    );
}

#[test]
fn sections_come_once_and_in_canonical_order() {
    // function section before type section
    assert_eq!(
        load_error(&[3, 1, 0, 1, 1, 0]),
        LoaderError::DecoderError(DecodeError::FailedToDecode(
            DecodeFailure::SectionOutOfOrder
        ))
    );
    // two type sections
    assert_eq!(
        load_error(&[1, 1, 0, 1, 1, 0]),
        LoaderError::DecoderError(DecodeError::FailedToDecode(
            DecodeFailure::SectionOutOfOrder
        ))
    );
    // the data count stands between elements and code
    assert!(Module::load(&with_sections(&[9, 1, 0, 12, 1, 0, 10, 1, 0, 11, 1, 0])).is_ok());
    assert_eq!(
        load_error(&[10, 1, 0, 12, 1, 0]),
        LoaderError::DecoderError(DecodeError::FailedToDecode(
            DecodeFailure::SectionOutOfOrder
        ))
    );
    // custom sections stand anywhere, and more than once
    let module = Module::load(&with_sections(&[
        0, 3, 1, 0x61, 0xff, 1, 1, 0, 0, 2, 1, 0x62, 3, 1, 0, 0, 1, 0,
    ]))
    .unwrap();
    assert_eq!(module.types.len(), 0);
    // the name of a custom section must be well-formed all the same
    assert_eq!(
        load_error(&[0, 2, 5, 0x61]),
        LoaderError::DecoderError(DecodeError::MalformedMemory(Malformed::UnexpectedEnd))
    );
    assert_eq!(
        load_error(&[0, 1, 1, 0x61]),
        LoaderError::DecoderError(DecodeError::FailedToDecode(
            DecodeFailure::SectionLengthMismatch
        ))
    );
}

#[test]
fn section_ids_and_kinds_have_their_bytes() {
    assert_eq!(SectionType::from_u8(0), Ok(SectionType::Custom));
    assert_eq!(SectionType::from_u8(10), Ok(SectionType::Code));
    assert_eq!(SectionType::from_u8(12), Ok(SectionType::DataCount));
    assert_eq!(SectionType::from_u8(13), Err(LoaderError::InvalidSectionType(13)));
    assert_eq!(SectionType::DataCount.rank(), 10);
    assert_eq!(SectionType::Code.rank(), 11);
    assert_eq!(ReferenceType::from_u8(0x70), Ok(ReferenceType::FuncRef));
    assert_eq!(ReferenceType::from_u8(0x6f), Ok(ReferenceType::ExternRef));
    assert_eq!(
        ReferenceType::from_u8(0x71),
        Err(LoaderError::InvalidReferenceType(0x71))
    );
    assert_eq!(ImportExportKind::from_u8(3), Ok(ImportExportKind::Global));
    assert_eq!(ImportExportKind::from_u8(4), Err(LoaderError::InvalidImportType(4)));
}

#[test]
fn every_kind_of_import_and_element_segment_loads() {
    let bytes = wat::parse_str(
        r#"
        (module
          (import "a" "f" (func (param i64)))
          (import "a" "t" (table 1 2 funcref))
          (import "a" "m" (memory 3))
          (import "a" "g" (global (mut f64)))
          (func $f)
          (elem func $f)
          (elem declare func $f)
          (elem (table 0) (offset (i32.const 0)) funcref (ref.func $f) (ref.null func))
        )
    "#,
    )
    .unwrap();
    let module = Module::load(&bytes).unwrap();
    let imports: Vec<Import> = module.imports.iter().map(|i| i.2).collect();
    assert_eq!(
        imports,
        vec![
            Import::Func(0),
            Import::Table(ReferenceType::FuncRef, (1, Some(2))),
            Import::Memory((3, None)),
            Import::Global(ValueType::F64, true),
        ]
    );
    assert_eq!(module.element_segments.len(), 3);
    assert!(matches!(module.element_segments[0].mode, ElementMode::Passive));
    assert!(matches!(module.element_segments[1].mode, ElementMode::Declarative));
    match &module.element_segments[2].elements {
        Elements::Expression(exprs) => {
            assert_eq!(exprs.len(), 2);
            assert_eq!(module.get_expr(&exprs[0]), &[0xd2, 0x01]);
            assert_eq!(module.get_expr(&exprs[1]), &[0xd0, 0x70]);
        }
        Elements::Function(_) => panic!("expressions expected"),
    }
}

#[test]
fn instantiation_fails_where_the_module_asks_too_much() {
    let two_memories = with_sections(&[5, 5, 2, 0, 1, 0, 1]);
    assert!(matches!(
        mk_instance(Module::load(&two_memories).unwrap()),
        Err(LinkError::UnsupportedFeature(
            wasbox::instance::Unsupported::MultipleMemories
        ))
    ));
    // a data segment that does not fit its memory
    let bytes = wat::parse_str(r#"(module (memory 1) (data (i32.const 65535) "ab"))"#).unwrap();
    assert!(matches!(
        mk_instance(Module::load(&bytes).unwrap()),
        Err(LinkError::ActiveExpressionError(Fault::MemoryOutOfBounds))
    ));
    // a global whose expression leaves nothing on the stack
    let no_value = with_sections(&[6, 4, 1, 0x7f, 0, 0x0b]);
    assert!(matches!(
        mk_instance(Module::load(&no_value).unwrap()),
        Err(LinkError::ActiveExpressionError(Fault::StackUnderflow))
    ));
    // a global whose expression calls
    let calls = with_sections(&[6, 6, 1, 0x7f, 0, 0x10, 0x00, 0x0b]);
    assert!(matches!(
        mk_instance(Module::load(&calls).unwrap()),
        Err(LinkError::ActiveExpressionError(Fault::UnexpectedResult(_)))
    ));
    // a body with an opcode that does not exist
    let bad_body = with_sections(&[1, 4, 1, 0x60, 0, 0, 3, 2, 1, 0, 10, 5, 1, 3, 0, 0x27, 0x0b]);
    assert!(matches!(
        mk_instance(Module::load(&bad_body).unwrap()),
        Err(LinkError::DecodeError(DecodeError::InvalidOpcode(0x27)))
    ));
    // a data segment for a second memory
    let second = with_sections(&[5, 3, 1, 0, 1, 11, 7, 1, 2, 1, 0x41, 0, 0x0b, 0]);
    assert!(matches!(
        mk_instance(Module::load(&second).unwrap()),
        Err(LinkError::MissingMemory)
    ));
    // a function of a type that does not exist
    let no_type = with_sections(&[3, 2, 1, 5, 10, 4, 1, 2, 0, 0x0b]);
    assert!(matches!(
        mk_instance(Module::load(&no_type).unwrap()),
        Err(LinkError::ActiveExpressionError(Fault::UnresolvableTypeIndex(5)))
    ));
}

#[test]
fn instantiation_fills_tables_memory_and_globals() {
    let bytes = wat::parse_str(
        r#"
        (module
          (table 4 funcref)
          (memory 1 3)
          (global i64 (i64.const -5))
          (global (mut f32) (f32.const 1.5))
          (global funcref (ref.null func))
          (func $a)
          (func $b (param i32 i64) (result i32) (local f64 f64) (local.get 0))
          (elem (i32.const 2) $b $a $b)
          (data (i32.const 3) "xyz")
          (data "passive")
        )
    "#,
    )
    .unwrap();
    let instance = mk_instance(Module::load(&bytes).unwrap()).unwrap();
    assert_eq!(
        instance.tables[0].elements,
        vec![
            None,
            None,
            Some(Value::FuncRef(Some(1))),
            Some(Value::FuncRef(Some(0)))
        ]
    );
    assert_eq!(instance.memories.len(), 1);
    assert_eq!(instance.memories[0].size(), 65536);
    assert_eq!(&instance.memories[0].data()[0..8], &[0, 0, 0, b'x', b'y', b'z', 0, 0]);
    assert_eq!(instance.globals.len(), 3);
    assert_eq!(instance.globals[0].value, Value::I64(-5));
    assert_eq!(instance.globals[1].value, Value::F32(1.5f32.to_bits()));
    assert!(instance.globals[1].decl.mutable);
    assert_eq!(instance.globals[2].value, Value::FuncRef(None));
    assert_eq!(instance.programs.len(), 2);
    assert_eq!(
        instance.programs[1].local_types,
        vec![ValueType::I32, ValueType::I64, ValueType::F64, ValueType::F64]
    );
    assert_eq!(instance.programs[1].return_types, vec![ValueType::I32]);
    assert_eq!(instance.find_funcidx("nothing"), None);
}

/// The shortest unsigned LEB128 encoding.
fn leb(mut v: u32) -> Vec<u8> {
    let mut out = vec![];
    while v >= 128 {
        out.push((v % 128 + 128) as u8);
        v /= 128;
    }
    out.push(v as u8);
    out
}

/// A section: its id, the length of its body, the number of its items and
/// the items.
fn section_of(id: u8, count: u32, items: &[u8]) -> Vec<u8> {
    let mut body = leb(count);
    body.extend_from_slice(items);
    let mut out = vec![id];
    out.extend(leb(body.len() as u32));
    out.extend(body);
    out
}

fn name_of(name: &str) -> Vec<u8> {
    let mut out = leb(name.len() as u32);
    out.extend_from_slice(name.as_bytes());
    out
}

#[test]
fn a_module_that_is_written_loads_as_it_was_written() {
    let init: [u8; 3] = [0x41, 0x05, 0x0b];
    let offset: [u8; 3] = [0x41, 0x08, 0x0b];
    let instructions: [u8; 5] = [0x20, 0x00, 0x41, 0x0b, 0x0b];
    let long_name = "é".repeat(100);

    let mut bytes = vec![0x00, 0x61, 0x73, 0x6d, 1, 0, 0, 0];
    // types: (i32, i64) -> i32 and () -> ()
    bytes.extend(section_of(1, 2, &[0x60, 2, 0x7f, 0x7e, 1, 0x7f, 0x60, 0, 0]));
    // imports: a function of type 1, a memory of 1 to 2 pages, an immutable global
    let mut imports = vec![];
    imports.extend(name_of("env"));
    imports.extend(name_of(&long_name));
    imports.extend([0, 1]);
    imports.extend(name_of("env"));
    imports.extend(name_of("m"));
    imports.extend([2, 1, 1, 2]);
    imports.extend(name_of(""));
    imports.extend(name_of("g"));
    imports.extend([3, 0x7e, 0]);
    bytes.extend(section_of(2, 3, &imports));
    // functions: one of type 0
    bytes.extend(section_of(3, 1, &[0]));
    // tables: function references, at least 300
    let mut tables = vec![0x70, 0];
    tables.extend(leb(300));
    bytes.extend(section_of(4, 1, &tables));
    // memories: 1 to 3 pages
    bytes.extend(section_of(5, 1, &[1, 1, 3]));
    // globals: a mutable i32
    let mut globals = vec![0x7f, 1];
    globals.extend(init);
    bytes.extend(section_of(6, 1, &globals));
    // exports: the function 1 as "run"
    let mut exports = name_of("run");
    exports.extend([0, 1]);
    bytes.extend(section_of(7, 1, &exports));
    // start: the function 1
    bytes.extend([8, 1, 1]);
    // elements: an active segment of the table 0 with the function 1,
    // and a passive one of two expressions
    let mut elements = vec![2, 0];
    elements.extend(offset);
    elements.extend([0, 1, 1]);
    elements.extend([5, 0x6f, 2]);
    elements.extend(init);
    elements.extend(offset);
    bytes.extend(section_of(9, 2, &elements));
    // code: the locals i32 and f64, and the instructions
    let mut body = vec![2, 1, 0x7f, 1, 0x7c];
    body.extend(instructions);
    let mut code = leb(body.len() as u32);
    code.extend(body);
    bytes.extend(section_of(10, 1, &code));
    // data: an active segment, a passive one, and an active one in the memory 0
    let mut data = vec![0];
    data.extend(offset);
    data.extend([2, b'h', b'i']);
    data.extend([1, 3, 1, 2, 3]);
    data.extend([2, 0]);
    data.extend(init);
    data.extend([0]);
    bytes.extend(section_of(11, 3, &data));

    let module = Module::load(&bytes).unwrap();
    assert_eq!(module.module_data, bytes);
    assert_eq!(module.version, 1);
    assert_eq!(
        module.types,
        vec![
            FuncType { params: vec![ValueType::I32, ValueType::I64], results: vec![ValueType::I32] },
            FuncType { params: vec![], results: vec![] },
        ]
    );
    assert_eq!(
        module.imports,
        vec![
            ("env".to_string(), long_name, Import::Func(1)),
            ("env".to_string(), "m".to_string(), Import::Memory((1, Some(2)))),
            ("".to_string(), "g".to_string(), Import::Global(ValueType::I64, false)),
        ]
    );
    assert_eq!(module.functions, vec![0]);
    assert_eq!(module.tables, vec![Table { ty: ReferenceType::FuncRef, limits: (300, None) }]);
    assert_eq!(module.memories, vec![MemorySection { limits: (1, Some(3)) }]);
    assert_eq!(module.globals.len(), 1);
    assert_eq!(module.globals[0].ty, ValueType::I32);
    assert!(module.globals[0].mutable);
    let range = |region: (usize, usize)| &bytes[region.0..region.1];
    let expression = |region: (usize, usize)| &bytes[region.0..=region.1];
    assert_eq!(expression(module.globals[0].expr), &init);
    assert_eq!(
        module.exports,
        vec![ExportEntry { name: "run".to_string(), kind: ImportExportKind::Function, index: 1 }]
    );
    assert_eq!(module.start_function, Some(1));
    assert_eq!(module.element_segments.len(), 2);
    let first = &module.element_segments[0];
    assert_eq!(first.reftype, ReferenceType::FuncRef);
    match (&first.mode, &first.elements) {
        (ElementMode::Active { table_index: 0, expr }, Elements::Function(indices)) => {
            assert_eq!(expression(*expr), &offset);
            assert_eq!(indices, &vec![1]);
        }
        other => panic!("another element segment: {other:?}"),
    }
    let second = &module.element_segments[1];
    assert_eq!(second.reftype, ReferenceType::ExternRef);
    match (&second.mode, &second.elements) {
        (ElementMode::Passive, Elements::Expression(expressions)) => {
            assert_eq!(expressions.len(), 2);
            assert_eq!(expression(expressions[0]), &init);
            assert_eq!(expression(expressions[1]), &offset);
        }
        other => panic!("another element segment: {other:?}"),
    }
    assert_eq!(module.code.len(), 1);
    assert_eq!(module.code[0].locals, vec![ValueType::I32, ValueType::F64]);
    assert_eq!(range(module.code[0].code), &instructions);
    assert_eq!(module.data.len(), 3);
    match module.data[0] {
        Data::Active { expr, data } => {
            assert_eq!(expression(expr), &offset);
            assert_eq!(range(data), b"hi");
        }
        other => panic!("another data segment: {other:?}"),
    }
    match module.data[1] {
        Data::Passive { data } => assert_eq!(range(data), &[1, 2, 3]),
        other => panic!("another data segment: {other:?}"),
    }
    match module.data[2] {
        Data::ActiveMemIdx { memidx: 0, expr, data } => {
            assert_eq!(expression(expr), &init);
            assert_eq!(range(data), &[] as &[u8]);
        }
        other => panic!("another data segment: {other:?}"),
    }
}
