//! The binary module format: the sections of a module, decoded, with byte
//! ranges into the buffer that was loaded for expressions, bodies and
//! payloads.
use crate::decode::DecodeError;
use crate::{views, FuncType, FuncTypeView, ValueType};
use vstd::prelude::*;

pub mod encode;
pub mod leb128;
pub mod parse;

pub use crate::module::leb128::LEB128Reader;

verus! {

/// The id of a custom section.
pub const SECTION_ID_CUSTOM: u8 = 0;

/// The id of the type section.
pub const SECTION_ID_TYPE: u8 = 1;

/// The id of the import section.
pub const SECTION_ID_IMPORT: u8 = 2;

/// The id of the function section.
pub const SECTION_ID_FUNCTION: u8 = 3;

/// The id of the table section.
pub const SECTION_ID_TABLE: u8 = 4;

/// The id of the memory section.
pub const SECTION_ID_MEMORY: u8 = 5;

/// The id of the global section.
pub const SECTION_ID_GLOBAL: u8 = 6;

/// The id of the export section.
pub const SECTION_ID_EXPORT: u8 = 7;

/// The id of the start section.
pub const SECTION_ID_START: u8 = 8;

/// The id of the element section.
pub const SECTION_ID_ELEMENT: u8 = 9;

/// The id of the code section.
pub const SECTION_ID_CODE: u8 = 10;

/// The id of the data section.
pub const SECTION_ID_DATA: u8 = 11;

/// The id of the data count section.
pub const SECTION_ID_DATA_COUNT: u8 = 12;

/// Why a module could not be loaded.
#[derive(Debug, Clone, Copy, PartialEq, Eq, Structural)]
pub enum LoaderError {
    InvalidMagicNumber,
    InvalidVersion,
    InvalidSectionType(u8),
    InvalidImportType(u8),
    InvalidReferenceType(u8),
    InvalidInstruction,
    MismatchedBlockStack,
    UnsupportedSectionType(SectionType),
    UnsupportedElementSegment(u8),
    DecoderError(DecodeError),
}

/// The sections of a module.
#[derive(Debug, Copy, Clone, PartialEq, Eq, Structural)]
pub enum SectionType {
    Custom,
    Type,
    Import,
    Function,
    Table,
    Memory,
    Global,
    Export,
    Start,
    Element,
    Code,
    Data,
    DataCount,
}

impl SectionType {
    /// The section that an id stands for.
    pub open spec fn spec_from_u8(value: u8) -> Result<SectionType, LoaderError> {
        if value == SECTION_ID_CUSTOM {
            Ok(SectionType::Custom)
        } else if value == SECTION_ID_TYPE {
            Ok(SectionType::Type)
        } else if value == SECTION_ID_IMPORT {
            Ok(SectionType::Import)
        } else if value == SECTION_ID_FUNCTION {
            Ok(SectionType::Function)
        } else if value == SECTION_ID_TABLE {
            Ok(SectionType::Table)
        } else if value == SECTION_ID_MEMORY {
            Ok(SectionType::Memory)
        } else if value == SECTION_ID_GLOBAL {
            Ok(SectionType::Global)
        } else if value == SECTION_ID_EXPORT {
            Ok(SectionType::Export)
        } else if value == SECTION_ID_START {
            Ok(SectionType::Start)
        } else if value == SECTION_ID_ELEMENT {
            Ok(SectionType::Element)
        } else if value == SECTION_ID_CODE {
            Ok(SectionType::Code)
        } else if value == SECTION_ID_DATA {
            Ok(SectionType::Data)
        } else if value == SECTION_ID_DATA_COUNT {
            Ok(SectionType::DataCount)
        } else {
            Err(LoaderError::InvalidSectionType(value))
        }
    }

    /// The place of a section in the canonical order; 0 for a custom
    /// section, which may stand anywhere.
    pub open spec fn spec_rank(self) -> u8 {
        match self {
            SectionType::Custom => 0,
            SectionType::Type => 1,
            SectionType::Import => 2,
            SectionType::Function => 3,
            SectionType::Table => 4,
            SectionType::Memory => 5,
            SectionType::Global => 6,
            SectionType::Export => 7,
            SectionType::Start => 8,
            SectionType::Element => 9,
            SectionType::DataCount => 10,
            SectionType::Code => 11,
            SectionType::Data => 12,
        }
    }

    /// The section that an id stands for.
    pub fn from_u8(value: u8) -> (r: Result<Self, LoaderError>)
        ensures
            r == Self::spec_from_u8(value),
    {
        match value {
            0 => Ok(SectionType::Custom),
            1 => Ok(SectionType::Type),
            2 => Ok(SectionType::Import),
            3 => Ok(SectionType::Function),
            4 => Ok(SectionType::Table),
            5 => Ok(SectionType::Memory),
            6 => Ok(SectionType::Global),
            7 => Ok(SectionType::Export),
            8 => Ok(SectionType::Start),
            9 => Ok(SectionType::Element),
            10 => Ok(SectionType::Code),
            11 => Ok(SectionType::Data),
            12 => Ok(SectionType::DataCount),
            _ => Err(LoaderError::InvalidSectionType(value)),
        }
    }

    /// The place of this section in the canonical order.
    pub fn rank(self) -> (r: u8)
        ensures
            r == self.spec_rank(),
    {
        match self {
            SectionType::Custom => 0,
            SectionType::Type => 1,
            SectionType::Import => 2,
            SectionType::Function => 3,
            SectionType::Table => 4,
            SectionType::Memory => 5,
            SectionType::Global => 6,
            SectionType::Export => 7,
            SectionType::Start => 8,
            SectionType::Element => 9,
            SectionType::DataCount => 10,
            SectionType::Code => 11,
            SectionType::Data => 12,
        }
    }
}

/// The type of a reference: to a function, or to something of the host.
#[derive(Debug, Copy, Clone, PartialEq, Eq, Structural)]
pub enum ReferenceType {
    FuncRef,
    ExternRef,
}

impl ReferenceType {
    /// The reference type that a byte stands for.
    pub open spec fn spec_from_u8(value: u8) -> Result<ReferenceType, LoaderError> {
        if value == 0x70 {
            Ok(ReferenceType::FuncRef)
        } else if value == 0x6f {
            Ok(ReferenceType::ExternRef)
        } else {
            Err(LoaderError::InvalidReferenceType(value))
        }
    }

    /// The reference type that a byte stands for.
    pub fn from_u8(value: u8) -> (r: Result<Self, LoaderError>)
        ensures
            r == Self::spec_from_u8(value),
    {
        match value {
            0x70 => Ok(ReferenceType::FuncRef),
            0x6f => Ok(ReferenceType::ExternRef),
            _ => Err(LoaderError::InvalidReferenceType(value)),
        }
    }
}

/// Where a section stands.
pub struct SectionInfo {
    pub id: u8,
    pub offset: usize,
}

/// An export: a name, what kind of thing is exported, and its index.
#[derive(Debug, Clone, PartialEq)]
pub struct ExportEntry {
    pub name: String,
    pub kind: ImportExportKind,
    pub index: u32,
}

/// The mathematical content of an [`ExportEntry`].
pub struct ExportEntryView {
    pub name: Seq<char>,
    pub kind: ImportExportKind,
    pub index: u32,
}

impl View for ExportEntry {
    type V = ExportEntryView;

    open spec fn view(&self) -> ExportEntryView {
        ExportEntryView { name: self.name@, kind: self.kind, index: self.index }
    }
}

/// Declaration of a table in the module.
#[derive(Debug, Clone, Copy, PartialEq, Eq)]
pub struct Table {
    pub ty: ReferenceType,
    pub limits: (u32, Option<u32>),
}

/// Declaration of a memory in the module.
#[derive(Debug, Clone, Copy, PartialEq, Eq)]
pub struct MemorySection {
    /// Min pages, optional max pages.
    pub limits: (u32, Option<u32>),
}

/// A byte range of the module's buffer: start and end.
pub type Region = (usize, usize);

/// A data segment.
#[derive(Debug, Clone, Copy, PartialEq, Eq)]
pub enum Data {
    Active { expr: Region, data: Region },
    Passive { data: Region },
    ActiveMemIdx { memidx: u32, expr: Region, data: Region },
}

/// The body of a function: its declared locals, and where its instructions
/// stand.
#[derive(Debug)]
pub struct Code {
    pub locals: Vec<ValueType>,
    pub code: Region,
}

/// The mathematical content of a [`Code`].
pub struct CodeView {
    pub locals: Seq<ValueType>,
    pub code: Region,
}

impl View for Code {
    type V = CodeView;

    open spec fn view(&self) -> CodeView {
        CodeView { locals: self.locals@, code: self.code }
    }
}

/// What kind of thing is imported or exported.
#[derive(Debug, Copy, Clone, PartialEq, Eq, Structural)]
pub enum ImportExportKind {
    Function,
    Table,
    Memory,
    Global,
}

/// What an import asks for.
#[derive(Debug, Clone, Copy, PartialEq, Eq)]
pub enum Import {
    Func(u32),
    Table(ReferenceType, (u32, Option<u32>)),
    Memory((u32, Option<u32>)),
    Global(ValueType, bool),
}

/// Declaration of a global: its type, whether it is mutable, and where the
/// expression of its initial value stands.
#[derive(Debug, Clone, Copy, PartialEq, Eq)]
pub struct Global {
    pub ty: ValueType,
    pub mutable: bool,
    pub expr: Region,
}

/// The mode of an element segment.
#[derive(Debug, Clone, Copy, PartialEq, Eq)]
pub enum ElementMode {
    Passive,
    Active { table_index: u32, expr: Region },
    Declarative,
}

/// The payload of an element segment.
#[derive(Debug)]
pub enum Elements {
    Function(Vec<u32>),
    Expression(Vec<Region>),
}

/// The mathematical content of an [`Elements`].
pub enum ElementsView {
    Function(Seq<u32>),
    Expression(Seq<Region>),
}

impl View for Elements {
    type V = ElementsView;

    open spec fn view(&self) -> ElementsView {
        match self {
            Elements::Function(v) => ElementsView::Function(v@),
            Elements::Expression(v) => ElementsView::Expression(v@),
        }
    }
}

/// An element segment.
#[derive(Debug)]
pub struct ElementSegment {
    pub reftype: ReferenceType,
    pub elements: Elements,
    pub mode: ElementMode,
}

/// The mathematical content of an [`ElementSegment`].
pub struct ElementSegmentView {
    pub reftype: ReferenceType,
    pub elements: ElementsView,
    pub mode: ElementMode,
}

impl View for ElementSegment {
    type V = ElementSegmentView;

    open spec fn view(&self) -> ElementSegmentView {
        ElementSegmentView { reftype: self.reftype, elements: self.elements@, mode: self.mode }
    }
}

impl ImportExportKind {
    /// The kind that a byte stands for.
    pub open spec fn spec_from_u8(value: u8) -> Result<ImportExportKind, LoaderError> {
        if value == 0 {
            Ok(ImportExportKind::Function)
        } else if value == 1 {
            Ok(ImportExportKind::Table)
        } else if value == 2 {
            Ok(ImportExportKind::Memory)
        } else if value == 3 {
            Ok(ImportExportKind::Global)
        } else {
            Err(LoaderError::InvalidImportType(value))
        }
    }

    /// The kind that a byte stands for.
    pub fn from_u8(value: u8) -> (r: Result<Self, LoaderError>)
        ensures
            r == Self::spec_from_u8(value),
    {
        match value {
            0x00 => Ok(ImportExportKind::Function),
            0x01 => Ok(ImportExportKind::Table),
            0x02 => Ok(ImportExportKind::Memory),
            0x03 => Ok(ImportExportKind::Global),
            _ => Err(LoaderError::InvalidImportType(value)),
        }
    }
}

/// An import: the module name, the field name, and what is imported.
pub type ImportEntry = (String, String, Import);

/// The mathematical content of an import.
pub type ImportEntryView = (Seq<char>, Seq<char>, Import);

/// The mathematical content of a list of imports.
pub open spec fn import_views(s: Seq<ImportEntry>) -> Seq<ImportEntryView> {
    Seq::new(s.len(), |i: int| (s[i].0@, s[i].1@, s[i].2))
}

/// A loaded module: the sections, decoded, over the bytes that were loaded.
pub struct Module {
    /// The binary as it was given.
    pub module_data: Vec<u8>,
    pub version: u32,
    pub types: Vec<FuncType>,
    pub code: Vec<Code>,
    pub tables: Vec<Table>,
    pub functions: Vec<usize>,
    pub exports: Vec<ExportEntry>,
    pub imports: Vec<ImportEntry>,
    pub memories: Vec<MemorySection>,
    pub globals: Vec<Global>,
    pub data: Vec<Data>,
    pub start_function: Option<usize>,
    pub element_segments: Vec<ElementSegment>,
}

/// The mathematical content of a [`Module`].
pub struct ModuleView {
    pub module_data: Seq<u8>,
    pub version: u32,
    pub types: Seq<FuncTypeView>,
    pub code: Seq<CodeView>,
    pub tables: Seq<Table>,
    pub functions: Seq<usize>,
    pub exports: Seq<ExportEntryView>,
    pub imports: Seq<ImportEntryView>,
    pub memories: Seq<MemorySection>,
    pub globals: Seq<Global>,
    pub data: Seq<Data>,
    pub start_function: Option<usize>,
    pub element_segments: Seq<ElementSegmentView>,
}

impl View for Module {
    type V = ModuleView;

    open spec fn view(&self) -> ModuleView {
        ModuleView {
            module_data: self.module_data@,
            version: self.version,
            types: views(self.types@),
            code: views(self.code@),
            tables: self.tables@,
            functions: self.functions@,
            exports: views(self.exports@),
            imports: import_views(self.imports@),
            memories: self.memories@,
            globals: self.globals@,
            data: self.data@,
            start_function: self.start_function,
            element_segments: views(self.element_segments@),
        }
    }
}

impl Module {
    /// The bytes of the body of the function `index`.
    pub fn code(&self, index: usize) -> (r: &[u8])
        requires
            index < self@.code.len(),
            self@.code[index as int].code.0 <= self@.code[index as int].code.1
                <= self@.module_data.len(),
        ensures
            r@ == self@.module_data.subrange(
                self@.code[index as int].code.0 as int,
                self@.code[index as int].code.1 as int,
            ),
    {
        let code = &self.code[index];
        let (start, end) = code.code;
        vstd::slice::slice_subrange(self.module_data.as_slice(), start, end)
    }

    /// The bytes of an expression, without the `end` that closes it.
    pub fn get_expr(&self, region: &Region) -> (r: &[u8])
        requires
            region.0 <= region.1 < self@.module_data.len(),
            self@.module_data[region.1 as int] == 0x0b,
        ensures
            r@ == self@.module_data.subrange(region.0 as int, region.1 as int),
    {
        vstd::slice::slice_subrange(self.module_data.as_slice(), region.0, region.1)
    }
}

impl LoaderError {
    /// The text of the error, without the numbers that it carries.
    pub open spec fn spec_message(self) -> Seq<char> {
        match self {
            LoaderError::InvalidMagicNumber => "Invalid magic number"@,
            LoaderError::InvalidVersion => "Invalid version"@,
            LoaderError::InvalidSectionType(_) => "Invalid section type"@,
            LoaderError::InvalidImportType(_) => "Invalid import type"@,
            LoaderError::InvalidReferenceType(_) => "Invalid reference type"@,
            LoaderError::InvalidInstruction => "Invalid instruction"@,
            LoaderError::MismatchedBlockStack => "Mismatched block stack"@,
            LoaderError::UnsupportedSectionType(_) => "Unsupported section type"@,
            LoaderError::UnsupportedElementSegment(_) => "Unsupported element kind"@,
            LoaderError::DecoderError(e) => e.spec_message(),
        }
    }

    /// The text of the error, without the numbers that it carries.
    pub fn message(&self) -> (r: String)
        ensures
            r@ == self.spec_message(),
    {
        match self {
            LoaderError::InvalidMagicNumber => "Invalid magic number".to_owned(),
            LoaderError::InvalidVersion => "Invalid version".to_owned(),
            LoaderError::InvalidSectionType(_) => "Invalid section type".to_owned(),
            LoaderError::InvalidImportType(_) => "Invalid import type".to_owned(),
            LoaderError::InvalidReferenceType(_) => "Invalid reference type".to_owned(),
            LoaderError::InvalidInstruction => "Invalid instruction".to_owned(),
            LoaderError::MismatchedBlockStack => "Mismatched block stack".to_owned(),
            LoaderError::UnsupportedSectionType(_) => "Unsupported section type".to_owned(),
            LoaderError::UnsupportedElementSegment(_) => "Unsupported element kind".to_owned(),
            LoaderError::DecoderError(e) => e.message(),
        }
    }
}

} // verus!
