use wasbox::decode::{DecodeError, DecodeFailure, Malformed, Proposal};
use wasbox::exec::{Continuation, ExecError, Fault};
use wasbox::instance::{LinkError, Unsupported};
use wasbox::module::{LoaderError, SectionType};
use wasbox::ValueType;

#[test]
fn traps_speak_in_the_words_of_the_conformance_suite() {
    assert_eq!(Fault::IntegerDivisionByZero.message(), "integer divide by zero");
    assert_eq!(Fault::MemoryOutOfBounds.message(), "out of bounds memory access");
    assert_eq!(Fault::UndefinedElement.message(), "undefined element");
    assert_eq!(Fault::UninitializedElement.message(), "uninitialized element");
    assert_eq!(Fault::IndirectCallTypeMismatch.message(), "indirect call type mismatch");
    assert_eq!(Fault::InvalidConversion.message(), "invalid conversion to integer");
    assert_eq!(Fault::IntegerOverflow.message(), "integer overflow");
    assert_eq!(Fault::CallStackDepthLimit.message(), "call stack exhausted");
}

#[test]
fn every_fault_has_a_text_of_its_own() {
    let faults = [
        Fault::OutOfTicks,
        Fault::UnexpectedResult(Continuation::ProgramEnd),
        Fault::StackUnderflow,
        Fault::ControlStackUnderflow,
        Fault::LocalIndexOutOfBounds,
        Fault::GlobalIndexOutOfBounds,
        Fault::MemoryOutOfBounds,
        Fault::CannotGrowMemory,
        Fault::UnresolvableTypeIndex(3),
        Fault::InvalidRefType,
        Fault::NullReference,
        Fault::IntegerDivisionByZero,
        Fault::IntegerOverflow,
        Fault::UndefinedElement,
        Fault::UninitializedElement,
        Fault::InvalidConversion,
        Fault::IndirectCallTypeMismatch,
        Fault::CallStackDepthLimit,
        Fault::ArgumentTypeMismatch,
    ];
    let mut texts: Vec<String> = faults.iter().map(|f| f.message()).collect();
    assert!(texts.iter().all(|t| !t.is_empty()));
    texts.sort();
    texts.dedup();
    assert_eq!(texts.len(), faults.len());
}

#[test]
fn errors_of_loading_and_linking_name_their_rule() {
    assert_eq!(
        DecodeError::MalformedMemory(Malformed::IntegerTooLong).message(),
        "integer representation too long"
    );
    assert_eq!(
        DecodeError::MalformedMemory(Malformed::IntegerTooLarge).message(),
        "integer too large"
    );
    assert_eq!(
        DecodeError::MalformedMemory(Malformed::UnexpectedEnd).message(),
        "unexpected end of section or function"
    );
    assert_eq!(DecodeError::InvalidOpcode(9).message(), "Invalid opcode");
    assert_eq!(
        DecodeError::UnimplementedOpcode(0xfd, Proposal::Simd).message(),
        "SIMD proposal not supported"
    );
    assert_eq!(
        DecodeError::FailedToDecode(DecodeFailure::SectionLengthMismatch).message(),
        "Section length mismatch"
    );
    assert_eq!(LoaderError::InvalidMagicNumber.message(), "Invalid magic number");
    assert_eq!(
        LoaderError::UnsupportedSectionType(SectionType::Custom).message(),
        "Unsupported section type"
    );
    assert_eq!(
        LoaderError::DecoderError(DecodeError::InvalidSignature(1)).message(),
        "Invalid signature"
    );
    assert_eq!(LinkError::MissingMemory.message(), "No memory found");
    assert_eq!(
        LinkError::ArgumentTypeMismatch(0, ValueType::I32, ValueType::I64).message(),
        "Argument type mismatch"
    );
    assert_eq!(
        LinkError::UnsupportedFeature(Unsupported::MultipleMemories).message(),
        "Multiple memories not supported"
    );
    assert_eq!(
        ExecError::LinkageError(LinkError::FunctionNotFound).message(),
        "Function not found"
    );
    assert_eq!(
        ExecError::Fault(Fault::NullReference).message(),
        Fault::NullReference.message()
    );
    assert_eq!(
        LinkError::ActiveExpressionError(Fault::OutOfTicks).message(),
        "Out of ticks"
    );
}
