use wasbox::decode::{DecodeError, Malformed};
use wasbox::module::leb128::LEB128Reader;
use wasbox::{TypeSignature, ValueType};

fn malformed(reason: Malformed) -> DecodeError {
    DecodeError::MalformedMemory(reason)
}

#[test]
fn unsigned_integers_add_up_their_groups_of_seven_bits() {
    let bytes = [0x00, 0x7f, 0x80, 0x01, 0xe5, 0x8e, 0x26, 0xff, 0xff, 0xff, 0xff, 0x0f];
    let mut reader = LEB128Reader::new(&bytes, 0);
    assert_eq!(reader.load_imm_varuint32(), Ok(0));
    assert_eq!(reader.load_imm_varuint32(), Ok(127));
    assert_eq!(reader.load_imm_varuint32(), Ok(128));
    assert_eq!(reader.position(), 4);
    assert_eq!(reader.load_imm_varuint32(), Ok(624485));
    assert_eq!(reader.load_imm_varuint32(), Ok(u32::MAX));
    assert_eq!(reader.position(), 12);
    assert_eq!(reader.remaining(), 0);
    assert_eq!(reader.load_imm_varuint32(), Err(malformed(Malformed::UnexpectedEnd)));
}

#[test]
fn an_unsigned_integer_of_32_bits_has_at_most_five_bytes_and_32_bits() {
    let too_large = [0xff, 0xff, 0xff, 0xff, 0x10];
    assert_eq!(
        LEB128Reader::new(&too_large, 0).load_imm_varuint32(),
        Err(malformed(Malformed::IntegerTooLarge))
    );
    let too_long = [0x80, 0x80, 0x80, 0x80, 0x80, 0x00];
    assert_eq!(
        LEB128Reader::new(&too_long, 0).load_imm_varuint32(),
        Err(malformed(Malformed::IntegerTooLong))
    );
    let truncated = [0x80, 0x80];
    assert_eq!(
        LEB128Reader::new(&truncated, 0).load_imm_varuint32(),
        Err(malformed(Malformed::UnexpectedEnd))
    );
    // padding with zero groups is in order while the length allows
    let padded = [0x81, 0x80, 0x80, 0x80, 0x00];
    assert_eq!(LEB128Reader::new(&padded, 0).load_imm_varuint32(), Ok(1));
}

#[test]
fn unsigned_integers_of_64_bits_have_at_most_ten_bytes() {
    let max = [0xff, 0xff, 0xff, 0xff, 0xff, 0xff, 0xff, 0xff, 0xff, 0x01];
    assert_eq!(LEB128Reader::new(&max, 0).load_imm_varuint64(), Ok(u64::MAX));
    let too_large = [0xff, 0xff, 0xff, 0xff, 0xff, 0xff, 0xff, 0xff, 0xff, 0x02];
    assert_eq!(
        LEB128Reader::new(&too_large, 0).load_imm_varuint64(),
        Err(malformed(Malformed::IntegerTooLarge))
    );
    let too_long = [0x80, 0x80, 0x80, 0x80, 0x80, 0x80, 0x80, 0x80, 0x80, 0x80, 0x00];
    assert_eq!(
        LEB128Reader::new(&too_long, 0).load_imm_varuint64(),
        Err(malformed(Malformed::IntegerTooLong))
    );
    let five = [0x80, 0x80, 0x80, 0x80, 0x10];
    assert_eq!(LEB128Reader::new(&five, 0).load_imm_varuint64(), Ok(1 << 32));
}

#[test]
fn signed_integers_take_their_sign_from_bit_six_of_the_last_byte() {
    let cases: [(&[u8], i32); 8] = [
        (&[0x00], 0),
        (&[0x3f], 63),
        (&[0x40], -64),
        (&[0x7f], -1),
        (&[0xc0, 0x00], 64),
        (&[0xc0, 0xbb, 0x78], -123456),
        (&[0xff, 0xff, 0xff, 0xff, 0x07], i32::MAX),
        (&[0x80, 0x80, 0x80, 0x80, 0x78], i32::MIN),
    ];
    for (bytes, expected) in cases {
        let mut reader = LEB128Reader::new(bytes, 0);
        assert_eq!(reader.load_imm_signed_varint32(), Ok(expected));
        assert_eq!(reader.position(), bytes.len());
    }
}

#[test]
fn the_unused_bits_of_a_signed_integer_must_agree_with_its_sign() {
    // positive, with a bit set above bit 31
    assert_eq!(
        LEB128Reader::new(&[0xff, 0xff, 0xff, 0xff, 0x0f], 0).load_imm_signed_varint32(),
        Err(malformed(Malformed::IntegerTooLarge))
    );
    // negative, with a bit clear above bit 31
    assert_eq!(
        LEB128Reader::new(&[0x80, 0x80, 0x80, 0x80, 0x68], 0).load_imm_signed_varint32(),
        Err(malformed(Malformed::IntegerTooLarge))
    );
    assert_eq!(
        LEB128Reader::new(&[0x80, 0x80, 0x80, 0x80, 0x80, 0x7f], 0).load_imm_signed_varint32(),
        Err(malformed(Malformed::IntegerTooLong))
    );
    assert_eq!(
        LEB128Reader::new(&[0x80], 0).load_imm_signed_varint64(),
        Err(malformed(Malformed::UnexpectedEnd))
    );
}

#[test]
fn signed_integers_of_64_bits_reach_both_ends() {
    let min = [0x80, 0x80, 0x80, 0x80, 0x80, 0x80, 0x80, 0x80, 0x80, 0x7f];
    assert_eq!(LEB128Reader::new(&min, 0).load_imm_signed_varint64(), Ok(i64::MIN));
    let max = [0xff, 0xff, 0xff, 0xff, 0xff, 0xff, 0xff, 0xff, 0xff, 0x00];
    assert_eq!(LEB128Reader::new(&max, 0).load_imm_signed_varint64(), Ok(i64::MAX));
    let bad = [0xff, 0xff, 0xff, 0xff, 0xff, 0xff, 0xff, 0xff, 0xff, 0x01];
    assert_eq!(
        LEB128Reader::new(&bad, 0).load_imm_signed_varint64(),
        Err(malformed(Malformed::IntegerTooLarge))
    );
    assert_eq!(LEB128Reader::new(&[0x7e], 0).load_imm_signed_varint64(), Ok(-2));
}

#[test]
fn an_unsigned_integer_reads_as_twos_complement_on_request() {
    assert_eq!(
        LEB128Reader::new(&[0xff, 0xff, 0xff, 0xff, 0x0f], 0).load_imm_varint32(),
        Ok(-1)
    );
    assert_eq!(LEB128Reader::new(&[0x7f], 0).load_imm_varint32(), Ok(127));
    assert_eq!(
        LEB128Reader::new(&[0x80, 0x80, 0x80, 0x80, 0x08], 0).load_imm_varint32(),
        Ok(i32::MIN)
    );
}

#[test]
fn the_cursor_moves_and_may_stand_beyond_the_end() {
    let bytes = [1, 2, 3, 4];
    let mut reader = LEB128Reader::new(&bytes, 1);
    assert_eq!(reader.position(), 1);
    assert_eq!(reader.remaining(), 3);
    assert_eq!(reader.len(), 4);
    assert!(reader.has_more());
    assert_eq!(reader.load_imm_u8(), Ok(2));
    reader.advance(2);
    assert_eq!(reader.remaining(), 0);
    assert!(!reader.has_more());
    reader.advance(3);
    assert_eq!(reader.position(), 7);
    assert_eq!(reader.remaining(), -3);
    assert_eq!(reader.load_imm_u8(), Err(malformed(Malformed::UnexpectedEnd)));
}

#[test]
fn float_constants_are_little_endian_bit_patterns() {
    let mut bytes = 1.5f32.to_le_bytes().to_vec();
    bytes.extend_from_slice(&(-2.25f64).to_le_bytes());
    bytes.extend_from_slice(&[0, 0, 0]);
    let mut reader = LEB128Reader::new(&bytes, 0);
    assert_eq!(reader.load_imm_f32(), Ok(1.5f32.to_bits()));
    assert_eq!(reader.load_imm_f64(), Ok((-2.25f64).to_bits()));
    assert_eq!(reader.position(), 12);
    assert_eq!(reader.load_imm_f32(), Err(malformed(Malformed::UnexpectedEnd)));
    assert_eq!(reader.load_imm_f64(), Err(malformed(Malformed::UnexpectedEnd)));
}

#[test]
fn arrays_carry_their_count() {
    let bytes = [3, 1, 0x80, 0x01, 0xff, 0xff, 0xff, 0xff, 0x0f, 0, 2, 5];
    let mut reader = LEB128Reader::new(&bytes, 0);
    assert_eq!(reader.load_array_varu32(), Ok(vec![1, 128, u32::MAX]));
    assert_eq!(reader.load_array_varu32(), Ok(vec![]));
    assert_eq!(
        reader.load_array_varu32(),
        Err(malformed(Malformed::UnexpectedEnd))
    );
    let mut reader = LEB128Reader::new(&bytes, 0);
    assert_eq!(reader.load_array_i32(), Ok(vec![1, 128, -1]));
}

#[test]
fn strings_and_data_carry_their_length() {
    let bytes = [2, b'h', b'i', 3, 9, 8, 7, 2, 0xc3, 0x28, 5, 1];
    let mut reader = LEB128Reader::new(&bytes, 0);
    assert_eq!(reader.load_string(), Ok("hi".to_string()));
    assert_eq!(reader.load_data(), Ok((4, 7)));
    assert_eq!(reader.position(), 7);
    assert_eq!(reader.load_string(), Err(malformed(Malformed::InvalidString)));
    let mut reader = LEB128Reader::new(&bytes, 10);
    assert_eq!(reader.load_data(), Err(malformed(Malformed::UnexpectedEnd)));
    let mut reader = LEB128Reader::new(&bytes, 10);
    assert_eq!(reader.load_string(), Err(malformed(Malformed::UnexpectedEnd)));
    let mut reader = LEB128Reader::new(&[0], 0);
    assert_eq!(reader.load_string(), Ok(String::new()));
}

#[test]
fn an_expression_ends_at_the_end_that_closes_it() {
    // i32.const 5; block; nop; end; end; then something else
    let bytes = [0xaa, 0x41, 0x05, 0x02, 0x40, 0x01, 0x0b, 0x0b, 0x01];
    let mut reader = LEB128Reader::new(&bytes, 1);
    assert_eq!(reader.load_expr(), Ok((1, 7)));
    assert_eq!(reader.position(), 8);
    // an expression that never ends
    let mut reader = LEB128Reader::new(&bytes[..7], 1);
    assert_eq!(reader.load_expr(), Err(malformed(Malformed::UnexpectedEnd)));
}

#[test]
fn value_types_and_signatures_have_their_bytes() {
    assert_eq!(ValueType::from_u32(0x7f), Ok(ValueType::I32));
    assert_eq!(ValueType::from_u32(0x7e), Ok(ValueType::I64));
    assert_eq!(ValueType::from_u32(0x7d), Ok(ValueType::F32));
    assert_eq!(ValueType::from_u32(0x7c), Ok(ValueType::F64));
    assert_eq!(ValueType::from_u32(0x7b), Ok(ValueType::V128));
    assert_eq!(ValueType::from_u32(0x70), Ok(ValueType::FuncRef));
    assert_eq!(ValueType::from_u32(0x6f), Ok(ValueType::ExternRef));
    assert_eq!(ValueType::from_u32(0x40), Ok(ValueType::Unit));
    assert_eq!(ValueType::from_u32(0x41), Err(DecodeError::InvalidSignature(0x41)));
    let bytes = [0x7f, 0x40, 0x05, 0xff, 0xff, 0xff, 0xff, 0x0f, 0x80, 0x01];
    let mut reader = LEB128Reader::new(&bytes, 0);
    assert_eq!(
        ValueType::read_signature(&mut reader),
        Ok(TypeSignature::ValueType(ValueType::I32))
    );
    assert_eq!(
        ValueType::read_signature(&mut reader),
        Ok(TypeSignature::ValueType(ValueType::Unit))
    );
    assert_eq!(ValueType::read_signature(&mut reader), Ok(TypeSignature::Index(5)));
    // -1 read as a 32-bit integer: its magnitude 1 is no type byte
    assert_eq!(
        ValueType::read_signature(&mut reader),
        Err(DecodeError::InvalidSignature(1))
    );
    assert_eq!(ValueType::read(&mut reader), Err(DecodeError::InvalidSignature(128)));
    assert_eq!(wasbox::add(2, 3), 5);
}
