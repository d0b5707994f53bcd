//! A cursor over a byte slice with LEB128 and little-endian primitives.
//!
//! Every reading is specified by a function of the bytes and the position
//! alone, which gives the value read and the position after it, or the
//! error.
use crate::decode::{DecodeError, Malformed};
use vstd::prelude::*;
use vstd::utf8::{decode_utf8, valid_utf8};

verus! {

/// 128 to the power `i`: the weight of the `i`-th group of seven bits.
pub open spec fn pow128(i: nat) -> int
    decreases i,
{
    if i == 0 {
        1
    } else {
        128 * pow128((i - 1) as nat)
    }
}

/// The index of the last byte that an encoding may have: 4 for 32 bits,
/// 9 for 64 bits.
pub open spec fn leb_max_index(wide: bool) -> nat {
    if wide {
        9
    } else {
        4
    }
}

/// Whether `value` fits the integer type of that width and signedness.
pub open spec fn leb_fits(value: int, signed: bool, wide: bool) -> bool {
    if signed {
        if wide {
            -0x8000_0000_0000_0000 <= value <= 0x7fff_ffff_ffff_ffff
        } else {
            -0x8000_0000 <= value <= 0x7fff_ffff
        }
    } else {
        if wide {
            0 <= value <= 0xffff_ffff_ffff_ffff
        } else {
            0 <= value <= 0xffff_ffff
        }
    }
}

/// The LEB128 integer whose byte number `index` stands at `pos`, where the
/// bytes before it have contributed `acc`. Each byte contributes its low
/// seven bits times `128^index`; the first byte below 128 ends the integer,
/// and in a signed integer its bit 6 is the sign.
pub open spec fn spec_leb(
    s: Seq<u8>,
    pos: int,
    signed: bool,
    wide: bool,
    index: nat,
    acc: int,
) -> Result<(int, int), DecodeError>
    decreases leb_max_index(wide) + 1 - index,
{
    if !(0 <= pos < s.len()) {
        Err(DecodeError::MalformedMemory(Malformed::UnexpectedEnd))
    } else {
        let low = (s[pos] % 128) as int;
        let raw = acc + low * pow128(index);
        if s[pos] < 128 {
            let value = if signed && low >= 64 {
                raw - pow128(index + 1)
            } else {
                raw
            };
            if leb_fits(value, signed, wide) {
                Ok((value, pos + 1))
            } else {
                Err(DecodeError::MalformedMemory(Malformed::IntegerTooLarge))
            }
        } else if index >= leb_max_index(wide) {
            Err(DecodeError::MalformedMemory(Malformed::IntegerTooLong))
        } else {
            spec_leb(s, pos + 1, signed, wide, index + 1, raw)
        }
    }
}

/// An unsigned LEB128 integer of 32 bits.
pub open spec fn spec_varuint32(s: Seq<u8>, pos: int) -> Result<(u32, int), DecodeError> {
    match spec_leb(s, pos, false, false, 0, 0) {
        Ok((v, p)) => Ok((v as u32, p)),
        Err(e) => Err(e),
    }
}

/// An unsigned LEB128 integer of 32 bits, read as two's complement.
pub open spec fn spec_varint32(s: Seq<u8>, pos: int) -> Result<(i32, int), DecodeError> {
    match spec_leb(s, pos, false, false, 0, 0) {
        Ok((v, p)) => Ok(
            (
                if v >= 0x8000_0000 {
                    (v - 0x1_0000_0000) as i32
                } else {
                    v as i32
                },
                p,
            ),
        ),
        Err(e) => Err(e),
    }
}

/// A signed LEB128 integer of 32 bits.
pub open spec fn spec_signed_varint32(s: Seq<u8>, pos: int) -> Result<(i32, int), DecodeError> {
    match spec_leb(s, pos, true, false, 0, 0) {
        Ok((v, p)) => Ok((v as i32, p)),
        Err(e) => Err(e),
    }
}

/// A signed LEB128 integer of 64 bits.
pub open spec fn spec_signed_varint64(s: Seq<u8>, pos: int) -> Result<(i64, int), DecodeError> {
    match spec_leb(s, pos, true, true, 0, 0) {
        Ok((v, p)) => Ok((v as i64, p)),
        Err(e) => Err(e),
    }
}

/// An unsigned LEB128 integer of 64 bits.
pub open spec fn spec_varuint64(s: Seq<u8>, pos: int) -> Result<(u64, int), DecodeError> {
    match spec_leb(s, pos, false, true, 0, 0) {
        Ok((v, p)) => Ok((v as u64, p)),
        Err(e) => Err(e),
    }
}

/// One byte.
pub open spec fn spec_u8(s: Seq<u8>, pos: int) -> Result<(u8, int), DecodeError> {
    if 0 <= pos < s.len() {
        Ok((s[pos], pos + 1))
    } else {
        Err(DecodeError::MalformedMemory(Malformed::UnexpectedEnd))
    }
}

/// The number that `n` bytes from `pos` on spell in little-endian order.
pub open spec fn spec_le(s: Seq<u8>, pos: int, n: nat) -> nat
    decreases n,
{
    if n == 0 {
        0
    } else {
        s[pos] as nat + 256 * spec_le(s, pos + 1, (n - 1) as nat)
    }
}

/// Four bytes in little-endian order: the bit pattern of an `F32` constant.
pub open spec fn spec_fixed32(s: Seq<u8>, pos: int) -> Result<(u32, int), DecodeError> {
    if 0 <= pos && pos + 4 <= s.len() {
        Ok((spec_le(s, pos, 4) as u32, pos + 4))
    } else {
        Err(DecodeError::MalformedMemory(Malformed::UnexpectedEnd))
    }
}

/// Eight bytes in little-endian order: the bit pattern of an `F64` constant.
pub open spec fn spec_fixed64(s: Seq<u8>, pos: int) -> Result<(u64, int), DecodeError> {
    if 0 <= pos && pos + 8 <= s.len() {
        Ok((spec_le(s, pos, 8) as u64, pos + 8))
    } else {
        Err(DecodeError::MalformedMemory(Malformed::UnexpectedEnd))
    }
}

/// `remaining` unsigned 32-bit LEB128 integers from `pos` on, after `acc`.
pub open spec fn spec_items_varu32(s: Seq<u8>, pos: int, remaining: nat, acc: Seq<u32>) -> Result<
    (Seq<u32>, int),
    DecodeError,
>
    decreases remaining,
{
    if remaining == 0 {
        Ok((acc, pos))
    } else {
        match spec_varuint32(s, pos) {
            Ok((v, p)) => spec_items_varu32(s, p, (remaining - 1) as nat, acc.push(v)),
            Err(e) => Err(e),
        }
    }
}

/// A count, then that many unsigned 32-bit LEB128 integers.
pub open spec fn spec_array_varu32(s: Seq<u8>, pos: int) -> Result<(Seq<u32>, int), DecodeError> {
    match spec_varuint32(s, pos) {
        Ok((n, p)) => spec_items_varu32(s, p, n as nat, Seq::empty()),
        Err(e) => Err(e),
    }
}

/// `remaining` unsigned 32-bit LEB128 integers from `pos` on, each read as
/// two's complement, after `acc`.
pub open spec fn spec_items_i32(s: Seq<u8>, pos: int, remaining: nat, acc: Seq<i32>) -> Result<
    (Seq<i32>, int),
    DecodeError,
>
    decreases remaining,
{
    if remaining == 0 {
        Ok((acc, pos))
    } else {
        match spec_varint32(s, pos) {
            Ok((v, p)) => spec_items_i32(s, p, (remaining - 1) as nat, acc.push(v)),
            Err(e) => Err(e),
        }
    }
}

/// A count, then that many unsigned 32-bit LEB128 integers, each read as
/// two's complement.
pub open spec fn spec_array_i32(s: Seq<u8>, pos: int) -> Result<(Seq<i32>, int), DecodeError> {
    match spec_varuint32(s, pos) {
        Ok((n, p)) => spec_items_i32(s, p, n as nat, Seq::empty()),
        Err(e) => Err(e),
    }
}

/// An expression: the offsets of its start and of the `end` that closes it,
/// and the position after that `end`.
pub open spec fn spec_expr(s: Seq<u8>, pos: int) -> Result<((usize, usize), int), DecodeError> {
    match crate::decode::spec_scan_from(s, pos, Seq::empty()) {
        Ok(p) => Ok(((pos as usize, (p - 1) as usize), p)),
        Err(e) => Err(e),
    }
}

/// A length, then that many bytes: their start and end (exclusive).
pub open spec fn spec_data(s: Seq<u8>, pos: int) -> Result<((usize, usize), int), DecodeError> {
    match spec_varuint32(s, pos) {
        Ok((n, p)) => if p + n <= s.len() {
            Ok(((p as usize, (p + n) as usize), p + n))
        } else {
            Err(DecodeError::MalformedMemory(Malformed::UnexpectedEnd))
        },
        Err(e) => Err(e),
    }
}

/// A length, then that many bytes of UTF-8.
pub open spec fn spec_string(s: Seq<u8>, pos: int) -> Result<(Seq<char>, int), DecodeError> {
    match spec_varuint32(s, pos) {
        Ok((n, p)) => if p + n > s.len() {
            Err(DecodeError::MalformedMemory(Malformed::UnexpectedEnd))
        } else if !valid_utf8(s.subrange(p, p + n)) {
            Err(DecodeError::MalformedMemory(Malformed::InvalidString))
        } else {
            Ok((decode_utf8(s.subrange(p, p + n)), p + n))
        },
        Err(e) => Err(e),
    }
}

/// A cursor over a byte slice. The position may stand beyond the end of the
/// slice; every reading from there fails.
pub struct LEB128Reader<'a> {
    data: &'a [u8],
    position: usize,
}

/// What a reading leaves behind: the bytes as they were; on success the
/// expected value and the cursor after it; on failure the expected error.
pub open spec fn reads<T, E>(
    before: LEB128Reader,
    after: LEB128Reader,
    r: Result<T, E>,
    expected: Result<(T, int), E>,
) -> bool {
    &&& after.bytes() == before.bytes()
    &&& match expected {
        Ok((v, p)) => r == Ok::<T, E>(v) && after.cursor() == p,
        Err(e) => r == Err::<T, E>(e),
    }
}

/// A successful reading moves the cursor forward, and not beyond the end.
pub open spec fn advanced<T, E>(before: LEB128Reader, after: LEB128Reader, r: Result<T, E>) -> bool {
    r is Ok ==> before.cursor() < after.cursor() <= after.bytes().len()
}

/// As [`reads`], for a reading whose value is compared by its view.
pub open spec fn reads_view<T: View, E>(
    before: LEB128Reader,
    after: LEB128Reader,
    r: Result<T, E>,
    expected: Result<(T::V, int), E>,
) -> bool {
    &&& after.bytes() == before.bytes()
    &&& match expected {
        Ok((v, p)) => r is Ok && r->Ok_0@ == v && after.cursor() == p,
        Err(e) => r == Err::<T, E>(e),
    }
}

/// As [`reads`], for a list that is compared by the views of its items.
pub open spec fn reads_views<T: View, E>(
    before: LEB128Reader,
    after: LEB128Reader,
    r: Result<Vec<T>, E>,
    expected: Result<(Seq<T::V>, int), E>,
) -> bool {
    &&& after.bytes() == before.bytes()
    &&& match expected {
        Ok((v, p)) => r is Ok && crate::views(r->Ok_0@) == v && after.cursor() == p,
        Err(e) => r == Err::<Vec<T>, E>(e),
    }
}

/// The weights of the ten groups that a 64-bit integer may have, and the one
/// above them.
pub proof fn lemma_pow128()
    ensures
        pow128(0) == 1,
        pow128(1) == 0x80,
        pow128(2) == 0x4000,
        pow128(3) == 0x20_0000,
        pow128(4) == 0x1000_0000,
        pow128(5) == 0x8_0000_0000,
        pow128(6) == 0x400_0000_0000,
        pow128(7) == 0x2_0000_0000_0000,
        pow128(8) == 0x100_0000_0000_0000,
        pow128(9) == 0x8000_0000_0000_0000,
        pow128(10) == 0x40_0000_0000_0000_0000,
{
    reveal_with_fuel(pow128, 11);
}

/// A successful LEB128 reading ends after its start and within the bytes.
pub proof fn lemma_leb_advances(s: Seq<u8>, pos: int, signed: bool, wide: bool, index: nat, acc: int)
    ensures
        spec_leb(s, pos, signed, wide, index, acc) matches Ok((_, p)) ==> pos < p <= s.len(),
    decreases leb_max_index(wide) + 1 - index,
{
    if 0 <= pos < s.len() && s[pos] >= 128 && index < leb_max_index(wide) {
        let raw = acc + ((s[pos] % 128) as int) * pow128(index);
        lemma_leb_advances(s, pos + 1, signed, wide, index + 1, raw);
    }
}

/// Successful readings of integers end after their start and within the
/// bytes.
pub proof fn lemma_varuint_advances(s: Seq<u8>, pos: int)
    ensures
        spec_varuint32(s, pos) matches Ok((_, p)) ==> pos < p <= s.len(),
        spec_varint32(s, pos) matches Ok((_, p)) ==> pos < p <= s.len(),
        spec_varuint64(s, pos) matches Ok((_, p)) ==> pos < p <= s.len(),
        spec_signed_varint32(s, pos) matches Ok((_, p)) ==> pos < p <= s.len(),
        spec_signed_varint64(s, pos) matches Ok((_, p)) ==> pos < p <= s.len(),
{
    lemma_leb_advances(s, pos, false, false, 0, 0);
    lemma_leb_advances(s, pos, false, true, 0, 0);
    lemma_leb_advances(s, pos, true, false, 0, 0);
    lemma_leb_advances(s, pos, true, true, 0, 0);
}

/// A successful reading of a list of integers ends at or after its start
/// and within the bytes.
pub proof fn lemma_items_varu32_advance(s: Seq<u8>, pos: int, remaining: nat, acc: Seq<u32>)
    requires
        pos <= s.len(),
    ensures
        spec_items_varu32(s, pos, remaining, acc) matches Ok((_, p)) ==> pos <= p <= s.len(),
    decreases remaining,
{
    if remaining > 0 {
        lemma_varuint_advances(s, pos);
        match spec_varuint32(s, pos) {
            Ok((v, p)) => lemma_items_varu32_advance(s, p, (remaining - 1) as nat, acc.push(v)),
            Err(_) => {},
        }
    }
}

/// `String::from_utf8` of std: `Some` exactly for well-formed UTF-8, and
/// then the string that the bytes encode.
#[verifier::external_body]
fn string_from_utf8(bytes: Vec<u8>) -> (r: Option<String>)
    ensures
        r is Some <==> valid_utf8(bytes@),
        r matches Some(s) ==> s@ == decode_utf8(bytes@),
{
    match String::from_utf8(bytes) {
        Ok(s) => Some(s),
        Err(_) => None,
    }
}

impl<'a> LEB128Reader<'a> {
    /// The bytes under the cursor.
    pub closed spec fn bytes(&self) -> Seq<u8> {
        self.data@
    }

    /// The position of the cursor.
    pub closed spec fn cursor(&self) -> int {
        self.position as int
    }

    /// A cursor over `slice` at `start_position`.
    pub fn new(slice: &'a [u8], start_position: usize) -> (r: Self)
        ensures
            r.bytes() == slice@,
            r.cursor() == start_position,
    {
        LEB128Reader { data: slice, position: start_position }
    }

    /// The number of bytes from the cursor to the end; negative where the
    /// cursor stands beyond the end.
    pub fn remaining(&self) -> (r: isize)
        requires
            self.bytes().len() <= isize::MAX,
            self.cursor() <= isize::MAX,
        ensures
            r == self.bytes().len() - self.cursor(),
    {
        if self.position <= self.data.len() {
            (self.data.len() - self.position) as isize
        } else {
            -((self.position - self.data.len()) as isize)
        }
    }

    /// Whether a byte stands under the cursor.
    pub fn has_more(&self) -> (r: bool)
        ensures
            r == (self.cursor() < self.bytes().len()),
    {
        self.position < self.data.len()
    }

    /// The length of the bytes under the cursor.
    pub fn len(&self) -> (r: usize)
        ensures
            r == self.bytes().len(),
    {
        self.data.len()
    }

    /// The position of the cursor.
    #[verifier::when_used_as_spec(cursor_as_usize)]
    pub fn position(&self) -> (r: usize)
        ensures
            r == self.cursor(),
    {
        self.position
    }

    /// The position of the cursor, as a machine integer.
    pub closed spec fn cursor_as_usize(&self) -> usize {
        self.position
    }

    /// Moves the cursor forward, past the end too.
    pub fn advance(&mut self, offset: usize)
        requires
            old(self).cursor() + offset <= usize::MAX,
        ensures
            final(self).bytes() == old(self).bytes(),
            final(self).cursor() == old(self).cursor() + offset,
    {
        self.position = self.position + offset;
    }

    fn read_byte(&mut self) -> (r: Result<u8, DecodeError>)
        ensures
            reads(*old(self), *final(self), r, spec_u8(old(self).bytes(), old(self).cursor())),
            advanced(*old(self), *final(self), r),
    {
        if self.position >= self.data.len() {
            return Err(DecodeError::MalformedMemory(Malformed::UnexpectedEnd));
        }
        let byte = self.data[self.position];
        self.position = self.position + 1;
        Ok(byte)
    }

    /// Reads a LEB128 integer of the given signedness and width.
    fn load_leb(&mut self, signed: bool, wide: bool) -> (r: Result<i128, DecodeError>)
        ensures
            final(self).bytes() == old(self).bytes(),
            match spec_leb(old(self).bytes(), old(self).cursor(), signed, wide, 0, 0) {
                Ok((v, p)) => r == Ok::<i128, DecodeError>(v as i128) && final(self).cursor() == p
                    && leb_fits(v, signed, wide),
                Err(e) => r == Err::<i128, DecodeError>(e),
            },
            r is Ok ==> old(self).cursor() < final(self).cursor() <= old(self).bytes().len(),
    {
        let max_index: u8 = if wide {
            9
        } else {
            4
        };
        let ghost s = self.data@;
        let ghost start = self.position as int;
        let mut index: u8 = 0;
        let mut acc: i128 = 0;
        let mut mult: i128 = 1;
        loop
            invariant
                self.data@ == s,
                s == old(self).bytes(),
                start == old(self).cursor(),
                start <= self.position,
                index <= max_index,
                max_index == leb_max_index(wide),
                mult == pow128(index as nat),
                0 <= acc < mult,
                spec_leb(s, start, signed, wide, 0, 0) == spec_leb(
                    s,
                    self.position as int,
                    signed,
                    wide,
                    index as nat,
                    acc as int,
                ),
            decreases max_index - index,
        {
            if self.position >= self.data.len() {
                return Err(DecodeError::MalformedMemory(Malformed::UnexpectedEnd));
            }
            let byte = self.data[self.position];
            self.position = self.position + 1;
            let low: i128 = (byte % 128) as i128;
            proof {
                lemma_pow128();
                assert(0 <= low * mult <= 127 * mult) by (nonlinear_arith)
                    requires
                        0 <= low <= 127,
                        0 <= mult,
                ;
            }
            let raw: i128 = acc + low * mult;
            if byte < 128 {
                let value: i128 = if signed && low >= 64 {
                    raw - 128 * mult
                } else {
                    raw
                };
                let fits = if signed {
                    if wide {
                        -0x8000_0000_0000_0000 <= value && value <= 0x7fff_ffff_ffff_ffff
                    } else {
                        -0x8000_0000 <= value && value <= 0x7fff_ffff
                    }
                } else {
                    if wide {
                        0 <= value && value <= 0xffff_ffff_ffff_ffff
                    } else {
                        0 <= value && value <= 0xffff_ffff
                    }
                };
                if fits {
                    return Ok(value);
                } else {
                    return Err(DecodeError::MalformedMemory(Malformed::IntegerTooLarge));
                }
            }
            if index >= max_index {
                return Err(DecodeError::MalformedMemory(Malformed::IntegerTooLong));
            }
            proof {
                assert(low * mult + acc < 128 * mult) by (nonlinear_arith)
                    requires
                        0 <= low <= 127,
                        0 <= acc < mult,
                ;
            }
            acc = raw;
            mult = mult * 128;
            index = index + 1;
        }
    }

    /// Reads an unsigned LEB128 integer of 32 bits.
    pub fn load_imm_varuint32(&mut self) -> (r: Result<u32, DecodeError>)
        ensures
            reads(*old(self), *final(self), r, spec_varuint32(old(self).bytes(), old(self).cursor())),
            advanced(*old(self), *final(self), r),
    {
        let v = self.load_leb(false, false)?;
        Ok(v as u32)
    }

    /// Reads an unsigned LEB128 integer of 32 bits as two's complement.
    pub fn load_imm_varint32(&mut self) -> (r: Result<i32, DecodeError>)
        ensures
            reads(*old(self), *final(self), r, spec_varint32(old(self).bytes(), old(self).cursor())),
            advanced(*old(self), *final(self), r),
    {
        let v = self.load_leb(false, false)?;
        if v >= 0x8000_0000 {
            Ok((v - 0x1_0000_0000) as i32)
        } else {
            Ok(v as i32)
        }
    }

    /// Reads a signed LEB128 integer (for constants).
    pub fn load_imm_signed_varint32(&mut self) -> (r: Result<i32, DecodeError>)
        ensures
            reads(
                *old(self),
                *final(self),
                r,
                spec_signed_varint32(old(self).bytes(), old(self).cursor()),
            ),
            advanced(*old(self), *final(self), r),
    {
        let v = self.load_leb(true, false)?;
        Ok(v as i32)
    }

    /// Reads a signed LEB128 long integer (for constants).
    pub fn load_imm_signed_varint64(&mut self) -> (r: Result<i64, DecodeError>)
        ensures
            reads(
                *old(self),
                *final(self),
                r,
                spec_signed_varint64(old(self).bytes(), old(self).cursor()),
            ),
            advanced(*old(self), *final(self), r),
    {
        let v = self.load_leb(true, true)?;
        Ok(v as i64)
    }

    /// Reads an unsigned LEB128 integer of 64 bits.
    pub fn load_imm_varuint64(&mut self) -> (r: Result<u64, DecodeError>)
        ensures
            reads(*old(self), *final(self), r, spec_varuint64(old(self).bytes(), old(self).cursor())),
            advanced(*old(self), *final(self), r),
    {
        let v = self.load_leb(false, true)?;
        Ok(v as u64)
    }

    /// Reads one byte.
    pub fn load_imm_u8(&mut self) -> (r: Result<u8, DecodeError>)
        ensures
            reads(*old(self), *final(self), r, spec_u8(old(self).bytes(), old(self).cursor())),
            advanced(*old(self), *final(self), r),
    {
        self.read_byte()
    }

    /// Reads `n` bytes in little-endian order, `n` at most 8.
    fn load_le(&mut self, n: usize) -> (r: Result<u64, DecodeError>)
        requires
            n <= 8,
        ensures
            final(self).bytes() == old(self).bytes(),
            if old(self).cursor() + n <= old(self).bytes().len() {
                &&& r == Ok::<u64, DecodeError>(
                    spec_le(old(self).bytes(), old(self).cursor(), n as nat) as u64,
                )
                &&& final(self).cursor() == old(self).cursor() + n
                &&& n == 4 ==> spec_le(old(self).bytes(), old(self).cursor(), 4) <= u32::MAX
            } else {
                r == Err::<u64, DecodeError>(DecodeError::MalformedMemory(Malformed::UnexpectedEnd))
            },
    {
        if self.position > self.data.len() || self.data.len() - self.position < n {
            return Err(DecodeError::MalformedMemory(Malformed::UnexpectedEnd));
        }
        let ghost s = self.data@;
        let start = self.position;
        let mut value: u64 = 0;
        let mut i: usize = n;
        while i > 0
            invariant
                self.data@ == s,
                i <= n <= 8,
                start + n <= self.data.len(),
                value == spec_le(s, start + i, (n - i) as nat),
                value < pow256((n - i) as nat),
            decreases i,
        {
            i = i - 1;
            proof {
                lemma_pow256();
            }
            value = self.data[start + i] as u64 + 256 * value;
        }
        proof {
            lemma_pow256();
        }
        self.position = start + n;
        Ok(value)
    }

    /// Reads the bit pattern of an `F32` constant.
    pub fn load_imm_f32(&mut self) -> (r: Result<u32, DecodeError>)
        ensures
            reads(*old(self), *final(self), r, spec_fixed32(old(self).bytes(), old(self).cursor())),
    {
        let v = self.load_le(4)?;
        Ok(v as u32)
    }

    /// Reads the bit pattern of an `F64` constant.
    pub fn load_imm_f64(&mut self) -> (r: Result<u64, DecodeError>)
        ensures
            reads(*old(self), *final(self), r, spec_fixed64(old(self).bytes(), old(self).cursor())),
    {
        self.load_le(8)
    }

    /// Reads a count and that many integers, each as two's complement.
    pub fn load_array_i32(&mut self) -> (r: Result<Vec<i32>, DecodeError>)
        ensures
            reads_view(
                *old(self),
                *final(self),
                r,
                spec_array_i32(old(self).bytes(), old(self).cursor()),
            ),
            advanced(*old(self), *final(self), r),
    {
        let ghost s = self.data@;
        let num_elements = self.load_imm_varuint32()?;
        let ghost first = self.position as int;
        let mut values: Vec<i32> = Vec::new();
        let mut i: u32 = 0;
        while i < num_elements
            invariant
                self.data@ == s,
                s == old(self).bytes(),
                spec_array_i32(s, old(self).cursor()) == spec_items_i32(
                    s,
                    first,
                    num_elements as nat,
                    Seq::empty(),
                ),
                old(self).cursor() < self.position <= self.data@.len(),
                i <= num_elements,
                spec_items_i32(s, first, num_elements as nat, Seq::empty()) == spec_items_i32(
                    s,
                    self.position as int,
                    (num_elements - i) as nat,
                    values@,
                ),
            decreases num_elements - i,
        {
            let v = self.load_imm_varint32()?;
            values.push(v);
            i = i + 1;
        }
        Ok(values)
    }

    /// Reads a count and that many unsigned integers.
    pub fn load_array_varu32(&mut self) -> (r: Result<Vec<u32>, DecodeError>)
        ensures
            reads_view(
                *old(self),
                *final(self),
                r,
                spec_array_varu32(old(self).bytes(), old(self).cursor()),
            ),
            advanced(*old(self), *final(self), r),
    {
        let ghost s = self.data@;
        let num_elements = self.load_imm_varuint32()?;
        let ghost first = self.position as int;
        let mut values: Vec<u32> = Vec::new();
        let mut i: u32 = 0;
        while i < num_elements
            invariant
                self.data@ == s,
                s == old(self).bytes(),
                spec_array_varu32(s, old(self).cursor()) == spec_items_varu32(
                    s,
                    first,
                    num_elements as nat,
                    Seq::empty(),
                ),
                old(self).cursor() < self.position <= self.data@.len(),
                i <= num_elements,
                spec_items_varu32(s, first, num_elements as nat, Seq::empty()) == spec_items_varu32(
                    s,
                    self.position as int,
                    (num_elements - i) as nat,
                    values@,
                ),
            decreases num_elements - i,
        {
            let v = self.load_imm_varuint32()?;
            values.push(v);
            i = i + 1;
        }
        Ok(values)
    }

    /// Finds the end of the expression under the cursor and moves behind
    /// it: the offsets of its start and of the `end` that closes it.
    pub fn load_expr(&mut self) -> (r: Result<(usize, usize), DecodeError>)
        ensures
            reads(*old(self), *final(self), r, spec_expr(old(self).bytes(), old(self).cursor())),
            r matches Ok((start, end)) ==> start <= end < old(self).bytes().len() && old(
                self,
            ).bytes()[end as int] == 0x0b,
            advanced(*old(self), *final(self), r),
    {
        proof {
            crate::decode::lemma_scan_ends(self.data@, self.position as int, Seq::empty());
        }
        let start = self.position;
        let end = crate::decode::scan(self)? - 1;
        Ok((start, end))
    }

    /// Reads a length-prefixed byte range: the offsets of its start and end
    /// (exclusive) in the bytes under the cursor. Nothing is copied.
    pub fn load_data(&mut self) -> (r: Result<(usize, usize), DecodeError>)
        ensures
            reads(*old(self), *final(self), r, spec_data(old(self).bytes(), old(self).cursor())),
            r matches Ok((start, end)) ==> start <= end <= old(self).bytes().len(),
            advanced(*old(self), *final(self), r),
    {
        proof {
            lemma_varuint_advances(self.data@, self.position as int);
        }
        let length = self.load_imm_varuint32()? as usize;
        let start = self.position;
        if self.data.len() - start < length {
            return Err(DecodeError::MalformedMemory(Malformed::UnexpectedEnd));
        }
        let end = start + length;
        self.position = end;
        Ok((start, end))
    }

    /// Reads a length-prefixed UTF-8 string.
    pub fn load_string(&mut self) -> (r: Result<String, DecodeError>)
        ensures
            reads_view(*old(self), *final(self), r, spec_string(old(self).bytes(), old(self).cursor())),
            advanced(*old(self), *final(self), r),
    {
        proof {
            lemma_varuint_advances(self.data@, self.position as int);
        }
        let length = self.load_imm_varuint32()? as usize;
        let start = self.position;
        if self.data.len() - start < length {
            return Err(DecodeError::MalformedMemory(Malformed::UnexpectedEnd));
        }
        let end = start + length;
        let mut buffer: Vec<u8> = Vec::new();
        let mut i: usize = start;
        while i < end
            invariant
                start <= i <= end <= self.data@.len(),
                buffer@ == self.data@.subrange(start as int, i as int),
            decreases end - i,
        {
            buffer.push(self.data[i]);
            i = i + 1;
        }
        self.position = end;
        match string_from_utf8(buffer) {
            Some(s) => Ok(s),
            None => Err(DecodeError::MalformedMemory(Malformed::InvalidString)),
        }
    }
}

/// 256 to the power `i`.
pub open spec fn pow256(i: nat) -> int
    decreases i,
{
    if i == 0 {
        1
    } else {
        256 * pow256((i - 1) as nat)
    }
}

/// The powers of 256 up to 2^64.
pub proof fn lemma_pow256()
    ensures
        pow256(0) == 1,
        pow256(1) == 0x100,
        pow256(2) == 0x1_0000,
        pow256(3) == 0x100_0000,
        pow256(4) == 0x1_0000_0000,
        pow256(5) == 0x100_0000_0000,
        pow256(6) == 0x1_0000_0000_0000,
        pow256(7) == 0x100_0000_0000_0000,
        pow256(8) == 0x1_0000_0000_0000_0000,
{
    reveal_with_fuel(pow256, 9);
}

/// The shortest unsigned LEB128 encoding of a number: its groups of seven
/// bits from the lowest on, each but the last with bit 7 set.
pub open spec fn spec_encode_unsigned(v: nat) -> Seq<u8>
    decreases v,
{
    if v < 128 {
        seq![v as u8]
    } else {
        seq![(v % 128 + 128) as u8] + spec_encode_unsigned(v / 128)
    }
}

/// Reading on within an encoding: the bytes `s` hold, from `pos` on, the
/// encoding of `v`, whose byte number `index` stands at `pos`; the number
/// read is `acc` and `v` times the weight of that byte.
proof fn lemma_unsigned_round_trip_from(
    s: Seq<u8>,
    pos: int,
    wide: bool,
    index: nat,
    acc: int,
    v: nat,
)
    requires
        0 <= pos,
        pos + spec_encode_unsigned(v).len() <= s.len(),
        s.subrange(pos, pos + spec_encode_unsigned(v).len()) == spec_encode_unsigned(v),
        index <= leb_max_index(wide),
        0 <= acc,
        leb_fits(acc + v * pow128(index), false, wide),
    ensures
        spec_leb(s, pos, false, wide, index, acc) == Ok::<(int, int), DecodeError>(
            (acc + v * pow128(index), pos + spec_encode_unsigned(v).len()),
        ),
    decreases v,
{
    lemma_pow128();
    let encoded = spec_encode_unsigned(v);
    assert(s[pos] == s.subrange(pos, pos + encoded.len())[0]);
    if v >= 128 {
        let rest = spec_encode_unsigned(v / 128);
        assert(encoded =~= seq![(v % 128 + 128) as u8] + rest);
        assert(s.subrange(pos + 1, pos + 1 + rest.len()) =~= s.subrange(
            pos,
            pos + encoded.len(),
        ).subrange(1, encoded.len() as int));
        assert(encoded.subrange(1, encoded.len() as int) =~= rest);
        let p = pow128(index);
        assert(pow128(index + 1) == 128 * p);
        assert(v * p == (v % 128) * p + (v / 128) * (128 * p)) by (nonlinear_arith)
            requires
                v >= 0,
        ;
        assert(v * p >= 128 * p) by (nonlinear_arith)
            requires
                v >= 128,
                p >= 1,
        ;
        assert(index < leb_max_index(wide));
        assert(((v % 128 + 128) as u8) % 128 == v % 128);
        lemma_unsigned_round_trip_from(
            s,
            pos + 1,
            wide,
            index + 1,
            acc + (v % 128) * p,
            v / 128,
        );
    }
}

/// What is written is what is read: the shortest encoding of a number that
/// fits 32 or 64 bits, followed by anything, reads as that number, and
/// the cursor stops behind it.
pub proof fn lemma_unsigned_round_trip(v: nat, rest: Seq<u8>, wide: bool)
    requires
        leb_fits(v as int, false, wide),
    ensures
        spec_leb(spec_encode_unsigned(v) + rest, 0, false, wide, 0, 0) == Ok::<
            (int, int),
            DecodeError,
        >((v as int, spec_encode_unsigned(v).len() as int)),
        !wide ==> spec_varuint32(spec_encode_unsigned(v) + rest, 0) == Ok::<
            (u32, int),
            DecodeError,
        >((v as u32, spec_encode_unsigned(v).len() as int)),
{
    let s = spec_encode_unsigned(v) + rest;
    assert(s.subrange(0, spec_encode_unsigned(v).len() as int) =~= spec_encode_unsigned(v));
    lemma_pow128();
    lemma_unsigned_round_trip_from(s, 0, wide, 0, 0, v);
}

/// Whether the bytes `s` hold the bytes `e` from `pos` on.
pub open spec fn spec_holds(s: Seq<u8>, pos: int, e: Seq<u8>) -> bool {
    0 <= pos && pos + e.len() <= s.len() && s.subrange(pos, pos + e.len()) == e
}

/// Bytes that hold two runs of bytes, one after the other, hold each in
/// its place.
pub proof fn lemma_holds_both(s: Seq<u8>, pos: int, a: Seq<u8>, b: Seq<u8>)
    requires
        spec_holds(s, pos, a + b),
    ensures
        spec_holds(s, pos, a),
        spec_holds(s, pos + a.len(), b),
{
    let whole = s.subrange(pos, pos + (a + b).len());
    assert(s.subrange(pos, pos + a.len()) =~= whole.subrange(0, a.len() as int));
    assert((a + b).subrange(0, a.len() as int) =~= a);
    assert(s.subrange(pos + a.len(), pos + a.len() + b.len()) =~= whole.subrange(
        a.len() as int,
        (a + b).len() as int,
    ));
    assert((a + b).subrange(a.len() as int, (a + b).len() as int) =~= b);
}

/// The shortest encoding of a number of 32 bits reads as that number
/// wherever it stands, and the cursor stops behind it.
pub proof fn lemma_unsigned_at(s: Seq<u8>, pos: int, v: u32)
    requires
        spec_holds(s, pos, spec_encode_unsigned(v as nat)),
    ensures
        spec_varuint32(s, pos) == Ok::<(u32, int), DecodeError>(
            (v, pos + spec_encode_unsigned(v as nat).len()),
        ),
{
    lemma_pow128();
    lemma_unsigned_round_trip_from(s, pos, false, 0, 0, v as nat);
}

/// Whether the bytes of `s` from `pos` on begin with the bytes of `t` from
/// `q` on.
pub open spec fn spec_follows(s: Seq<u8>, pos: int, t: Seq<u8>, q: int) -> bool {
    &&& 0 <= pos && 0 <= q <= t.len() && pos + (t.len() - q) <= s.len()
    &&& forall|i: int| q <= i < t.len() ==> s[pos + (i - q)] == t[i]
}

/// Bytes that begin with others begin, further on, with the rest of them.
pub proof fn lemma_follows_on(s: Seq<u8>, pos: int, t: Seq<u8>, q: int, r: int)
    requires
        spec_follows(s, pos, t, q),
        q <= r <= t.len(),
    ensures
        spec_follows(s, pos + (r - q), t, r),
{
    assert forall|i: int| r <= i < t.len() implies s[pos + (r - q) + (i - r)] == t[i] by {
        assert(s[pos + (i - q)] == t[i]);
    }
}

/// A LEB128 integer reads the same wherever its bytes stand.
pub proof fn lemma_leb_follows(
    s: Seq<u8>,
    pos: int,
    t: Seq<u8>,
    q: int,
    signed: bool,
    wide: bool,
    index: nat,
    acc: int,
)
    requires
        spec_follows(s, pos, t, q),
        spec_leb(t, q, signed, wide, index, acc) is Ok,
    ensures
        spec_leb(s, pos, signed, wide, index, acc) == Ok::<(int, int), DecodeError>(
            (
                spec_leb(t, q, signed, wide, index, acc)->Ok_0.0,
                pos + (spec_leb(t, q, signed, wide, index, acc)->Ok_0.1 - q),
            ),
        ),
        q < spec_leb(t, q, signed, wide, index, acc)->Ok_0.1 <= t.len(),
    decreases leb_max_index(wide) + 1 - index,
{
    assert(s[pos + (q - q)] == t[q]);
    if t[q] >= 128 && index < leb_max_index(wide) {
        lemma_follows_on(s, pos, t, q, q + 1);
        let raw = acc + ((t[q] % 128) as int) * pow128(index);
        lemma_leb_follows(s, pos + 1, t, q + 1, signed, wide, index + 1, raw);
    }
}

/// The integers and the byte read the same wherever their bytes stand,
/// and a constant of four or eight bytes is as long.
pub proof fn lemma_readers_follow(s: Seq<u8>, pos: int, t: Seq<u8>, q: int)
    requires
        spec_follows(s, pos, t, q),
    ensures
        spec_varuint32(t, q) matches Ok((v, r)) ==> q < r <= t.len() && spec_varuint32(s, pos)
            == Ok::<(u32, int), DecodeError>((v, pos + (r - q))),
        spec_varuint64(t, q) matches Ok((v, r)) ==> q < r <= t.len() && spec_varuint64(s, pos)
            == Ok::<(u64, int), DecodeError>((v, pos + (r - q))),
        spec_signed_varint32(t, q) matches Ok((v, r)) ==> q < r <= t.len()
            && spec_signed_varint32(s, pos) == Ok::<(i32, int), DecodeError>((v, pos + (r - q))),
        spec_signed_varint64(t, q) matches Ok((v, r)) ==> q < r <= t.len()
            && spec_signed_varint64(s, pos) == Ok::<(i64, int), DecodeError>((v, pos + (r - q))),
        spec_u8(t, q) matches Ok((v, r)) ==> q < r <= t.len() && spec_u8(s, pos) == Ok::<
            (u8, int),
            DecodeError,
        >((v, pos + (r - q))),
        spec_fixed32(t, q) is Ok ==> q + 4 <= t.len() && spec_fixed32(s, pos) is Ok
            && spec_fixed32(s, pos)->Ok_0.1 == pos + 4 && spec_fixed32(t, q)->Ok_0.1 == q + 4,
        spec_fixed64(t, q) is Ok ==> q + 8 <= t.len() && spec_fixed64(s, pos) is Ok
            && spec_fixed64(s, pos)->Ok_0.1 == pos + 8 && spec_fixed64(t, q)->Ok_0.1 == q + 8,
        spec_data(t, q) matches Ok((_, r)) ==> q < r <= t.len() && spec_data(s, pos) is Ok
            && spec_data(s, pos)->Ok_0.1 == pos + (r - q),
{
    if spec_leb(t, q, false, false, 0, 0) is Ok {
        lemma_leb_follows(s, pos, t, q, false, false, 0, 0);
    }
    if spec_leb(t, q, false, true, 0, 0) is Ok {
        lemma_leb_follows(s, pos, t, q, false, true, 0, 0);
    }
    if spec_leb(t, q, true, false, 0, 0) is Ok {
        lemma_leb_follows(s, pos, t, q, true, false, 0, 0);
    }
    if spec_leb(t, q, true, true, 0, 0) is Ok {
        lemma_leb_follows(s, pos, t, q, true, true, 0, 0);
    }
    if q < t.len() {
        assert(s[pos + (q - q)] == t[q]);
    }
}

/// A list of integers reads the same wherever its bytes stand.
pub proof fn lemma_items_follow(
    s: Seq<u8>,
    pos: int,
    t: Seq<u8>,
    q: int,
    remaining: nat,
    acc: Seq<u32>,
)
    requires
        spec_follows(s, pos, t, q),
        spec_items_varu32(t, q, remaining, acc) is Ok,
    ensures
        spec_items_varu32(s, pos, remaining, acc) == Ok::<(Seq<u32>, int), DecodeError>(
            (
                spec_items_varu32(t, q, remaining, acc)->Ok_0.0,
                pos + (spec_items_varu32(t, q, remaining, acc)->Ok_0.1 - q),
            ),
        ),
        q <= spec_items_varu32(t, q, remaining, acc)->Ok_0.1 <= t.len(),
    decreases remaining,
{
    if remaining > 0 {
        lemma_readers_follow(s, pos, t, q);
        match spec_varuint32(t, q) {
            Ok((v, r)) => {
                lemma_follows_on(s, pos, t, q, r);
                lemma_items_follow(s, pos + (r - q), t, r, (remaining - 1) as nat, acc.push(v));
            },
            Err(_) => {},
        }
    }
}

} // verus!
