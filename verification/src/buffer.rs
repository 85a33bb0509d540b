use vstd::prelude::*;
use crate::error::ClassFileParserError;
use cesu8::Cesu8DecodingError;

verus! {

/// Value of `bytes` read as an unsigned big-endian number.
pub open spec fn be_unsigned(bytes: Seq<u8>) -> nat
    decreases bytes.len(),
{
    if bytes.len() == 0 {
        0
    } else {
        be_unsigned(bytes.drop_last()) * 256 + bytes.last() as nat
    }
}

/// Number of values that `width` bytes can hold: 256 to the power `width`.
pub open spec fn be_modulus(width: nat) -> nat
    decreases width,
{
    if width == 0 {
        1
    } else {
        256 * be_modulus((width - 1) as nat)
    }
}

/// Value of `bytes` read as a two's-complement big-endian number.
pub open spec fn be_signed(bytes: Seq<u8>) -> int {
    let unsigned = be_unsigned(bytes);
    let modulus = be_modulus(bytes.len());
    if 2 * unsigned >= modulus {
        unsigned - modulus
    } else {
        unsigned as int
    }
}

/// An unsigned big-endian number is smaller than the modulus of its width.
pub proof fn be_unsigned_bound(bytes: Seq<u8>)
    ensures
        be_unsigned(bytes) < be_modulus(bytes.len()),
    decreases bytes.len(),
{
    if bytes.len() > 0 {
        be_unsigned_bound(bytes.drop_last());
    }
}

/// The moduli of the widths that the cursor reads.
pub proof fn be_modulus_values()
    ensures
        be_modulus(0) == 1,
        be_modulus(1) == 0x100,
        be_modulus(2) == 0x1_0000,
        be_modulus(3) == 0x100_0000,
        be_modulus(4) == 0x1_0000_0000,
        be_modulus(5) == 0x100_0000_0000,
        be_modulus(6) == 0x1_0000_0000_0000,
        be_modulus(7) == 0x100_0000_0000_0000,
        be_modulus(8) == 0x1_0000_0000_0000_0000,
{
    reveal_with_fuel(be_modulus, 9);
}

/// The text that `cesu8::from_java_cesu8` decodes from `bytes`, or `None`
/// where it reports a decoding error.
///
/// The decoder accepts well-formed UTF-8 as it stands and otherwise the JVM's
/// modified UTF-8: a two-byte form of the null character and surrogate pairs
/// spelled as two three-byte sequences.
pub uninterp spec fn java_cesu8_text(bytes: Seq<u8>) -> Option<Seq<char>>;

/// Declares `cesu8::Cesu8DecodingError`, the error of the decoder, as a type
/// whose values are carried about without being looked into.
#[verifier::external_type_specification]
#[verifier::external_body]
pub struct ExCesu8DecodingError(Cesu8DecodingError);

/// Calls `cesu8::from_java_cesu8` and takes ownership of the text it returns.
///
/// Trusted: the result is the one that [`java_cesu8_text`] names for these
/// bytes. The decoder reads nothing but its argument and returns on every
/// input.
#[verifier::external_body]
fn decode_java_cesu8(bytes: &[u8]) -> (decoded: Result<String, Cesu8DecodingError>)
    ensures
        decoded matches Ok(text) ==> java_cesu8_text(bytes@) == Some(text@),
        decoded is Err ==> java_cesu8_text(bytes@) is None,
{
    match cesu8::from_java_cesu8(bytes) {
        Ok(text) => Ok(text.into_owned()),
        Err(error) => Err(error),
    }
}

/// Turns the outcome of the modified UTF-8 decoder into this crate's result:
/// the text as it is, or [`ClassFileParserError::InvalidCesu8String`].
pub fn decoded_text(decoded: Result<String, Cesu8DecodingError>) -> (r: Result<
    String,
    ClassFileParserError,
>)
    ensures
        decoded matches Ok(text) ==> r == Ok::<String, ClassFileParserError>(text),
        decoded is Err ==> r == Err::<String, _>(ClassFileParserError::InvalidCesu8String),
{
    match decoded {
        Ok(text) => Ok(text),
        Err(_) => Err(ClassFileParserError::InvalidCesu8String),
    }
}

/// Folds at most eight bytes into the number they spell, most significant
/// byte first.
fn big_endian(bytes: &[u8]) -> (value: u64)
    requires
        bytes@.len() <= 8,
    ensures
        value == be_unsigned(bytes@),
{
    let mut value: u64 = 0;
    let mut i: usize = 0;
    proof {
        be_modulus_values();
    }
    while i < bytes.len()
        invariant
            i <= bytes@.len() <= 8,
            value == be_unsigned(bytes@.take(i as int)),
            value < be_modulus(i as nat),
        decreases bytes@.len() - i,
    {
        proof {
            be_modulus_values();
            assert(bytes@.take(i + 1).drop_last() == bytes@.take(i as int));
            assert(bytes@.take(i + 1).last() == bytes@[i as int]);
            assert(be_modulus((i + 1) as nat) == 256 * be_modulus(i as nat));
        }
        value = value * 256 + bytes[i] as u64;
        i = i + 1;
    }
    assert(bytes@.take(i as int) == bytes@);
    value
}

/// A cursor over a borrowed byte slice that hands out big-endian values.
///
/// The cursor never moves past the end of the slice, and a read that fails
/// leaves it where it was.
pub struct Buffer<'a> {
    buffer: &'a [u8],
    position: usize,
}

impl<'a> Buffer<'a> {
    #[verifier::type_invariant]
    spec fn in_bounds(self) -> bool {
        self.position <= self.buffer@.len()
    }

    /// All the bytes the cursor was created over.
    pub closed spec fn bytes(&self) -> Seq<u8> {
        self.buffer@
    }

    /// Number of bytes already consumed.
    pub closed spec fn position(&self) -> nat {
        self.position as nat
    }

    /// The bytes not yet consumed.
    pub open spec fn remaining(&self) -> Seq<u8> {
        self.bytes().skip(self.position() as int)
    }

    /// The cursor has consumed `count` more bytes than `before` had.
    pub open spec fn advanced_from(&self, before: &Self, count: nat) -> bool {
        &&& self.bytes() == before.bytes()
        &&& self.position() == before.position() + count
        &&& self.remaining() == before.remaining().skip(count as int)
    }

    /// The cursor stands where `before` stood.
    pub open spec fn unmoved_from(&self, before: &Self) -> bool {
        &&& self.bytes() == before.bytes()
        &&& self.position() == before.position()
    }

    /// A cursor at the start of `data`.
    pub fn new(data: &'a [u8]) -> (buffer: Self)
        ensures
            buffer.bytes() == data@,
            buffer.position() == 0,
            buffer.remaining() == data@,
    {
        Buffer { buffer: data, position: 0 }
    }

    /// Consumes `size` bytes and returns them, or fails without moving.
    fn advance(&mut self, size: usize) -> (r: Result<&'a [u8], ClassFileParserError>)
        ensures
            size <= old(self).remaining().len() ==> {
                &&& r is Ok
                &&& r->Ok_0@ == old(self).remaining().take(size as int)
                &&& final(self).advanced_from(old(self), size as nat)
            },
            size > old(self).remaining().len() ==> {
                &&& r == Err::<&[u8], _>(ClassFileParserError::UnexpectedEndOfData)
                &&& final(self).unmoved_from(old(self))
            },
    {
        proof {
            use_type_invariant(&*self);
        }
        if size > self.buffer.len() - self.position {
            Err(ClassFileParserError::UnexpectedEndOfData)
        } else {
            let start = self.position;
            let end = start + size;
            let slice = &self.buffer[start..end];
            self.position = end;
            assert(slice@ == old(self).remaining().take(size as int));
            assert(self.remaining() == old(self).remaining().skip(size as int));
            Ok(slice)
        }
    }

    /// Reads one byte.
    pub fn read_u8(&mut self) -> (r: Result<u8, ClassFileParserError>)
        ensures
            1 <= old(self).remaining().len() ==> {
                &&& r == Ok::<u8, ClassFileParserError>(old(self).remaining()[0])
                &&& final(self).advanced_from(old(self), 1)
            },
            1 > old(self).remaining().len() ==> {
                &&& r == Err::<u8, _>(ClassFileParserError::UnexpectedEndOfData)
                &&& final(self).unmoved_from(old(self))
            },
    {
        match self.advance(1) {
            Ok(bytes) => Ok(bytes[0]),
            Err(e) => Err(e),
        }
    }

    /// Reads two bytes as an unsigned big-endian number.
    pub fn read_u16(&mut self) -> (r: Result<u16, ClassFileParserError>)
        ensures
            2 <= old(self).remaining().len() ==> {
                &&& r is Ok
                &&& r->Ok_0 == be_unsigned(old(self).remaining().take(2))
                &&& final(self).advanced_from(old(self), 2)
            },
            2 > old(self).remaining().len() ==> {
                &&& r == Err::<u16, _>(ClassFileParserError::UnexpectedEndOfData)
                &&& final(self).unmoved_from(old(self))
            },
    {
        match self.advance(2) {
            Ok(bytes) => {
                proof {
                    be_unsigned_bound(bytes@);
                    be_modulus_values();
                }
                Ok(big_endian(bytes) as u16)
            },
            Err(e) => Err(e),
        }
    }

    /// Reads four bytes as an unsigned big-endian number.
    pub fn read_u32(&mut self) -> (r: Result<u32, ClassFileParserError>)
        ensures
            4 <= old(self).remaining().len() ==> {
                &&& r is Ok
                &&& r->Ok_0 == be_unsigned(old(self).remaining().take(4))
                &&& final(self).advanced_from(old(self), 4)
            },
            4 > old(self).remaining().len() ==> {
                &&& r == Err::<u32, _>(ClassFileParserError::UnexpectedEndOfData)
                &&& final(self).unmoved_from(old(self))
            },
    {
        match self.advance(4) {
            Ok(bytes) => {
                proof {
                    be_unsigned_bound(bytes@);
                    be_modulus_values();
                }
                Ok(big_endian(bytes) as u32)
            },
            Err(e) => Err(e),
        }
    }

    /// Reads four bytes as a two's-complement big-endian number.
    pub fn read_i32(&mut self) -> (r: Result<i32, ClassFileParserError>)
        ensures
            4 <= old(self).remaining().len() ==> {
                &&& r is Ok
                &&& r->Ok_0 == be_signed(old(self).remaining().take(4))
                &&& final(self).advanced_from(old(self), 4)
            },
            4 > old(self).remaining().len() ==> {
                &&& r == Err::<i32, _>(ClassFileParserError::UnexpectedEndOfData)
                &&& final(self).unmoved_from(old(self))
            },
    {
        match self.advance(4) {
            Ok(bytes) => {
                proof {
                    be_unsigned_bound(bytes@);
                    be_modulus_values();
                }
                let unsigned = big_endian(bytes);
                if unsigned >= 0x8000_0000 {
                    Ok((unsigned as i64 - 0x1_0000_0000) as i32)
                } else {
                    Ok(unsigned as i32)
                }
            },
            Err(e) => Err(e),
        }
    }

    /// Reads eight bytes as a two's-complement big-endian number.
    pub fn read_i64(&mut self) -> (r: Result<i64, ClassFileParserError>)
        ensures
            8 <= old(self).remaining().len() ==> {
                &&& r is Ok
                &&& r->Ok_0 == be_signed(old(self).remaining().take(8))
                &&& final(self).advanced_from(old(self), 8)
            },
            8 > old(self).remaining().len() ==> {
                &&& r == Err::<i64, _>(ClassFileParserError::UnexpectedEndOfData)
                &&& final(self).unmoved_from(old(self))
            },
    {
        match self.advance(8) {
            Ok(bytes) => {
                proof {
                    be_unsigned_bound(bytes@);
                    be_modulus_values();
                }
                let unsigned = big_endian(bytes);
                if unsigned >= 0x8000_0000_0000_0000 {
                    Ok((unsigned - 0x8000_0000_0000_0000) as i64 + i64::MIN)
                } else {
                    Ok(unsigned as i64)
                }
            },
            Err(e) => Err(e),
        }
    }

    /// Reads `len` bytes and decodes them as modified UTF-8.
    ///
    /// The bytes are consumed whenever there are enough of them, also where
    /// they turn out not to be well-formed text.
    pub fn read_utf8(&mut self, len: usize) -> (r: Result<String, ClassFileParserError>)
        ensures
            len <= old(self).remaining().len() ==> {
                &&& final(self).advanced_from(old(self), len as nat)
                &&& match java_cesu8_text(old(self).remaining().take(len as int)) {
                    Some(text) => r is Ok && r->Ok_0@ == text,
                    None => r == Err::<String, _>(ClassFileParserError::InvalidCesu8String),
                }
            },
            len > old(self).remaining().len() ==> {
                &&& r == Err::<String, _>(ClassFileParserError::UnexpectedEndOfData)
                &&& final(self).unmoved_from(old(self))
            },
    {
        match self.advance(len) {
            Ok(bytes) => decoded_text(decode_java_cesu8(bytes)),
            Err(e) => Err(e),
        }
    }

    /// Hands out the next `len` bytes without copying them.
    pub fn read_bytes(&mut self, len: usize) -> (r: Result<&'a [u8], ClassFileParserError>)
        ensures
            len <= old(self).remaining().len() ==> {
                &&& r is Ok
                &&& r->Ok_0@ == old(self).remaining().take(len as int)
                &&& final(self).advanced_from(old(self), len as nat)
            },
            len > old(self).remaining().len() ==> {
                &&& r == Err::<&[u8], _>(ClassFileParserError::UnexpectedEndOfData)
                &&& final(self).unmoved_from(old(self))
            },
    {
        self.advance(len)
    }

    /// Number of bytes consumed so far, which is the offset of the next
    /// byte from the start.
    pub fn consumed(&self) -> (count: usize)
        ensures
            count == self.position(),
    {
        self.position
    }

    /// True while unread bytes are left.
    pub fn has_more_data(&self) -> (more: bool)
        ensures
            more == (self.remaining().len() > 0),
    {
        proof {
            use_type_invariant(self);
        }
        self.position < self.buffer.len()
    }
}

} // verus!
