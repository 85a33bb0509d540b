use vstd::prelude::*;
use vstd::string::StringExecFns;
use std::ops::Range;
use crate::attribute::{Attribute, AttributeView, attribute_views, find_attribute, first_named};
use crate::buffer::{
    Buffer, be_modulus_values, be_signed, be_unsigned, be_unsigned_bound, java_cesu8_text,
};
use crate::class::ClassFile;
use crate::class_field::{
    ClassFileField, ClassFileFieldView, FieldConstantValue, FieldConstantValueView, field_views,
};
use crate::class_method::{ClassFileMethod, ClassFileMethodCode};
use crate::constant_pool::{
    ConstantPool, ConstantPoolEntry, ConstantPoolSlot, entry_at, layout, text_at,
};
use crate::descriptor::{
    DescriptorFault, MethodDescriptor, MethodDescriptorView, method_descriptor_of,
};
use crate::error::ClassFileParserError;
use crate::exception_table::{
    ExceptionTable, ExceptionTableEntry, ExceptionTableEntryView, entry_views,
};
use crate::flags::{ClassAccessFlags, FieldFlags, MethodFlags, holds_all};
use crate::line_number_table::{LineNumberTable, LineNumberTableEntry, stably_sorted};
use crate::pc::{LineNumber, ProgramCounter};
use crate::text::texts_of;
use crate::types::{Type, type_of_descriptor};
use crate::version::{ClassFileVersion, sdk_version_of};

verus! {

/// Why some bytes are no class file.
pub ghost enum Fault {
    /// One of the errors that carry no text.
    Plain(ClassFileParserError),
    /// A field descriptor is malformed; carries the descriptor.
    FieldDescriptor(Seq<char>),
    /// A method descriptor is malformed; carries the descriptor.
    MethodDescriptor(Seq<char>),
    /// The data makes no sense; carries what is wrong and whether an index
    /// into the constant pool is to blame.
    ClassData(Seq<char>, bool),
}

/// The error value that reports `fault`.
pub open spec fn reports(error: ClassFileParserError, fault: Fault) -> bool {
    match fault {
        Fault::Plain(plain) => error == plain,
        Fault::FieldDescriptor(text) => error matches ClassFileParserError::InvalidFiledTypeDescriptor(
            reported,
        ) && reported@ == text,
        Fault::MethodDescriptor(text) => error matches ClassFileParserError::InvalidMethodTypeDescriptor(
            reported,
        ) && reported@ == text,
        Fault::ClassData(what, pool) => error matches ClassFileParserError::InvalidClassData {
            name,
            is_invalidate_constant_pool_idx,
        } && name@ == what && is_invalidate_constant_pool_idx == pool,
    }
}

/// The fault of bytes that end too early.
pub open spec fn truncated() -> Fault {
    Fault::Plain(ClassFileParserError::UnexpectedEndOfData)
}

/// The unsigned number in the first `width` bytes of `rest`, and the bytes
/// behind it.
pub open spec fn number(rest: Seq<u8>, width: int) -> Result<(int, Seq<u8>), Fault> {
    if width <= rest.len() {
        Ok((be_unsigned(rest.take(width)) as int, rest.skip(width)))
    } else {
        Err(truncated())
    }
}

/// The two's-complement number in the first `width` bytes of `rest`, and
/// the bytes behind it.
pub open spec fn signed_number(rest: Seq<u8>, width: int) -> Result<(int, Seq<u8>), Fault> {
    if width <= rest.len() {
        Ok((be_signed(rest.take(width)), rest.skip(width)))
    } else {
        Err(truncated())
    }
}

/// The first `count` bytes of `rest`, and the bytes behind them.
pub open spec fn block(rest: Seq<u8>, count: int) -> Result<(Seq<u8>, Seq<u8>), Fault> {
    if 0 <= count <= rest.len() {
        Ok((rest.take(count), rest.skip(count)))
    } else {
        Err(truncated())
    }
}

/// `count` items, each read by `item` from where the one before ended, and
/// the bytes behind the last.
pub open spec fn repeated<T>(
    item: spec_fn(Seq<u8>) -> Result<(T, Seq<u8>), Fault>,
    rest: Seq<u8>,
    count: nat,
) -> Result<(Seq<T>, Seq<u8>), Fault>
    decreases count,
{
    if count == 0 {
        Ok((Seq::empty(), rest))
    } else {
        match item(rest) {
            Err(fault) => Err(fault),
            Ok((first, after)) => match repeated(item, after, (count - 1) as nat) {
                Err(fault) => Err(fault),
                Ok((others, end)) => Ok((seq![first] + others, end)),
            },
        }
    }
}

/// The items read so far, put in front of what is read from here on.
spec fn extended<T>(done: Seq<T>, ahead: Result<(Seq<T>, Seq<u8>), Fault>) -> Result<
    (Seq<T>, Seq<u8>),
    Fault,
> {
    match ahead {
        Ok((others, end)) => Ok((done + others, end)),
        Err(fault) => Err(fault),
    }
}

/// Reading one item and then the others gives what reading them in one go
/// gives.
proof fn one_more<T>(done: Seq<T>, item: T, ahead: Result<(Seq<T>, Seq<u8>), Fault>)
    ensures
        extended(done.push(item), ahead) == extended(done, extended(seq![item], ahead)),
{
    match ahead {
        Ok((others, end)) => {
            assert(done.push(item) + others == done + (seq![item] + others));
        },
        Err(_) => {},
    }
}

/// With nothing read so far, what is read from here on is all.
proof fn nothing_yet<T>(ahead: Result<(Seq<T>, Seq<u8>), Fault>)
    ensures
        extended(Seq::<T>::empty(), ahead) == ahead,
{
    match ahead {
        Ok((others, end)) => {
            assert(Seq::<T>::empty() + others == others);
        },
        Err(_) => {},
    }
}

/// What a read gives: the value that the grammar finds, with the cursor on
/// the bytes behind it, or the report of the fault.
pub open spec fn reads<T, V>(
    r: Result<T, ClassFileParserError>,
    expected: Result<(V, Seq<u8>), Fault>,
    value: spec_fn(T) -> V,
    after: &Buffer,
) -> bool {
    match expected {
        Ok((found, rest)) => r is Ok && value(r->Ok_0) == found && after.remaining() == rest,
        Err(fault) => r is Err && reports(r->Err_0, fault),
    }
}

/// The error of class data of which `what` is wrong, without blame on an
/// index into the constant pool.
fn invalid_data(what: &str) -> (error: ClassFileParserError)
    ensures
        reports(error, Fault::ClassData(what@, false)),
{
    ClassFileParserError::InvalidClassData {
        name: String::from_str(what),
        is_invalidate_constant_pool_idx: false,
    }
}

fn read_u8(buffer: &mut Buffer) -> (r: Result<u8, ClassFileParserError>)
    ensures
        reads(r, number(old(buffer).remaining(), 1), |v: u8| v as int, final(buffer)),
{
    proof {
        let rest = buffer.remaining();
        if rest.len() >= 1 {
            reveal_with_fuel(be_unsigned, 2);
            assert(rest.take(1).drop_last().len() == 0);
        }
    }
    buffer.read_u8()
}

fn read_u16(buffer: &mut Buffer) -> (r: Result<u16, ClassFileParserError>)
    ensures
        reads(r, number(old(buffer).remaining(), 2), |v: u16| v as int, final(buffer)),
{
    buffer.read_u16()
}

fn read_u32(buffer: &mut Buffer) -> (r: Result<u32, ClassFileParserError>)
    ensures
        reads(r, number(old(buffer).remaining(), 4), |v: u32| v as int, final(buffer)),
{
    buffer.read_u32()
}

fn read_i32(buffer: &mut Buffer) -> (r: Result<i32, ClassFileParserError>)
    ensures
        reads(r, signed_number(old(buffer).remaining(), 4), |v: i32| v as int, final(buffer)),
{
    buffer.read_i32()
}

fn read_i64(buffer: &mut Buffer) -> (r: Result<i64, ClassFileParserError>)
    ensures
        reads(r, signed_number(old(buffer).remaining(), 8), |v: i64| v as int, final(buffer)),
{
    buffer.read_i64()
}

/// Reads eight bytes as an unsigned number.
fn read_u64(buffer: &mut Buffer) -> (r: Result<u64, ClassFileParserError>)
    ensures
        reads(r, number(old(buffer).remaining(), 8), |v: u64| v as int, final(buffer)),
{
    proof {
        let rest = buffer.remaining();
        if rest.len() >= 8 {
            be_modulus_values();
            be_unsigned_bound(rest.take(8));
        }
    }
    match buffer.read_i64() {
        Ok(signed) => if signed < 0 {
            Ok((signed + i64::MAX + 1) as u64 + 0x8000_0000_0000_0000)
        } else {
            Ok(signed as u64)
        },
        Err(error) => Err(error),
    }
}

/// A constant as the class file spells it: the kinds of
/// [`ConstantPoolEntry`], with text as a sequence of characters and
/// floating-point numbers by their bit patterns alone.
pub ghost enum Constant {
    Utf8(Seq<char>),
    Integer(i32),
    Float(u32),
    Long(i64),
    Double(u64),
    ClassReference(u16),
    StringReference(u16),
    FieldReference(u16, u16),
    MethodReference(u16, u16),
    InterfaceMethodReference(u16, u16),
    NameAndTypeDescriptor(u16, u16),
}

impl Constant {
    /// An eight-byte constant, which takes up two slots of the pool.
    pub open spec fn is_wide(self) -> bool {
        self is Long || self is Double
    }
}

/// Two numbers of two bytes each, one behind the other.
pub open spec fn index_pair(rest: Seq<u8>) -> Result<((u16, u16), Seq<u8>), Fault> {
    match number(rest, 2) {
        Err(fault) => Err(fault),
        Ok((first, after)) => match number(after, 2) {
            Err(fault) => Err(fault),
            Ok((second, end)) => Ok(((first as u16, second as u16), end)),
        },
    }
}

/// Text that is stored as its length in two bytes and that many bytes of
/// modified UTF-8.
pub open spec fn counted_text(rest: Seq<u8>) -> Result<(Seq<char>, Seq<u8>), Fault> {
    match number(rest, 2) {
        Err(fault) => Err(fault),
        Ok((len, after)) => match block(after, len) {
            Err(fault) => Err(fault),
            Ok((bytes, end)) => match java_cesu8_text(bytes) {
                Some(text) => Ok((text, end)),
                None => Err(Fault::Plain(ClassFileParserError::InvalidCesu8String)),
            },
        },
    }
}

/// The grammar of a constant: a tag byte and the content that the tag
/// announces.
pub open spec fn constant(rest: Seq<u8>) -> Result<(Constant, Seq<u8>), Fault> {
    match number(rest, 1) {
        Err(fault) => Err(fault),
        Ok((tag, after)) => if tag == 1 {
            match counted_text(after) {
                Ok((text, end)) => Ok((Constant::Utf8(text), end)),
                Err(fault) => Err(fault),
            }
        } else if tag == 3 {
            match signed_number(after, 4) {
                Ok((n, end)) => Ok((Constant::Integer(n as i32), end)),
                Err(fault) => Err(fault),
            }
        } else if tag == 4 {
            match number(after, 4) {
                Ok((bits, end)) => Ok((Constant::Float(bits as u32), end)),
                Err(fault) => Err(fault),
            }
        } else if tag == 5 {
            match signed_number(after, 8) {
                Ok((n, end)) => Ok((Constant::Long(n as i64), end)),
                Err(fault) => Err(fault),
            }
        } else if tag == 6 {
            match number(after, 8) {
                Ok((bits, end)) => Ok((Constant::Double(bits as u64), end)),
                Err(fault) => Err(fault),
            }
        } else if tag == 7 {
            match number(after, 2) {
                Ok((n, end)) => Ok((Constant::ClassReference(n as u16), end)),
                Err(fault) => Err(fault),
            }
        } else if tag == 8 {
            match number(after, 2) {
                Ok((n, end)) => Ok((Constant::StringReference(n as u16), end)),
                Err(fault) => Err(fault),
            }
        } else if tag == 9 {
            match index_pair(after) {
                Ok(((i, j), end)) => Ok((Constant::FieldReference(i, j), end)),
                Err(fault) => Err(fault),
            }
        } else if tag == 10 {
            match index_pair(after) {
                Ok(((i, j), end)) => Ok((Constant::MethodReference(i, j), end)),
                Err(fault) => Err(fault),
            }
        } else if tag == 11 {
            match index_pair(after) {
                Ok(((i, j), end)) => Ok((Constant::InterfaceMethodReference(i, j), end)),
                Err(fault) => Err(fault),
            }
        } else if tag == 12 {
            match index_pair(after) {
                Ok(((i, j), end)) => Ok((Constant::NameAndTypeDescriptor(i, j), end)),
                Err(fault) => Err(fault),
            }
        } else {
            Err(Fault::ClassData("invalid constant tag"@, false))
        },
    }
}

/// The constants that fill `slots` slots of a pool, an eight-byte constant
/// filling two; the last constant may reach one slot further.
pub open spec fn constants(rest: Seq<u8>, slots: nat) -> Result<(Seq<Constant>, Seq<u8>), Fault>
    decreases slots,
{
    if slots == 0 {
        Ok((Seq::empty(), rest))
    } else {
        match constant(rest) {
            Err(fault) => Err(fault),
            Ok((first, after)) => match constants(after, slots_left(slots, first)) {
                Err(fault) => Err(fault),
                Ok((others, end)) => Ok((seq![first] + others, end)),
            },
        }
    }
}

/// The slots that are still to fill when `first` has gone into a pool that
/// had `slots` to fill.
pub open spec fn slots_left(slots: nat, first: Constant) -> nat {
    if first.is_wide() && slots >= 2 {
        (slots - 2) as nat
    } else {
        (slots - 1) as nat
    }
}

/// The grammar of a constant pool: a count of two bytes, which is one more
/// than the number of slots, and the constants.
pub open spec fn constant_pool(rest: Seq<u8>) -> Result<(Seq<Constant>, Seq<u8>), Fault> {
    match number(rest, 2) {
        Err(fault) => Err(fault),
        Ok((count, after)) => constants(
            after,
            if count >= 1 {
                (count - 1) as nat
            } else {
                0
            },
        ),
    }
}

/// The pool entry holds the constant, with a text for a floating-point
/// number that the renderer of its width accepts.
pub open spec fn holds(
    entry: ConstantPoolEntry,
    spelled: Constant,
    float_text: spec_fn(u32, String) -> bool,
    double_text: spec_fn(u64, String) -> bool,
) -> bool {
    match spelled {
        Constant::Utf8(text) => entry matches ConstantPoolEntry::Utf8(held) && held@ == text,
        Constant::Integer(n) => entry == ConstantPoolEntry::Integer(n),
        Constant::Float(bits) => entry matches ConstantPoolEntry::Float(held, text) && held
            == bits && float_text(bits, text),
        Constant::Long(n) => entry == ConstantPoolEntry::Long(n),
        Constant::Double(bits) => entry matches ConstantPoolEntry::Double(held, text) && held
            == bits && double_text(bits, text),
        Constant::ClassReference(n) => entry == ConstantPoolEntry::ClassReference(n),
        Constant::StringReference(n) => entry == ConstantPoolEntry::StringReference(n),
        Constant::FieldReference(i, j) => entry == ConstantPoolEntry::FieldReference(i, j),
        Constant::MethodReference(i, j) => entry == ConstantPoolEntry::MethodReference(i, j),
        Constant::InterfaceMethodReference(i, j) => entry
            == ConstantPoolEntry::InterfaceMethodReference(i, j),
        Constant::NameAndTypeDescriptor(i, j) => entry
            == ConstantPoolEntry::NameAndTypeDescriptor(i, j),
    }
}

/// The entries hold the constants, one for one and in order.
pub open spec fn hold_all(
    entries: Seq<ConstantPoolEntry>,
    spelled: Seq<Constant>,
    float_text: spec_fn(u32, String) -> bool,
    double_text: spec_fn(u64, String) -> bool,
) -> bool {
    &&& entries.len() == spelled.len()
    &&& forall|i: int|
        0 <= i < entries.len() ==> holds(
            #[trigger] entries[i],
            spelled[i],
            float_text,
            double_text,
        )
}

/// The slots are those of a pool to which entries that hold the constants
/// were added in order.
pub open spec fn pool_of(
    slots: Seq<ConstantPoolSlot>,
    spelled: Seq<Constant>,
    float_text: spec_fn(u32, String) -> bool,
    double_text: spec_fn(u64, String) -> bool,
) -> bool {
    exists|entries: Seq<ConstantPoolEntry>|
        slots == layout(entries) && #[trigger] hold_all(entries, spelled, float_text, double_text)
}

/// What a renderer of single-precision numbers may give for a bit pattern.
pub open spec fn rendering_of<F: Fn(u32) -> String>(render: &F) -> spec_fn(u32, String) -> bool {
    |bits: u32, text: String| call_ensures(*render, (bits,), text)
}

/// What a renderer of double-precision numbers may give for a bit pattern.
pub open spec fn wide_rendering_of<G: Fn(u64) -> String>(render: &G) -> spec_fn(
    u64,
    String,
) -> bool {
    |bits: u64, text: String| call_ensures(*render, (bits,), text)
}

fn read_index_pair(buffer: &mut Buffer) -> (r: Result<(u16, u16), ClassFileParserError>)
    ensures
        reads(r, index_pair(old(buffer).remaining()), |v: (u16, u16)| v, final(buffer)),
{
    let first = read_u16(buffer)?;
    let second = read_u16(buffer)?;
    Ok((first, second))
}

fn read_counted_text(buffer: &mut Buffer) -> (r: Result<String, ClassFileParserError>)
    ensures
        reads(r, counted_text(old(buffer).remaining()), |v: String| v@, final(buffer)),
{
    let len = read_u16(buffer)?;
    buffer.read_utf8(len as usize)
}

/// Reads one constant; the text of a floating-point constant is made by
/// the renderer of its width.
pub fn read_constant<F: Fn(u32) -> String, G: Fn(u64) -> String>(
    buffer: &mut Buffer,
    float_text: &F,
    double_text: &G,
) -> (r: Result<ConstantPoolEntry, ClassFileParserError>)
    requires
        forall|bits: u32| call_requires(*float_text, (bits,)),
        forall|bits: u64| call_requires(*double_text, (bits,)),
    ensures
        match constant(old(buffer).remaining()) {
            Ok((spelled, rest)) => r is Ok && holds(
                r->Ok_0,
                spelled,
                rendering_of(float_text),
                wide_rendering_of(double_text),
            ) && final(buffer).remaining() == rest,
            Err(fault) => r is Err && reports(r->Err_0, fault),
        },
{
    let tag = read_u8(buffer)?;
    match tag {
        1 => Ok(ConstantPoolEntry::Utf8(read_counted_text(buffer)?)),
        3 => Ok(ConstantPoolEntry::Integer(read_i32(buffer)?)),
        4 => {
            let bits = read_u32(buffer)?;
            Ok(ConstantPoolEntry::Float(bits, float_text(bits)))
        },
        5 => Ok(ConstantPoolEntry::Long(read_i64(buffer)?)),
        6 => {
            let bits = read_u64(buffer)?;
            Ok(ConstantPoolEntry::Double(bits, double_text(bits)))
        },
        7 => Ok(ConstantPoolEntry::ClassReference(read_u16(buffer)?)),
        8 => Ok(ConstantPoolEntry::StringReference(read_u16(buffer)?)),
        9 => {
            let (i, j) = read_index_pair(buffer)?;
            Ok(ConstantPoolEntry::FieldReference(i, j))
        },
        10 => {
            let (i, j) = read_index_pair(buffer)?;
            Ok(ConstantPoolEntry::MethodReference(i, j))
        },
        11 => {
            let (i, j) = read_index_pair(buffer)?;
            Ok(ConstantPoolEntry::InterfaceMethodReference(i, j))
        },
        12 => {
            let (i, j) = read_index_pair(buffer)?;
            Ok(ConstantPoolEntry::NameAndTypeDescriptor(i, j))
        },
        _ => Err(invalid_data("invalid constant tag")),
    }
}

/// The slots of a pool that are still to fill.
spec fn unfilled(total: nat, filled: nat) -> nat {
    if filled < total {
        (total - filled) as nat
    } else {
        0
    }
}

/// Reads a constant pool: its count and its constants.
#[verifier::loop_isolation(false)]
pub fn read_constant_pool<F: Fn(u32) -> String, G: Fn(u64) -> String>(
    buffer: &mut Buffer,
    float_text: &F,
    double_text: &G,
) -> (r: Result<ConstantPool, ClassFileParserError>)
    requires
        forall|bits: u32| call_requires(*float_text, (bits,)),
        forall|bits: u64| call_requires(*double_text, (bits,)),
    ensures
        match constant_pool(old(buffer).remaining()) {
            Ok((spelled, rest)) => r is Ok && pool_of(
                r->Ok_0.slots(),
                spelled,
                rendering_of(float_text),
                wide_rendering_of(double_text),
            ) && final(buffer).remaining() == rest,
            Err(fault) => r is Err && reports(r->Err_0, fault),
        },
{
    let count = read_u16(buffer)?;
    let mut pool = ConstantPool::default();
    let ghost start = buffer.remaining();
    let ghost total: nat = if count >= 1 {
        (count - 1) as nat
    } else {
        0
    };
    let ghost mut entries: Seq<ConstantPoolEntry> = Seq::empty();
    let ghost mut spelled: Seq<Constant> = Seq::empty();
    proof {
        nothing_yet(constants(start, total));
    }
    while pool.len() + 1 < count as usize
        invariant
            pool.slots() == layout(entries),
            pool.slots().len() <= total + 1,
            hold_all(entries, spelled, rendering_of(float_text), wide_rendering_of(double_text)),
            constants(start, total) == extended(
                spelled,
                constants(buffer.remaining(), unfilled(total, pool.slots().len())),
            ),
        decreases unfilled(total, pool.slots().len()),
    {
        let ghost left = unfilled(total, pool.slots().len());
        let ghost first = constant(buffer.remaining())->Ok_0.0;
        let entry = read_constant(buffer, float_text, double_text)?;
        proof {
            let grown = entries.push(entry);
            assert(grown.drop_last() == entries);
            assert(grown.last() == entry);
            one_more(spelled, first, constants(buffer.remaining(), slots_left(left, first)));
            entries = grown;
            spelled = spelled.push(first);
        }
        pool.add_entry(entry);
    }
    assert(pool_of(
        pool.slots(),
        spelled,
        rendering_of(float_text),
        wide_rendering_of(double_text),
    )) by {
        assert(hold_all(entries, spelled, rendering_of(float_text), wide_rendering_of(double_text)));
    }
    assert(spelled + Seq::<Constant>::empty() == spelled);
    Ok(pool)
}

/// The text of the constant at `index`, as a name is looked up: a pool
/// whose references run in a circle is faulty.
pub open spec fn name_of(slots: Seq<ConstantPoolSlot>, index: u16) -> Result<Seq<char>, Fault> {
    match text_at(slots, index, slots.len()) {
        None => Err(Fault::ClassData("constant pool refers to itself"@, true)),
        Some(Err(error)) => Err(Fault::Plain(error)),
        Some(Ok(text)) => Ok(text),
    }
}

/// The grammar of a name: an index of two bytes, looked up in the pool.
pub open spec fn name(slots: Seq<ConstantPoolSlot>, rest: Seq<u8>) -> Result<
    (Seq<char>, Seq<u8>),
    Fault,
> {
    match number(rest, 2) {
        Err(fault) => Err(fault),
        Ok((index, after)) => match name_of(slots, index as u16) {
            Err(fault) => Err(fault),
            Ok(text) => Ok((text, after)),
        },
    }
}

/// The grammar of a name that may be absent: index zero stands for none.
pub open spec fn optional_name(slots: Seq<ConstantPoolSlot>, rest: Seq<u8>) -> Result<
    (Option<Seq<char>>, Seq<u8>),
    Fault,
> {
    match number(rest, 2) {
        Err(fault) => Err(fault),
        Ok((index, after)) => if index == 0 {
            Ok((None, after))
        } else {
            match name_of(slots, index as u16) {
                Err(fault) => Err(fault),
                Ok(text) => Ok((Some(text), after)),
            }
        },
    }
}

/// The grammar of a list of names: a count of two bytes and that many
/// names.
pub open spec fn names(slots: Seq<ConstantPoolSlot>, rest: Seq<u8>) -> Result<
    (Seq<Seq<char>>, Seq<u8>),
    Fault,
> {
    match number(rest, 2) {
        Err(fault) => Err(fault),
        Ok((count, after)) => repeated(|from: Seq<u8>| name(slots, from), after, count as nat),
    }
}

/// The grammar of an attribute: its name, its length in four bytes, and
/// that many bytes.
pub open spec fn attribute(slots: Seq<ConstantPoolSlot>, rest: Seq<u8>) -> Result<
    (AttributeView, Seq<u8>),
    Fault,
> {
    match name(slots, rest) {
        Err(fault) => Err(fault),
        Ok((name, after)) => match number(after, 4) {
            Err(fault) => Err(fault),
            Ok((len, content)) => match block(content, len) {
                Err(fault) => Err(fault),
                Ok((bytes, end)) => Ok((AttributeView { name, bytes }, end)),
            },
        },
    }
}

/// The grammar of a list of attributes: a count of two bytes and that many
/// attributes.
pub open spec fn attributes(slots: Seq<ConstantPoolSlot>, rest: Seq<u8>) -> Result<
    (Seq<AttributeView>, Seq<u8>),
    Fault,
> {
    match number(rest, 2) {
        Err(fault) => Err(fault),
        Ok((count, after)) => repeated(
            |from: Seq<u8>| attribute(slots, from),
            after,
            count as nat,
        ),
    }
}

/// Looks up the text of a constant.
fn name_at(pool: &ConstantPool, index: u16) -> (r: Result<String, ClassFileParserError>)
    ensures
        match name_of(pool.slots(), index) {
            Ok(text) => r is Ok && r->Ok_0@ == text,
            Err(fault) => r is Err && reports(r->Err_0, fault),
        },
{
    pool.text_of(index)
}

fn read_name(buffer: &mut Buffer, pool: &ConstantPool) -> (r: Result<String, ClassFileParserError>)
    ensures
        reads(r, name(pool.slots(), old(buffer).remaining()), |v: String| v@, final(buffer)),
{
    let index = read_u16(buffer)?;
    name_at(pool, index)
}

fn read_optional_name(buffer: &mut Buffer, pool: &ConstantPool) -> (r: Result<
    Option<String>,
    ClassFileParserError,
>)
    ensures
        reads(
            r,
            optional_name(pool.slots(), old(buffer).remaining()),
            |v: Option<String>|
                match v {
                    Some(text) => Some(text@),
                    None => None,
                },
            final(buffer),
        ),
{
    let index = read_u16(buffer)?;
    if index == 0 {
        Ok(None)
    } else {
        Ok(Some(name_at(pool, index)?))
    }
}

#[verifier::loop_isolation(false)]
fn read_names(buffer: &mut Buffer, pool: &ConstantPool) -> (r: Result<
    Vec<String>,
    ClassFileParserError,
>)
    ensures
        reads(
            r,
            names(pool.slots(), old(buffer).remaining()),
            |v: Vec<String>| texts_of(v@),
            final(buffer),
        ),
{
    let count = read_u16(buffer)?;
    let mut list: Vec<String> = Vec::new();
    let ghost item = |from: Seq<u8>| name(pool.slots(), from);
    let ghost start = buffer.remaining();
    proof {
        nothing_yet(repeated(item, start, count as nat));
    }
    assert(texts_of(list@) == Seq::<Seq<char>>::empty());
    while list.len() < count as usize
        invariant
            list@.len() <= count,
            repeated(item, start, count as nat) == extended(
                texts_of(list@),
                repeated(item, buffer.remaining(), (count - list@.len()) as nat),
            ),
        decreases count - list@.len(),
    {
        let ghost done = texts_of(list@);
        let text = read_name(buffer, pool)?;
        proof {
            one_more(
                done,
                text@,
                repeated(item, buffer.remaining(), (count - list@.len() - 1) as nat),
            );
        }
        list.push(text);
        assert(texts_of(list@) == done.push(text@));
    }
    assert(texts_of(list@) + Seq::<Seq<char>>::empty() == texts_of(
        list@,
    ));
    Ok(list)
}

/// Reads one attribute and keeps its bytes as they are.
fn read_attribute(buffer: &mut Buffer, pool: &ConstantPool) -> (r: Result<
    Attribute,
    ClassFileParserError,
>)
    ensures
        reads(
            r,
            attribute(pool.slots(), old(buffer).remaining()),
            |v: Attribute| v@,
            final(buffer),
        ),
{
    let name = read_name(buffer, pool)?;
    let len = read_u32(buffer)?;
    let bytes = buffer.read_bytes(len as usize)?;
    Ok(Attribute { name, bytes: vstd::slice::slice_to_vec(bytes) })
}

#[verifier::loop_isolation(false)]
fn read_attributes(buffer: &mut Buffer, pool: &ConstantPool) -> (r: Result<
    Vec<Attribute>,
    ClassFileParserError,
>)
    ensures
        reads(
            r,
            attributes(pool.slots(), old(buffer).remaining()),
            |v: Vec<Attribute>| attribute_views(v@),
            final(buffer),
        ),
{
    let count = read_u16(buffer)?;
    let mut list: Vec<Attribute> = Vec::new();
    let ghost item = |from: Seq<u8>| attribute(pool.slots(), from);
    let ghost start = buffer.remaining();
    proof {
        nothing_yet(repeated(item, start, count as nat));
    }
    assert(attribute_views(list@) == Seq::<AttributeView>::empty());
    while list.len() < count as usize
        invariant
            list@.len() <= count,
            repeated(item, start, count as nat) == extended(
                attribute_views(list@),
                repeated(item, buffer.remaining(), (count - list@.len()) as nat),
            ),
        decreases count - list@.len(),
    {
        let ghost done = attribute_views(list@);
        let read = read_attribute(buffer, pool)?;
        proof {
            one_more(
                done,
                read@,
                repeated(item, buffer.remaining(), (count - list@.len() - 1) as nat),
            );
        }
        let ghost view = read@;
        list.push(read);
        assert(attribute_views(list@) == done.push(view));
    }
    assert(attribute_views(list@) + Seq::<AttributeView>::empty() == attribute_views(list@));
    Ok(list)
}

/// The grammar of an entry of the exception table: the start and the end
/// of the guarded range, the address of the handler, and the name of the
/// caught class, which may be absent.
pub open spec fn exception_entry(slots: Seq<ConstantPoolSlot>, rest: Seq<u8>) -> Result<
    (ExceptionTableEntryView, Seq<u8>),
    Fault,
> {
    match number(rest, 2) {
        Err(fault) => Err(fault),
        Ok((start, after_start)) => match number(after_start, 2) {
            Err(fault) => Err(fault),
            Ok((end, after_end)) => match number(after_end, 2) {
                Err(fault) => Err(fault),
                Ok((handler, after_handler)) => match optional_name(slots, after_handler) {
                    Err(fault) => Err(fault),
                    Ok((catch_class, behind)) => Ok(
                        (
                            ExceptionTableEntryView {
                                start: start as u16,
                                end: end as u16,
                                handler: handler as u16,
                                catch_class,
                            },
                            behind,
                        ),
                    ),
                },
            },
        },
    }
}

/// The grammar of an exception table: a count of two bytes and that many
/// entries.
pub open spec fn exception_entries(slots: Seq<ConstantPoolSlot>, rest: Seq<u8>) -> Result<
    (Seq<ExceptionTableEntryView>, Seq<u8>),
    Fault,
> {
    match number(rest, 2) {
        Err(fault) => Err(fault),
        Ok((count, after)) => repeated(
            |from: Seq<u8>| exception_entry(slots, from),
            after,
            count as nat,
        ),
    }
}

/// The grammar of an entry of the line-number table: an address and a line,
/// two bytes each.
pub open spec fn line_entry(rest: Seq<u8>) -> Result<(LineNumberTableEntry, Seq<u8>), Fault> {
    match number(rest, 2) {
        Err(fault) => Err(fault),
        Ok((pc, after)) => match number(after, 2) {
            Err(fault) => Err(fault),
            Ok((line, behind)) => Ok(
                (
                    LineNumberTableEntry {
                        program_counter: ProgramCounter(pc as u16),
                        line_number: LineNumber(line as u16),
                    },
                    behind,
                ),
            ),
        },
    }
}

/// The grammar of a line-number table: a count of two bytes and that many
/// entries.
pub open spec fn line_entries(rest: Seq<u8>) -> Result<
    (Seq<LineNumberTableEntry>, Seq<u8>),
    Fault,
> {
    match number(rest, 2) {
        Err(fault) => Err(fault),
        Ok((count, after)) => repeated(|from: Seq<u8>| line_entry(from), after, count as nat),
    }
}

/// The code of a method as the class file spells it.
pub ghost struct CodeView {
    pub max_stack: u16,
    pub max_locals: u16,
    pub code: Seq<u8>,
    pub exception_table: Seq<ExceptionTableEntryView>,
    /// The entries of the first line-number table among the attributes, in
    /// the order of the file.
    pub line_numbers: Option<Seq<LineNumberTableEntry>>,
    pub attributes: Seq<AttributeView>,
}

/// The line numbers that the attributes of a code hold: those of the first
/// attribute named `LineNumberTable`, if there is one.
pub open spec fn line_numbers_among(attributes: Seq<AttributeView>) -> Result<
    Option<Seq<LineNumberTableEntry>>,
    Fault,
> {
    match first_named(attributes, "LineNumberTable"@) {
        None => Ok(None),
        Some(table) => match line_entries(table.bytes) {
            Err(fault) => Err(fault),
            Ok((entries, _)) => Ok(Some(entries)),
        },
    }
}

/// The grammar of the content of a `Code` attribute: the two limits, the
/// bytecode behind its length in four bytes, the exception table and the
/// attributes. Bytes behind the attributes are not looked at.
pub open spec fn code(slots: Seq<ConstantPoolSlot>, bytes: Seq<u8>) -> Result<CodeView, Fault> {
    match number(bytes, 2) {
        Err(fault) => Err(fault),
        Ok((max_stack, after_stack)) => match number(after_stack, 2) {
            Err(fault) => Err(fault),
            Ok((max_locals, after_locals)) => match number(after_locals, 4) {
                Err(fault) => Err(fault),
                Ok((len, after_len)) => match block(after_len, len) {
                    Err(fault) => Err(fault),
                    Ok((code, after_code)) => match exception_entries(slots, after_code) {
                        Err(fault) => Err(fault),
                        Ok((exception_table, after_table)) => match attributes(
                            slots,
                            after_table,
                        ) {
                            Err(fault) => Err(fault),
                            Ok((attributes, _)) => match line_numbers_among(attributes) {
                                Err(fault) => Err(fault),
                                Ok(line_numbers) => Ok(
                                    CodeView {
                                        max_stack: max_stack as u16,
                                        max_locals: max_locals as u16,
                                        code,
                                        exception_table,
                                        line_numbers,
                                        attributes,
                                    },
                                ),
                            },
                        },
                    },
                },
            },
        },
    }
}

/// The decoded code holds what the grammar found, with the line numbers
/// sorted by address.
pub open spec fn shows_code(decoded: ClassFileMethodCode, spelled: CodeView) -> bool {
    &&& decoded.max_stack == spelled.max_stack
    &&& decoded.max_locals == spelled.max_locals
    &&& decoded.code@ == spelled.code
    &&& entry_views(decoded.exception_table@) == spelled.exception_table
    &&& match spelled.line_numbers {
        Some(entries) => decoded.line_number_table is Some && stably_sorted(
            entries,
            decoded.line_number_table->0@,
        ),
        None => decoded.line_number_table is None,
    }
    &&& attribute_views(decoded.attributes@) == spelled.attributes
}

fn read_exception_entry(buffer: &mut Buffer, pool: &ConstantPool) -> (r: Result<
    ExceptionTableEntry,
    ClassFileParserError,
>)
    ensures
        reads(
            r,
            exception_entry(pool.slots(), old(buffer).remaining()),
            |v: ExceptionTableEntry| v@,
            final(buffer),
        ),
{
    let start = read_u16(buffer)?;
    let end = read_u16(buffer)?;
    let handler = read_u16(buffer)?;
    let catch_class = read_optional_name(buffer, pool)?;
    Ok(
        ExceptionTableEntry {
            range: Range { start: ProgramCounter(start), end: ProgramCounter(end) },
            handler_pc: ProgramCounter(handler),
            catch_class,
        },
    )
}

#[verifier::loop_isolation(false)]
fn read_exception_table(buffer: &mut Buffer, pool: &ConstantPool) -> (r: Result<
    ExceptionTable,
    ClassFileParserError,
>)
    ensures
        reads(
            r,
            exception_entries(pool.slots(), old(buffer).remaining()),
            |v: ExceptionTable| entry_views(v@),
            final(buffer),
        ),
{
    let count = read_u16(buffer)?;
    let mut list: Vec<ExceptionTableEntry> = Vec::new();
    let ghost item = |from: Seq<u8>| exception_entry(pool.slots(), from);
    let ghost start = buffer.remaining();
    proof {
        nothing_yet(repeated(item, start, count as nat));
    }
    assert(entry_views(list@) == Seq::<ExceptionTableEntryView>::empty());
    while list.len() < count as usize
        invariant
            list@.len() <= count,
            repeated(item, start, count as nat) == extended(
                entry_views(list@),
                repeated(item, buffer.remaining(), (count - list@.len()) as nat),
            ),
        decreases count - list@.len(),
    {
        let ghost done = entry_views(list@);
        let read = read_exception_entry(buffer, pool)?;
        proof {
            one_more(
                done,
                read@,
                repeated(item, buffer.remaining(), (count - list@.len() - 1) as nat),
            );
        }
        let ghost view = read@;
        list.push(read);
        assert(entry_views(list@) == done.push(view));
    }
    assert(entry_views(list@) + Seq::<ExceptionTableEntryView>::empty() == entry_views(list@));
    Ok(ExceptionTable::new(list))
}

fn read_line_entry(buffer: &mut Buffer) -> (r: Result<LineNumberTableEntry, ClassFileParserError>)
    ensures
        reads(
            r,
            line_entry(old(buffer).remaining()),
            |v: LineNumberTableEntry| v,
            final(buffer),
        ),
{
    let pc = read_u16(buffer)?;
    let line = read_u16(buffer)?;
    Ok(LineNumberTableEntry::new(ProgramCounter(pc), LineNumber(line)))
}

/// Reads the entries of a line-number table, in the order of the file.
#[verifier::loop_isolation(false)]
fn read_line_entries(buffer: &mut Buffer) -> (r: Result<
    Vec<LineNumberTableEntry>,
    ClassFileParserError,
>)
    ensures
        reads(
            r,
            line_entries(old(buffer).remaining()),
            |v: Vec<LineNumberTableEntry>| v@,
            final(buffer),
        ),
{
    let count = read_u16(buffer)?;
    let mut list: Vec<LineNumberTableEntry> = Vec::new();
    let ghost item = |from: Seq<u8>| line_entry(from);
    let ghost start = buffer.remaining();
    proof {
        nothing_yet(repeated(item, start, count as nat));
    }
    while list.len() < count as usize
        invariant
            list@.len() <= count,
            repeated(item, start, count as nat) == extended(
                list@,
                repeated(item, buffer.remaining(), (count - list@.len()) as nat),
            ),
        decreases count - list@.len(),
    {
        let ghost done = list@;
        let read = read_line_entry(buffer)?;
        proof {
            one_more(
                done,
                read,
                repeated(item, buffer.remaining(), (count - list@.len() - 1) as nat),
            );
        }
        list.push(read);
    }
    assert(list@ + Seq::<LineNumberTableEntry>::empty() == list@);
    Ok(list)
}

/// Decodes the content of a `Code` attribute.
pub fn read_code(bytes: &[u8], pool: &ConstantPool) -> (r: Result<
    ClassFileMethodCode,
    ClassFileParserError,
>)
    ensures
        match code(pool.slots(), bytes@) {
            Ok(spelled) => r is Ok && shows_code(r->Ok_0, spelled),
            Err(fault) => r is Err && reports(r->Err_0, fault),
        },
{
    let mut buffer = Buffer::new(bytes);
    let max_stack = read_u16(&mut buffer)?;
    let max_locals = read_u16(&mut buffer)?;
    let len = read_u32(&mut buffer)?;
    let code = buffer.read_bytes(len as usize)?;
    let exception_table = read_exception_table(&mut buffer, pool)?;
    let attributes = read_attributes(&mut buffer, pool)?;
    let line_number_table = match find_attribute(&attributes, "LineNumberTable") {
        Some(table) => {
            let mut lines = Buffer::new(table.bytes.as_slice());
            Some(LineNumberTable::new(read_line_entries(&mut lines)?))
        },
        None => None,
    };
    Ok(
        ClassFileMethodCode {
            max_stack,
            max_locals,
            code: vstd::slice::slice_to_vec(code),
            exception_table,
            line_number_table,
            attributes,
        },
    )
}

/// The grammar of flags: two bytes in which no bit is set outside `all`;
/// `what` names the fault of other bits.
pub open spec fn flags(rest: Seq<u8>, all: u16, what: Seq<char>) -> Result<(u16, Seq<u8>), Fault> {
    match number(rest, 2) {
        Err(fault) => Err(fault),
        Ok((bits, after)) => if holds_all(all, bits as u16) {
            Ok((bits as u16, after))
        } else {
            Err(Fault::ClassData(what, false))
        },
    }
}

/// The value that the content of a `ConstantValue` attribute names: the
/// constant at the index in its first two bytes, which must be a number or
/// a string.
pub open spec fn constant_value(slots: Seq<ConstantPoolSlot>, bytes: Seq<u8>) -> Result<
    FieldConstantValueView,
    Fault,
> {
    match number(bytes, 2) {
        Err(fault) => Err(fault),
        Ok((index, _)) => match entry_at(slots, index as u16) {
            Err(error) => Err(Fault::Plain(error)),
            Ok(ConstantPoolEntry::Integer(n)) => Ok(FieldConstantValueView::Int(n)),
            Ok(ConstantPoolEntry::Float(bits, _)) => Ok(FieldConstantValueView::Float(bits)),
            Ok(ConstantPoolEntry::Long(n)) => Ok(FieldConstantValueView::Long(n)),
            Ok(ConstantPoolEntry::Double(bits, _)) => Ok(FieldConstantValueView::Double(bits)),
            Ok(ConstantPoolEntry::StringReference(text)) => match name_of(slots, text) {
                Err(fault) => Err(fault),
                Ok(text) => Ok(FieldConstantValueView::String(text)),
            },
            Ok(_) => Err(Fault::ClassData("invalid constant value"@, true)),
        },
    }
}

/// The constant value of a field with these flags and attributes: a field
/// that is `final` has that of the first attribute named `ConstantValue`,
/// if there is one; any other field has none.
pub open spec fn constant_value_among(
    slots: Seq<ConstantPoolSlot>,
    flags: u16,
    attributes: Seq<AttributeView>,
) -> Result<Option<FieldConstantValueView>, Fault> {
    if !holds_all(flags, FieldFlags::FINAL) {
        Ok(None)
    } else {
        match first_named(attributes, "ConstantValue"@) {
            None => Ok(None),
            Some(found) => match constant_value(slots, found.bytes) {
                Err(fault) => Err(fault),
                Ok(value) => Ok(Some(value)),
            },
        }
    }
}

/// The grammar of a field: its flags, its name, its type descriptor and
/// its attributes, among which the mark of deprecation and, for a `final`
/// field, a constant value are looked for.
pub open spec fn field(slots: Seq<ConstantPoolSlot>, rest: Seq<u8>) -> Result<
    (ClassFileFieldView, Seq<u8>),
    Fault,
> {
    match flags(rest, FieldFlags::ALL, "invalid field flags"@) {
        Err(fault) => Err(fault),
        Ok((field_flags, after_flags)) => match name(slots, after_flags) {
            Err(fault) => Err(fault),
            Ok((field_name, after_name)) => match name(slots, after_name) {
                Err(fault) => Err(fault),
                Ok((descriptor, after_descriptor)) => match type_of_descriptor(descriptor) {
                    None => Err(Fault::FieldDescriptor(descriptor)),
                    Some(type_descriptor) => match attributes(slots, after_descriptor) {
                        Err(fault) => Err(fault),
                        Ok((attributes, behind)) => match constant_value_among(
                            slots,
                            field_flags,
                            attributes,
                        ) {
                            Err(fault) => Err(fault),
                            Ok(constant_value) => Ok(
                                (
                                    ClassFileFieldView {
                                        flags: field_flags,
                                        name: field_name,
                                        type_descriptor,
                                        constant_value,
                                        deprecated: first_named(
                                            attributes,
                                            "Deprecated"@,
                                        ) is Some,
                                    },
                                    behind,
                                ),
                            ),
                        },
                    },
                },
            },
        },
    }
}

/// The grammar of the fields of a class: a count of two bytes and that many
/// fields.
pub open spec fn fields(slots: Seq<ConstantPoolSlot>, rest: Seq<u8>) -> Result<
    (Seq<ClassFileFieldView>, Seq<u8>),
    Fault,
> {
    match number(rest, 2) {
        Err(fault) => Err(fault),
        Ok((count, after)) => repeated(|from: Seq<u8>| field(slots, from), after, count as nat),
    }
}

/// Decodes the content of a `ConstantValue` attribute.
fn read_constant_value(bytes: &[u8], pool: &ConstantPool) -> (r: Result<
    FieldConstantValue,
    ClassFileParserError,
>)
    ensures
        match constant_value(pool.slots(), bytes@) {
            Ok(value) => r is Ok && r->Ok_0@ == value,
            Err(fault) => r is Err && reports(r->Err_0, fault),
        },
{
    let mut buffer = Buffer::new(bytes);
    let index = read_u16(&mut buffer)?;
    match pool.get_entry(index)? {
        ConstantPoolEntry::Integer(n) => Ok(FieldConstantValue::Int(*n)),
        ConstantPoolEntry::Float(bits, _) => Ok(FieldConstantValue::Float(*bits)),
        ConstantPoolEntry::Long(n) => Ok(FieldConstantValue::Long(*n)),
        ConstantPoolEntry::Double(bits, _) => Ok(FieldConstantValue::Double(*bits)),
        ConstantPoolEntry::StringReference(text) => Ok(
            FieldConstantValue::String(name_at(pool, *text)?),
        ),
        _ => Err(
            ClassFileParserError::InvalidClassData {
                name: String::from_str("invalid constant value"),
                is_invalidate_constant_pool_idx: true,
            },
        ),
    }
}

fn read_field(buffer: &mut Buffer, pool: &ConstantPool) -> (r: Result<
    ClassFileField,
    ClassFileParserError,
>)
    ensures
        reads(
            r,
            field(pool.slots(), old(buffer).remaining()),
            |v: ClassFileField| v@,
            final(buffer),
        ),
{
    let flags = match FieldFlags::from_bits(read_u16(buffer)?) {
        Some(flags) => flags,
        None => {
            return Err(invalid_data("invalid field flags"));
        },
    };
    let name = read_name(buffer, pool)?;
    let descriptor = read_name(buffer, pool)?;
    let type_descriptor = Type::parse(descriptor.as_str())?;
    let attributes = read_attributes(buffer, pool)?;
    let constant_value = if flags.contains(FieldFlags::FINAL) {
        match find_attribute(&attributes, "ConstantValue") {
            Some(found) => Some(read_constant_value(found.bytes.as_slice(), pool)?),
            None => None,
        }
    } else {
        None
    };
    let deprecated = find_attribute(&attributes, "Deprecated").is_some();
    Ok(ClassFileField { flags, name, type_descriptor, constant_value, deprecated })
}

#[verifier::loop_isolation(false)]
fn read_fields(buffer: &mut Buffer, pool: &ConstantPool) -> (r: Result<
    Vec<ClassFileField>,
    ClassFileParserError,
>)
    ensures
        reads(
            r,
            fields(pool.slots(), old(buffer).remaining()),
            |v: Vec<ClassFileField>| field_views(v@),
            final(buffer),
        ),
{
    let count = read_u16(buffer)?;
    let mut list: Vec<ClassFileField> = Vec::new();
    let ghost item = |from: Seq<u8>| field(pool.slots(), from);
    let ghost start = buffer.remaining();
    proof {
        nothing_yet(repeated(item, start, count as nat));
    }
    assert(field_views(list@) == Seq::<ClassFileFieldView>::empty());
    while list.len() < count as usize
        invariant
            list@.len() <= count,
            repeated(item, start, count as nat) == extended(
                field_views(list@),
                repeated(item, buffer.remaining(), (count - list@.len()) as nat),
            ),
        decreases count - list@.len(),
    {
        let ghost done = field_views(list@);
        let read = read_field(buffer, pool)?;
        proof {
            one_more(
                done,
                read@,
                repeated(item, buffer.remaining(), (count - list@.len() - 1) as nat),
            );
        }
        let ghost view = read@;
        list.push(read);
        assert(field_views(list@) == done.push(view));
    }
    assert(field_views(list@) + Seq::<ClassFileFieldView>::empty() == field_views(list@));
    Ok(list)
}

/// A method as the class file spells it.
pub ghost struct MethodView {
    pub flags: u16,
    pub name: Seq<char>,
    pub type_descriptor: Seq<char>,
    pub parsed_type_descriptor: MethodDescriptorView,
    pub attributes: Seq<AttributeView>,
    pub code: Option<CodeView>,
    pub deprecated: bool,
    pub thrown_exceptions: Seq<Seq<char>>,
}

/// The method that a descriptor text spells.
pub open spec fn method_descriptor(text: Seq<char>) -> Result<MethodDescriptorView, Fault> {
    match method_descriptor_of(text) {
        Ok(parsed) => Ok(parsed),
        Err(DescriptorFault::Method) => Err(Fault::MethodDescriptor(text)),
        Err(DescriptorFault::Type) => Err(Fault::FieldDescriptor(text)),
    }
}

/// The code that the attributes of a method hold: that of the first
/// attribute named `Code`, if there is one.
pub open spec fn code_among(slots: Seq<ConstantPoolSlot>, attributes: Seq<AttributeView>) -> Result<
    Option<CodeView>,
    Fault,
> {
    match first_named(attributes, "Code"@) {
        None => Ok(None),
        Some(found) => match code(slots, found.bytes) {
            Err(fault) => Err(fault),
            Ok(spelled) => Ok(Some(spelled)),
        },
    }
}

/// The declared exceptions that the attributes of a method hold: the names
/// listed in the first attribute named `Exceptions`; none without one.
pub open spec fn exceptions_among(
    slots: Seq<ConstantPoolSlot>,
    attributes: Seq<AttributeView>,
) -> Result<Seq<Seq<char>>, Fault> {
    match first_named(attributes, "Exceptions"@) {
        None => Ok(Seq::empty()),
        Some(found) => match names(slots, found.bytes) {
            Err(fault) => Err(fault),
            Ok((thrown, _)) => Ok(thrown),
        },
    }
}

/// The grammar of a method: its flags, its name, its descriptor and its
/// attributes, among which the code, the declared exceptions and the mark
/// of deprecation are looked for.
pub open spec fn method(slots: Seq<ConstantPoolSlot>, rest: Seq<u8>) -> Result<
    (MethodView, Seq<u8>),
    Fault,
> {
    match flags(rest, MethodFlags::ALL, "invalid method flags"@) {
        Err(fault) => Err(fault),
        Ok((method_flags, after_flags)) => match name(slots, after_flags) {
            Err(fault) => Err(fault),
            Ok((method_name, after_name)) => match name(slots, after_name) {
                Err(fault) => Err(fault),
                Ok((descriptor, after_descriptor)) => match method_descriptor(descriptor) {
                    Err(fault) => Err(fault),
                    Ok(parsed) => match attributes(slots, after_descriptor) {
                        Err(fault) => Err(fault),
                        Ok((attributes, behind)) => match code_among(slots, attributes) {
                            Err(fault) => Err(fault),
                            Ok(code) => match exceptions_among(slots, attributes) {
                                Err(fault) => Err(fault),
                                Ok(thrown_exceptions) => Ok(
                                    (
                                        MethodView {
                                            flags: method_flags,
                                            name: method_name,
                                            type_descriptor: descriptor,
                                            parsed_type_descriptor: parsed,
                                            attributes,
                                            code,
                                            deprecated: first_named(
                                                attributes,
                                                "Deprecated"@,
                                            ) is Some,
                                            thrown_exceptions,
                                        },
                                        behind,
                                    ),
                                ),
                            },
                        },
                    },
                },
            },
        },
    }
}

/// The grammar of the methods of a class: a count of two bytes and that
/// many methods.
pub open spec fn methods(slots: Seq<ConstantPoolSlot>, rest: Seq<u8>) -> Result<
    (Seq<MethodView>, Seq<u8>),
    Fault,
> {
    match number(rest, 2) {
        Err(fault) => Err(fault),
        Ok((count, after)) => repeated(|from: Seq<u8>| method(slots, from), after, count as nat),
    }
}

/// The decoded method holds what the grammar found.
pub open spec fn shows_method(decoded: ClassFileMethod, spelled: MethodView) -> bool {
    &&& decoded.flags@ == spelled.flags
    &&& decoded.name@ == spelled.name
    &&& decoded.type_descriptor@ == spelled.type_descriptor
    &&& decoded.parsed_type_descriptor@ == spelled.parsed_type_descriptor
    &&& attribute_views(decoded.attributes@) == spelled.attributes
    &&& match spelled.code {
        Some(code) => decoded.code is Some && shows_code(decoded.code->0, code),
        None => decoded.code is None,
    }
    &&& decoded.deprecated == spelled.deprecated
    &&& texts_of(decoded.thrown_exceptions@) == spelled.thrown_exceptions
}

/// The decoded methods hold what the grammar found, one for one and in
/// order.
pub open spec fn shows_methods(decoded: Seq<ClassFileMethod>, spelled: Seq<MethodView>) -> bool {
    &&& decoded.len() == spelled.len()
    &&& forall|i: int| 0 <= i < decoded.len() ==> shows_method(#[trigger] decoded[i], spelled[i])
}

/// What a read gives: a value that holds what the grammar finds, with the
/// cursor on the bytes behind it, or the report of the fault.
pub open spec fn reads_like<T, V>(
    r: Result<T, ClassFileParserError>,
    expected: Result<(V, Seq<u8>), Fault>,
    shows: spec_fn(T, V) -> bool,
    after: &Buffer,
) -> bool {
    match expected {
        Ok((found, rest)) => r is Ok && shows(r->Ok_0, found) && after.remaining() == rest,
        Err(fault) => r is Err && reports(r->Err_0, fault),
    }
}

fn read_method_descriptor(text: &str) -> (r: Result<MethodDescriptor, ClassFileParserError>)
    ensures
        match method_descriptor(text@) {
            Ok(parsed) => r is Ok && r->Ok_0@ == parsed,
            Err(fault) => r is Err && reports(r->Err_0, fault),
        },
{
    MethodDescriptor::parse(text)
}

fn read_method(buffer: &mut Buffer, pool: &ConstantPool) -> (r: Result<
    ClassFileMethod,
    ClassFileParserError,
>)
    ensures
        reads_like(
            r,
            method(pool.slots(), old(buffer).remaining()),
            |decoded: ClassFileMethod, spelled: MethodView| shows_method(decoded, spelled),
            final(buffer),
        ),
{
    let flags = match MethodFlags::from_bits(read_u16(buffer)?) {
        Some(flags) => flags,
        None => {
            return Err(invalid_data("invalid method flags"));
        },
    };
    let name = read_name(buffer, pool)?;
    let type_descriptor = read_name(buffer, pool)?;
    let parsed_type_descriptor = read_method_descriptor(type_descriptor.as_str())?;
    let attributes = read_attributes(buffer, pool)?;
    let code = match find_attribute(&attributes, "Code") {
        Some(found) => Some(read_code(found.bytes.as_slice(), pool)?),
        None => None,
    };
    let thrown_exceptions = match find_attribute(&attributes, "Exceptions") {
        Some(found) => {
            let mut list = Buffer::new(found.bytes.as_slice());
            read_names(&mut list, pool)?
        },
        None => Vec::new(),
    };
    let deprecated = find_attribute(&attributes, "Deprecated").is_some();
    assert(texts_of(Seq::<String>::empty()) == Seq::<Seq<char>>::empty());
    Ok(
        ClassFileMethod {
            flags,
            name,
            type_descriptor,
            parsed_type_descriptor,
            attributes,
            code,
            deprecated,
            thrown_exceptions,
        },
    )
}

#[verifier::loop_isolation(false)]
fn read_methods(buffer: &mut Buffer, pool: &ConstantPool) -> (r: Result<
    Vec<ClassFileMethod>,
    ClassFileParserError,
>)
    ensures
        reads_like(
            r,
            methods(pool.slots(), old(buffer).remaining()),
            |decoded: Vec<ClassFileMethod>, spelled: Seq<MethodView>|
                shows_methods(decoded@, spelled),
            final(buffer),
        ),
{
    let count = read_u16(buffer)?;
    let mut list: Vec<ClassFileMethod> = Vec::new();
    let ghost item = |from: Seq<u8>| method(pool.slots(), from);
    let ghost start = buffer.remaining();
    let ghost mut spelled: Seq<MethodView> = Seq::empty();
    proof {
        nothing_yet(repeated(item, start, count as nat));
    }
    while list.len() < count as usize
        invariant
            list@.len() <= count,
            shows_methods(list@, spelled),
            repeated(item, start, count as nat) == extended(
                spelled,
                repeated(item, buffer.remaining(), (count - list@.len()) as nat),
            ),
        decreases count - list@.len(),
    {
        let ghost found = method(pool.slots(), buffer.remaining())->Ok_0.0;
        let read = read_method(buffer, pool)?;
        proof {
            one_more(
                spelled,
                found,
                repeated(item, buffer.remaining(), (count - list@.len() - 1) as nat),
            );
            spelled = spelled.push(found);
        }
        list.push(read);
    }
    assert(spelled + Seq::<MethodView>::empty() == spelled);
    Ok(list)
}

/// The four bytes that every class file starts with.
pub const MAGIC: u32 = 0xCAFE_BABE;

/// The grammar of the header of a class file: the magic number, the minor
/// version and the major version, which must be a known one. Gives the
/// major and the minor version.
pub open spec fn header(rest: Seq<u8>) -> Result<((u16, u16), Seq<u8>), Fault> {
    match number(rest, 4) {
        Err(fault) => Err(fault),
        Ok((magic, after_magic)) => if magic != MAGIC {
            Err(Fault::ClassData("invalid magic number"@, false))
        } else {
            match number(after_magic, 2) {
                Err(fault) => Err(fault),
                Ok((minor, after_minor)) => match number(after_minor, 2) {
                    Err(fault) => Err(fault),
                    Ok((major, behind)) => if sdk_version_of(major as u16) is Some {
                        Ok(((major as u16, minor as u16), behind))
                    } else {
                        Err(
                            Fault::Plain(
                                ClassFileParserError::ClassFileVersionError(
                                    major as u16,
                                    minor as u16,
                                ),
                            ),
                        )
                    },
                },
            }
        },
    }
}

/// What a class file holds behind its constant pool, as the file spells it.
pub ghost struct ClassView {
    pub flags: u16,
    pub name: Seq<char>,
    pub superclass: Option<Seq<char>>,
    pub interfaces: Seq<Seq<char>>,
    pub fields: Seq<ClassFileFieldView>,
    pub methods: Seq<MethodView>,
    pub deprecated: bool,
    pub source_file: Option<Seq<char>>,
}

/// The name of the source file that the attributes of a class hold: the one
/// that the first attribute named `SourceFile` refers to, if there is one.
pub open spec fn source_file_among(
    slots: Seq<ConstantPoolSlot>,
    attributes: Seq<AttributeView>,
) -> Result<Option<Seq<char>>, Fault> {
    match first_named(attributes, "SourceFile"@) {
        None => Ok(None),
        Some(found) => match name(slots, found.bytes) {
            Err(fault) => Err(fault),
            Ok((text, _)) => Ok(Some(text)),
        },
    }
}

/// The grammar of what follows the constant pool: the flags of the class,
/// its name, the name of its superclass, which may be absent, the names of
/// its interfaces, its fields, its methods and its attributes, among which
/// the source file and the mark of deprecation are looked for. Bytes behind
/// the attributes are not looked at.
pub open spec fn class_body(slots: Seq<ConstantPoolSlot>, rest: Seq<u8>) -> Result<
    ClassView,
    Fault,
> {
    match flags(rest, ClassAccessFlags::ALL, "invalid class flags"@) {
        Err(fault) => Err(fault),
        Ok((class_flags, after_flags)) => match name(slots, after_flags) {
            Err(fault) => Err(fault),
            Ok((class_name, after_name)) => match optional_name(slots, after_name) {
                Err(fault) => Err(fault),
                Ok((superclass, after_super)) => match names(slots, after_super) {
                    Err(fault) => Err(fault),
                    Ok((interfaces, after_interfaces)) => match fields(slots, after_interfaces) {
                        Err(fault) => Err(fault),
                        Ok((fields, after_fields)) => match methods(slots, after_fields) {
                            Err(fault) => Err(fault),
                            Ok((methods, after_methods)) => match attributes(
                                slots,
                                after_methods,
                            ) {
                                Err(fault) => Err(fault),
                                Ok((attributes, _)) => match source_file_among(
                                    slots,
                                    attributes,
                                ) {
                                    Err(fault) => Err(fault),
                                    Ok(source_file) => Ok(
                                        ClassView {
                                            flags: class_flags,
                                            name: class_name,
                                            superclass,
                                            interfaces,
                                            fields,
                                            methods,
                                            deprecated: first_named(
                                                attributes,
                                                "Deprecated"@,
                                            ) is Some,
                                            source_file,
                                        },
                                    ),
                                },
                            },
                        },
                    },
                },
            },
        },
    }
}

/// The decoded class has the version and the pool given and holds what the
/// grammar found behind the pool.
pub open spec fn shows_class(
    decoded: ClassFile,
    version: (u16, u16),
    slots: Seq<ConstantPoolSlot>,
    spelled: ClassView,
) -> bool {
    &&& decoded.version.major() == version.0
    &&& decoded.version.minor() == version.1
    &&& decoded.constants.slots() == slots
    &&& decoded.flags@ == spelled.flags
    &&& decoded.name@ == spelled.name
    &&& match spelled.superclass {
        Some(superclass) => decoded.superclass is Some && decoded.superclass->0@ == superclass,
        None => decoded.superclass is None,
    }
    &&& texts_of(decoded.interfaces@) == spelled.interfaces
    &&& field_views(decoded.fields@) == spelled.fields
    &&& shows_methods(decoded.methods@, spelled.methods)
    &&& decoded.deprecated == spelled.deprecated
    &&& match spelled.source_file {
        Some(source_file) => decoded.source_file is Some && decoded.source_file->0@
            == source_file,
        None => decoded.source_file is None,
    }
}

/// What decoding a class file gives.
///
/// The bytes are read in the order of the file: the header, the constant
/// pool, and what follows it, in which names are looked up in the pool.
/// The first fault ends the decoding and is reported; without a fault the
/// class holds all that the grammar found. The texts of the floating-point
/// constants of the pool are any that the renderers accept.
pub open spec fn decodes(
    bytes: Seq<u8>,
    r: Result<ClassFile, ClassFileParserError>,
    float_text: spec_fn(u32, String) -> bool,
    double_text: spec_fn(u64, String) -> bool,
) -> bool {
    match header(bytes) {
        Err(fault) => r is Err && reports(r->Err_0, fault),
        Ok((version, after_header)) => match constant_pool(after_header) {
            Err(fault) => r is Err && reports(r->Err_0, fault),
            Ok((constants, after_pool)) => exists|slots: Seq<ConstantPoolSlot>|
                #[trigger] pool_of(slots, constants, float_text, double_text) && match class_body(
                    slots,
                    after_pool,
                ) {
                    Err(fault) => r is Err && reports(r->Err_0, fault),
                    Ok(spelled) => r is Ok && shows_class(r->Ok_0, version, slots, spelled),
                },
        },
    }
}

/// Reads the header of a class file.
pub fn read_header(buffer: &mut Buffer) -> (r: Result<ClassFileVersion, ClassFileParserError>)
    ensures
        reads(
            r,
            header(old(buffer).remaining()),
            |v: ClassFileVersion| (v.major(), v.minor()),
            final(buffer),
        ),
{
    let magic = read_u32(buffer)?;
    if magic != MAGIC {
        return Err(invalid_data("invalid magic number"));
    }
    let minor_version = read_u16(buffer)?;
    let major_version = read_u16(buffer)?;
    ClassFileVersion::new(major_version, minor_version)
}

/// Reads what follows the constant pool and puts the class together.
pub fn read_class_body(buffer: &mut Buffer, version: ClassFileVersion, pool: ConstantPool) -> (r:
    Result<ClassFile, ClassFileParserError>)
    ensures
        match class_body(pool.slots(), old(buffer).remaining()) {
            Ok(spelled) => r is Ok && shows_class(
                r->Ok_0,
                (version.major(), version.minor()),
                pool.slots(),
                spelled,
            ),
            Err(fault) => r is Err && reports(r->Err_0, fault),
        },
{
    let flags = match ClassAccessFlags::from_bits(read_u16(buffer)?) {
        Some(flags) => flags,
        None => {
            return Err(invalid_data("invalid class flags"));
        },
    };
    let name = read_name(buffer, &pool)?;
    let superclass = read_optional_name(buffer, &pool)?;
    let interfaces = read_names(buffer, &pool)?;
    let fields = read_fields(buffer, &pool)?;
    let methods = read_methods(buffer, &pool)?;
    let attributes = read_attributes(buffer, &pool)?;
    let source_file = match find_attribute(&attributes, "SourceFile") {
        Some(found) => {
            let mut content = Buffer::new(found.bytes.as_slice());
            Some(read_name(&mut content, &pool)?)
        },
        None => None,
    };
    let deprecated = find_attribute(&attributes, "Deprecated").is_some();
    Ok(
        ClassFile {
            version,
            constants: pool,
            flags,
            name,
            superclass,
            interfaces,
            fields,
            methods,
            deprecated,
            source_file,
        },
    )
}

/// Decodes a class file.
///
/// The decoder does not deal in floating-point numbers: it takes the text
/// of a floating-point constant from `float_text` or `double_text`, which
/// are handed the bit pattern of the constant.
pub fn read_buffer<F: Fn(u32) -> String, G: Fn(u64) -> String>(
    buf: &[u8],
    float_text: F,
    double_text: G,
) -> (r: Result<ClassFile, ClassFileParserError>)
    requires
        forall|bits: u32| call_requires(float_text, (bits,)),
        forall|bits: u64| call_requires(double_text, (bits,)),
    ensures
        decodes(buf@, r, rendering_of(&float_text), wide_rendering_of(&double_text)),
{
    let mut buffer = Buffer::new(buf);
    let version = read_header(&mut buffer)?;
    let pool = read_constant_pool(&mut buffer, &float_text, &double_text)?;
    let ghost slots = pool.slots();
    let ghost constants = constant_pool(header(buf@)->Ok_0.1)->Ok_0.0;
    assert(pool_of(slots, constants, rendering_of(&float_text), wide_rendering_of(&double_text)));
    read_class_body(&mut buffer, version, pool)
}

} // verus!
