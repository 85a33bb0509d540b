use vstd::prelude::*;
use vstd::string::StringExecFns;
use crate::buffer::{Buffer, be_modulus_values, be_signed, be_unsigned, be_unsigned_bound};
use crate::error::ClassFileParserError;

verus! {

/// How the bytes behind an opcode are laid out.
#[derive(Debug, Clone, Copy, PartialEq, Eq, Structural)]
pub enum OperandLayout {
    /// No operand.
    Nothing,
    /// One unsigned byte: an index of a local variable or of a constant, or
    /// an array type code.
    Byte,
    /// One signed byte: a value.
    SignedByte,
    /// Two bytes: an index into the constant pool.
    Short,
    /// Two bytes: a signed value.
    SignedShort,
    /// Two bytes: a signed distance to jump.
    Branch,
    /// Four bytes: a signed distance to jump.
    WideBranch,
    /// An unsigned byte and a signed byte: a local variable and what is
    /// added to it.
    Increment,
    /// A pool index, a count and a zero byte.
    Interface,
    /// A pool index and two zero bytes.
    Dynamic,
    /// A pool index and a number of dimensions.
    Array,
    /// Padding, a default, a range of keys and a jump for each key.
    TableSwitch,
    /// Padding, a default, and pairs of a key and a jump.
    LookupSwitch,
    /// Another opcode, whose operands follow in double width.
    Wide,
}

/// The layout of the operands of an opcode; `None` for a byte that is no
/// opcode.
pub open spec fn layout_of(opcode: u8) -> Option<OperandLayout> {
    if opcode <= 0x0f {
        Some(OperandLayout::Nothing)
    } else if opcode == 0x10 {
        Some(OperandLayout::SignedByte)
    } else if opcode == 0x11 {
        Some(OperandLayout::SignedShort)
    } else if opcode == 0x12 {
        Some(OperandLayout::Byte)
    } else if opcode <= 0x14 {
        Some(OperandLayout::Short)
    } else if opcode <= 0x19 {
        Some(OperandLayout::Byte)
    } else if opcode <= 0x35 {
        Some(OperandLayout::Nothing)
    } else if opcode <= 0x3a {
        Some(OperandLayout::Byte)
    } else if opcode <= 0x83 {
        Some(OperandLayout::Nothing)
    } else if opcode == 0x84 {
        Some(OperandLayout::Increment)
    } else if opcode <= 0x98 {
        Some(OperandLayout::Nothing)
    } else if opcode <= 0xa8 {
        Some(OperandLayout::Branch)
    } else if opcode == 0xa9 {
        Some(OperandLayout::Byte)
    } else if opcode == 0xaa {
        Some(OperandLayout::TableSwitch)
    } else if opcode == 0xab {
        Some(OperandLayout::LookupSwitch)
    } else if opcode <= 0xb1 {
        Some(OperandLayout::Nothing)
    } else if opcode <= 0xb8 {
        Some(OperandLayout::Short)
    } else if opcode == 0xb9 {
        Some(OperandLayout::Interface)
    } else if opcode == 0xba {
        Some(OperandLayout::Dynamic)
    } else if opcode == 0xbb {
        Some(OperandLayout::Short)
    } else if opcode == 0xbc {
        Some(OperandLayout::Byte)
    } else if opcode == 0xbd {
        Some(OperandLayout::Short)
    } else if opcode <= 0xbf {
        Some(OperandLayout::Nothing)
    } else if opcode <= 0xc1 {
        Some(OperandLayout::Short)
    } else if opcode <= 0xc3 {
        Some(OperandLayout::Nothing)
    } else if opcode == 0xc4 {
        Some(OperandLayout::Wide)
    } else if opcode == 0xc5 {
        Some(OperandLayout::Array)
    } else if opcode <= 0xc7 {
        Some(OperandLayout::Branch)
    } else if opcode <= 0xc9 {
        Some(OperandLayout::WideBranch)
    } else {
        None
    }
}

/// The opcodes that `wide` can widen to a two-byte index: the loads and
/// stores of a local variable, and `ret`.
pub open spec fn widens_index(opcode: u8) -> bool {
    0x15 <= opcode <= 0x19 || 0x36 <= opcode <= 0x3a || opcode == 0xa9
}

/// The opcode of `iinc`, which `wide` widens to a two-byte index and a
/// two-byte value.
pub const IINC: u8 = 0x84;

/// The operands of an instruction.
#[derive(Debug, PartialEq, Eq)]
pub enum Operands {
    Nothing,
    Byte(u8),
    SignedByte(i8),
    Short(u16),
    SignedShort(i16),
    /// The address to jump to.
    Jump(usize),
    /// A local variable and what is added to it.
    Increment(u8, i8),
    /// A pool index and the count of argument words.
    Interface(u16, u8),
    /// A pool index and the number of dimensions.
    Array(u16, u8),
    /// The widened opcode and its two-byte index.
    Wide(u8, u16),
    /// A two-byte local variable and the two-byte value that is added to it.
    WideIncrement(u16, i16),
    /// The address for a key outside the range, the first key, and the
    /// addresses for the keys from the first on.
    TableSwitch { default: usize, low: i32, targets: Vec<usize> },
    /// The address for a key without a pair, and the pairs of a key and its
    /// address.
    LookupSwitch { default: usize, pairs: Vec<(i32, usize)> },
}

/// Mathematical value of [`Operands`].
pub ghost enum OperandsView {
    Nothing,
    Byte(u8),
    SignedByte(i8),
    Short(u16),
    SignedShort(i16),
    Jump(usize),
    Increment(u8, i8),
    Interface(u16, u8),
    Array(u16, u8),
    Wide(u8, u16),
    WideIncrement(u16, i16),
    TableSwitch { default: usize, low: i32, targets: Seq<usize> },
    LookupSwitch { default: usize, pairs: Seq<(i32, usize)> },
}

impl View for Operands {
    type V = OperandsView;

    open spec fn view(&self) -> OperandsView {
        match self {
            Operands::Nothing => OperandsView::Nothing,
            Operands::Byte(b) => OperandsView::Byte(*b),
            Operands::SignedByte(b) => OperandsView::SignedByte(*b),
            Operands::Short(s) => OperandsView::Short(*s),
            Operands::SignedShort(s) => OperandsView::SignedShort(*s),
            Operands::Jump(target) => OperandsView::Jump(*target),
            Operands::Increment(index, by) => OperandsView::Increment(*index, *by),
            Operands::Interface(index, count) => OperandsView::Interface(*index, *count),
            Operands::Array(index, dimensions) => OperandsView::Array(*index, *dimensions),
            Operands::Wide(opcode, index) => OperandsView::Wide(*opcode, *index),
            Operands::WideIncrement(index, by) => OperandsView::WideIncrement(*index, *by),
            Operands::TableSwitch { default, low, targets } => OperandsView::TableSwitch {
                default: *default,
                low: *low,
                targets: targets@,
            },
            Operands::LookupSwitch { default, pairs } => OperandsView::LookupSwitch {
                default: *default,
                pairs: pairs@,
            },
        }
    }
}

/// One instruction of a method: its opcode and its operands.
#[derive(Debug, PartialEq, Eq)]
pub struct Instruction {
    pub opcode: u8,
    pub operands: Operands,
}

/// Mathematical value of an [`Instruction`].
pub ghost struct InstructionView {
    pub opcode: u8,
    pub operands: OperandsView,
}

impl View for Instruction {
    type V = InstructionView;

    open spec fn view(&self) -> InstructionView {
        InstructionView { opcode: self.opcode, operands: self.operands@ }
    }
}

/// Why no instruction can be decoded at an address.
pub ghost enum DecodeFault {
    /// The byte at the address is no opcode, or `wide` stands before an
    /// opcode that it cannot widen.
    Unrecognized,
    /// The code ends before the operands do, or a switch announces a
    /// negative number of jumps.
    NoOperands,
    /// A byte that must be zero is not; carries the name of the
    /// instruction.
    NoZero(Seq<char>),
    /// A jump leads to an address outside the code.
    BadJump,
}

/// The error value that reports `fault` at `address`.
pub open spec fn reports(error: ClassFileParserError, fault: DecodeFault, address: int) -> bool {
    match fault {
        DecodeFault::Unrecognized => error
            == ClassFileParserError::CanNotReadInstructionError(address as usize),
        DecodeFault::NoOperands => error == ClassFileParserError::CanNotFindArgumentsError(
            address as usize,
        ),
        DecodeFault::NoZero(name) => error matches ClassFileParserError::InvalidInstructionData(
            reported,
            at,
        ) && reported@ == name && at == address,
        DecodeFault::BadJump => error == ClassFileParserError::InvalidOffsetError(
            address as usize,
        ),
    }
}

/// The unsigned big-endian number in the `width` bytes of `code` from `at`
/// on, where the code has them.
pub open spec fn unsigned_at(code: Seq<u8>, at: int, width: int) -> Result<int, DecodeFault> {
    if 0 <= at && at + width <= code.len() {
        Ok(be_unsigned(code.subrange(at, at + width)) as int)
    } else {
        Err(DecodeFault::NoOperands)
    }
}

/// The two's-complement big-endian number in the `width` bytes of `code`
/// from `at` on, where the code has them.
pub open spec fn signed_at(code: Seq<u8>, at: int, width: int) -> Result<int, DecodeFault> {
    if 0 <= at && at + width <= code.len() {
        Ok(be_signed(code.subrange(at, at + width)))
    } else {
        Err(DecodeFault::NoOperands)
    }
}

/// The address that lies `distance` after the instruction at `address`,
/// where that is an address of the code.
pub open spec fn jump_target(code: Seq<u8>, address: int, distance: Result<int, DecodeFault>) -> Result<
    usize,
    DecodeFault,
> {
    match distance {
        Ok(distance) => if 0 <= address + distance < code.len() {
            Ok((address + distance) as usize)
        } else {
            Err(DecodeFault::BadJump)
        },
        Err(fault) => Err(fault),
    }
}

/// Number of padding bytes between a switch opcode at `address` and its
/// operands, which start at a multiple of four.
pub open spec fn switch_padding(address: int) -> int {
    3 - address % 4
}

/// The `count` jumps of a table switch at `address` that are stored from
/// `at` on, four bytes each.
pub open spec fn table_targets(code: Seq<u8>, address: int, at: int, count: nat) -> Result<
    Seq<usize>,
    DecodeFault,
>
    decreases count,
{
    if count == 0 {
        Ok(Seq::empty())
    } else {
        match jump_target(code, address, signed_at(code, at, 4)) {
            Ok(target) => match table_targets(code, address, at + 4, (count - 1) as nat) {
                Ok(others) => Ok(seq![target] + others),
                Err(fault) => Err(fault),
            },
            Err(fault) => Err(fault),
        }
    }
}

/// The `count` pairs of a lookup switch at `address` that are stored from
/// `at` on, a key of four bytes and a jump of four bytes each.
pub open spec fn lookup_pairs(code: Seq<u8>, address: int, at: int, count: nat) -> Result<
    Seq<(i32, usize)>,
    DecodeFault,
>
    decreases count,
{
    if count == 0 {
        Ok(Seq::empty())
    } else {
        match signed_at(code, at, 4) {
            Ok(key) => match jump_target(code, address, signed_at(code, at + 4, 4)) {
                Ok(target) => match lookup_pairs(code, address, at + 8, (count - 1) as nat) {
                    Ok(others) => Ok(seq![(key as i32, target)] + others),
                    Err(fault) => Err(fault),
                },
                Err(fault) => Err(fault),
            },
            Err(fault) => Err(fault),
        }
    }
}

/// The operands of a table switch at `address`, and the address behind
/// them.
pub open spec fn table_switch_at(code: Seq<u8>, address: int) -> Result<
    (OperandsView, int),
    DecodeFault,
> {
    let start = address + 1 + switch_padding(address);
    match jump_target(code, address, signed_at(code, start, 4)) {
        Err(fault) => Err(fault),
        Ok(default) => match signed_at(code, start + 4, 4) {
            Err(fault) => Err(fault),
            Ok(low) => match signed_at(code, start + 8, 4) {
                Err(fault) => Err(fault),
                Ok(high) => if high < low {
                    Err(DecodeFault::NoOperands)
                } else {
                    let count = (high - low + 1) as nat;
                    match table_targets(code, address, start + 12, count) {
                        Err(fault) => Err(fault),
                        Ok(targets) => Ok(
                            (
                                OperandsView::TableSwitch { default, low: low as i32, targets },
                                start + 12 + 4 * count,
                            ),
                        ),
                    }
                },
            },
        },
    }
}

/// The operands of a lookup switch at `address`, and the address behind
/// them.
pub open spec fn lookup_switch_at(code: Seq<u8>, address: int) -> Result<
    (OperandsView, int),
    DecodeFault,
> {
    let start = address + 1 + switch_padding(address);
    match jump_target(code, address, signed_at(code, start, 4)) {
        Err(fault) => Err(fault),
        Ok(default) => match signed_at(code, start + 4, 4) {
            Err(fault) => Err(fault),
            Ok(count) => if count < 0 {
                Err(DecodeFault::NoOperands)
            } else {
                match lookup_pairs(code, address, start + 8, count as nat) {
                    Err(fault) => Err(fault),
                    Ok(pairs) => Ok(
                        (OperandsView::LookupSwitch { default, pairs }, start + 8 + 8 * count),
                    ),
                }
            },
        },
    }
}

/// The operands of a `wide` at `address`, and the address behind them.
pub open spec fn wide_at(code: Seq<u8>, address: int) -> Result<(OperandsView, int), DecodeFault> {
    match unsigned_at(code, address + 1, 1) {
        Err(fault) => Err(fault),
        Ok(widened) => if widens_index(widened as u8) {
            match unsigned_at(code, address + 2, 2) {
                Err(fault) => Err(fault),
                Ok(index) => Ok((OperandsView::Wide(widened as u8, index as u16), address + 4)),
            }
        } else if widened == IINC {
            match unsigned_at(code, address + 2, 2) {
                Err(fault) => Err(fault),
                Ok(index) => match signed_at(code, address + 4, 2) {
                    Err(fault) => Err(fault),
                    Ok(by) => Ok(
                        (OperandsView::WideIncrement(index as u16, by as i16), address + 6),
                    ),
                },
            }
        } else {
            Err(DecodeFault::Unrecognized)
        },
    }
}

/// The operands that are laid out as `layout` behind the opcode at
/// `address`, and the address behind them.
pub open spec fn operands_at(code: Seq<u8>, address: int, layout: OperandLayout) -> Result<
    (OperandsView, int),
    DecodeFault,
> {
    let at = address + 1;
    match layout {
        OperandLayout::Nothing => Ok((OperandsView::Nothing, at)),
        OperandLayout::Byte => match unsigned_at(code, at, 1) {
            Ok(b) => Ok((OperandsView::Byte(b as u8), at + 1)),
            Err(fault) => Err(fault),
        },
        OperandLayout::SignedByte => match signed_at(code, at, 1) {
            Ok(b) => Ok((OperandsView::SignedByte(b as i8), at + 1)),
            Err(fault) => Err(fault),
        },
        OperandLayout::Short => match unsigned_at(code, at, 2) {
            Ok(s) => Ok((OperandsView::Short(s as u16), at + 2)),
            Err(fault) => Err(fault),
        },
        OperandLayout::SignedShort => match signed_at(code, at, 2) {
            Ok(s) => Ok((OperandsView::SignedShort(s as i16), at + 2)),
            Err(fault) => Err(fault),
        },
        OperandLayout::Branch => match jump_target(code, address, signed_at(code, at, 2)) {
            Ok(target) => Ok((OperandsView::Jump(target), at + 2)),
            Err(fault) => Err(fault),
        },
        OperandLayout::WideBranch => match jump_target(code, address, signed_at(code, at, 4)) {
            Ok(target) => Ok((OperandsView::Jump(target), at + 4)),
            Err(fault) => Err(fault),
        },
        OperandLayout::Increment => match unsigned_at(code, at, 1) {
            Err(fault) => Err(fault),
            Ok(index) => match signed_at(code, at + 1, 1) {
                Err(fault) => Err(fault),
                Ok(by) => Ok((OperandsView::Increment(index as u8, by as i8), at + 2)),
            },
        },
        OperandLayout::Interface => match unsigned_at(code, at, 2) {
            Err(fault) => Err(fault),
            Ok(index) => match unsigned_at(code, at + 2, 1) {
                Err(fault) => Err(fault),
                Ok(count) => match unsigned_at(code, at + 3, 1) {
                    Err(fault) => Err(fault),
                    Ok(zero) => if zero == 0 {
                        Ok((OperandsView::Interface(index as u16, count as u8), at + 4))
                    } else {
                        Err(DecodeFault::NoZero("invokeinterface"@))
                    },
                },
            },
        },
        OperandLayout::Dynamic => match unsigned_at(code, at, 2) {
            Err(fault) => Err(fault),
            Ok(index) => match unsigned_at(code, at + 2, 2) {
                Err(fault) => Err(fault),
                Ok(zero) => if zero == 0 {
                    Ok((OperandsView::Short(index as u16), at + 4))
                } else {
                    Err(DecodeFault::NoZero("invokedynamic"@))
                },
            },
        },
        OperandLayout::Array => match unsigned_at(code, at, 2) {
            Err(fault) => Err(fault),
            Ok(index) => match unsigned_at(code, at + 2, 1) {
                Err(fault) => Err(fault),
                Ok(dimensions) => Ok(
                    (OperandsView::Array(index as u16, dimensions as u8), at + 3),
                ),
            },
        },
        OperandLayout::TableSwitch => table_switch_at(code, address),
        OperandLayout::LookupSwitch => lookup_switch_at(code, address),
        OperandLayout::Wide => wide_at(code, address),
    }
}

/// The instruction that starts at `address`, and the address behind it.
pub open spec fn instruction_at(code: Seq<u8>, address: int) -> Result<
    (InstructionView, int),
    DecodeFault,
> {
    if !(0 <= address < code.len()) {
        Err(DecodeFault::Unrecognized)
    } else {
        match layout_of(code[address]) {
            None => Err(DecodeFault::Unrecognized),
            Some(layout) => match operands_at(code, address, layout) {
                Ok((operands, next)) => Ok(
                    (InstructionView { opcode: code[address], operands }, next),
                ),
                Err(fault) => Err(fault),
            },
        }
    }
}

/// The instructions of `code` from `address` on, each with the address at
/// which it starts; or the first fault and the address of the instruction
/// that has it.
pub open spec fn instructions_from(code: Seq<u8>, address: int) -> Result<
    Seq<(usize, InstructionView)>,
    (DecodeFault, int),
>
    decreases code.len() - address,
{
    if !(0 <= address < code.len()) {
        Ok(Seq::empty())
    } else {
        match instruction_at(code, address) {
            Err(fault) => Err((fault, address)),
            Ok((instruction, next)) => if address < next <= code.len() {
                match instructions_from(code, next) {
                    Ok(others) => Ok(seq![(address as usize, instruction)] + others),
                    Err(fault) => Err(fault),
                }
            } else {
                Err((DecodeFault::Unrecognized, address))
            },
        }
    }
}

/// The cursor stands at `at` in `code`, which lies within the code.
spec fn stands_at(buffer: &Buffer, code: Seq<u8>, at: int) -> bool {
    &&& buffer.bytes() == code
    &&& buffer.position() == at
    &&& 0 <= at <= code.len()
}

/// What a read at the cursor gives: the value that the grammar finds at
/// `at`, with the cursor moved behind it, or the report of missing
/// operands for the instruction at `address`.
spec fn read_as<T>(
    r: Result<T, ClassFileParserError>,
    expected: Result<int, DecodeFault>,
    value: spec_fn(T) -> int,
    before: &Buffer,
    after: &Buffer,
    width: int,
    address: usize,
) -> bool {
    match expected {
        Ok(found) => r is Ok && value(r->Ok_0) == found && stands_at(
            after,
            before.bytes(),
            before.position() + width,
        ),
        Err(_) => r == Err::<T, _>(ClassFileParserError::CanNotFindArgumentsError(address)),
    }
}

/// The bytes ahead of a cursor are the bytes of the code from its position
/// on.
proof fn bytes_ahead(code: Seq<u8>, at: int, width: int)
    requires
        0 <= at,
        0 <= width,
        at + width <= code.len(),
    ensures
        code.skip(at).take(width) == code.subrange(at, at + width),
        code.skip(at).len() == code.len() - at,
{
}

/// A single byte read as a number is the byte.
proof fn single_byte(bytes: Seq<u8>)
    requires
        bytes.len() == 1,
    ensures
        be_unsigned(bytes) == bytes[0],
{
    reveal_with_fuel(be_unsigned, 2);
    assert(bytes.drop_last().len() == 0);
}

fn operand_u8(buffer: &mut Buffer, address: usize) -> (r: Result<u8, ClassFileParserError>)
    requires
        stands_at(old(buffer), old(buffer).bytes(), old(buffer).position() as int),
    ensures
        read_as(
            r,
            unsigned_at(old(buffer).bytes(), old(buffer).position() as int, 1),
            |v: u8| v as int,
            old(buffer),
            final(buffer),
            1,
            address,
        ),
{
    proof {
        let code = buffer.bytes();
        let at = buffer.position() as int;
        if at + 1 <= code.len() {
            bytes_ahead(code, at, 1);
            single_byte(code.subrange(at, at + 1));
        }
    }
    match buffer.read_u8() {
        Ok(value) => Ok(value),
        Err(_) => Err(ClassFileParserError::CanNotFindArgumentsError(address)),
    }
}

fn operand_i8(buffer: &mut Buffer, address: usize) -> (r: Result<i8, ClassFileParserError>)
    requires
        stands_at(old(buffer), old(buffer).bytes(), old(buffer).position() as int),
    ensures
        read_as(
            r,
            signed_at(old(buffer).bytes(), old(buffer).position() as int, 1),
            |v: i8| v as int,
            old(buffer),
            final(buffer),
            1,
            address,
        ),
{
    proof {
        let code = buffer.bytes();
        let at = buffer.position() as int;
        if at + 1 <= code.len() {
            bytes_ahead(code, at, 1);
            single_byte(code.subrange(at, at + 1));
            be_modulus_values();
        }
    }
    match buffer.read_u8() {
        Ok(value) => if value >= 0x80 {
            Ok((value as i16 - 0x100) as i8)
        } else {
            Ok(value as i8)
        },
        Err(_) => Err(ClassFileParserError::CanNotFindArgumentsError(address)),
    }
}

fn operand_u16(buffer: &mut Buffer, address: usize) -> (r: Result<u16, ClassFileParserError>)
    requires
        stands_at(old(buffer), old(buffer).bytes(), old(buffer).position() as int),
    ensures
        read_as(
            r,
            unsigned_at(old(buffer).bytes(), old(buffer).position() as int, 2),
            |v: u16| v as int,
            old(buffer),
            final(buffer),
            2,
            address,
        ),
{
    proof {
        let code = buffer.bytes();
        let at = buffer.position() as int;
        if at + 2 <= code.len() {
            bytes_ahead(code, at, 2);
        }
    }
    match buffer.read_u16() {
        Ok(value) => Ok(value),
        Err(_) => Err(ClassFileParserError::CanNotFindArgumentsError(address)),
    }
}

fn operand_i16(buffer: &mut Buffer, address: usize) -> (r: Result<i16, ClassFileParserError>)
    requires
        stands_at(old(buffer), old(buffer).bytes(), old(buffer).position() as int),
    ensures
        read_as(
            r,
            signed_at(old(buffer).bytes(), old(buffer).position() as int, 2),
            |v: i16| v as int,
            old(buffer),
            final(buffer),
            2,
            address,
        ),
{
    proof {
        let code = buffer.bytes();
        let at = buffer.position() as int;
        if at + 2 <= code.len() {
            bytes_ahead(code, at, 2);
            be_modulus_values();
            be_unsigned_bound(code.subrange(at, at + 2));
        }
    }
    match buffer.read_u16() {
        Ok(value) => if value >= 0x8000 {
            Ok((value as i32 - 0x1_0000) as i16)
        } else {
            Ok(value as i16)
        },
        Err(_) => Err(ClassFileParserError::CanNotFindArgumentsError(address)),
    }
}

fn operand_i32(buffer: &mut Buffer, address: usize) -> (r: Result<i32, ClassFileParserError>)
    requires
        stands_at(old(buffer), old(buffer).bytes(), old(buffer).position() as int),
    ensures
        read_as(
            r,
            signed_at(old(buffer).bytes(), old(buffer).position() as int, 4),
            |v: i32| v as int,
            old(buffer),
            final(buffer),
            4,
            address,
        ),
{
    proof {
        let code = buffer.bytes();
        let at = buffer.position() as int;
        if at + 4 <= code.len() {
            bytes_ahead(code, at, 4);
        }
    }
    match buffer.read_i32() {
        Ok(value) => Ok(value),
        Err(_) => Err(ClassFileParserError::CanNotFindArgumentsError(address)),
    }
}

/// The address `distance` after `address`, which must lie in a code of
/// `len` bytes.
fn target_of(address: usize, distance: i32, len: usize) -> (r: Result<usize, ClassFileParserError>)
    requires
        address < len,
    ensures
        0 <= address + distance < len ==> r == Ok::<usize, ClassFileParserError>(
            (address + distance) as usize,
        ),
        !(0 <= address + distance < len) ==> r == Err::<usize, _>(
            ClassFileParserError::InvalidOffsetError(address),
        ),
{
    if distance >= 0 {
        let forward = distance as u64;
        if forward < (len - address) as u64 {
            Ok(address + forward as usize)
        } else {
            Err(ClassFileParserError::InvalidOffsetError(address))
        }
    } else {
        let backward = (-(distance as i64)) as u64;
        if backward <= address as u64 {
            Ok(address - backward as usize)
        } else {
            Err(ClassFileParserError::InvalidOffsetError(address))
        }
    }
}

/// What decoding the operands of the instruction at `address` gives: the
/// operands that the grammar finds, with the cursor behind them, or the
/// report of the fault.
spec fn decoded_as(
    r: Result<Operands, ClassFileParserError>,
    expected: Result<(OperandsView, int), DecodeFault>,
    code: Seq<u8>,
    after: &Buffer,
    address: usize,
) -> bool {
    match expected {
        Ok((operands, next)) => r is Ok && r->Ok_0@ == operands && stands_at(after, code, next),
        Err(fault) => r is Err && reports(r->Err_0, fault, address as int),
    }
}

/// Reads a jump of two bytes.
fn short_jump(buffer: &mut Buffer, address: usize, len: usize) -> (r: Result<
    usize,
    ClassFileParserError,
>)
    requires
        stands_at(old(buffer), old(buffer).bytes(), old(buffer).position() as int),
        len == old(buffer).bytes().len(),
        address < len,
    ensures
        match jump_target(
            old(buffer).bytes(),
            address as int,
            signed_at(old(buffer).bytes(), old(buffer).position() as int, 2),
        ) {
            Ok(target) => r == Ok::<usize, ClassFileParserError>(target) && stands_at(
                final(buffer),
                old(buffer).bytes(),
                old(buffer).position() as int + 2,
            ),
            Err(fault) => r is Err && reports(r->Err_0, fault, address as int),
        },
{
    let distance = operand_i16(buffer, address)?;
    target_of(address, distance as i32, len)
}

/// Reads a jump of four bytes.
fn long_jump(buffer: &mut Buffer, address: usize, len: usize) -> (r: Result<
    usize,
    ClassFileParserError,
>)
    requires
        stands_at(old(buffer), old(buffer).bytes(), old(buffer).position() as int),
        len == old(buffer).bytes().len(),
        address < len,
    ensures
        match jump_target(
            old(buffer).bytes(),
            address as int,
            signed_at(old(buffer).bytes(), old(buffer).position() as int, 4),
        ) {
            Ok(target) => r == Ok::<usize, ClassFileParserError>(target) && stands_at(
                final(buffer),
                old(buffer).bytes(),
                old(buffer).position() as int + 4,
            ),
            Err(fault) => r is Err && reports(r->Err_0, fault, address as int),
        },
{
    let distance = operand_i32(buffer, address)?;
    target_of(address, distance, len)
}

/// The items read so far, put in front of what is read from here on.
spec fn prepended<T>(done: Seq<T>, ahead: Result<Seq<T>, DecodeFault>) -> Result<
    Seq<T>,
    DecodeFault,
> {
    match ahead {
        Ok(others) => Ok(done + others),
        Err(fault) => Err(fault),
    }
}

/// Reading one item and then the others gives what reading them in one go
/// gives.
proof fn one_more<T>(done: Seq<T>, item: T, ahead: Result<Seq<T>, DecodeFault>)
    ensures
        prepended(done.push(item), ahead) == prepended(done, prepended(seq![item], ahead)),
{
    match ahead {
        Ok(others) => {
            assert(done.push(item) + others == done + (seq![item] + others));
        },
        Err(_) => {},
    }
}

/// Skips the padding in front of the operands of a switch.
fn skip_padding(buffer: &mut Buffer, address: usize) -> (r: Result<(), ClassFileParserError>)
    requires
        stands_at(old(buffer), old(buffer).bytes(), address + 1),
    ensures
        address + 1 + switch_padding(address as int) <= old(buffer).bytes().len() ==> r is Ok
            && stands_at(
            final(buffer),
            old(buffer).bytes(),
            address + 1 + switch_padding(address as int),
        ),
        address + 1 + switch_padding(address as int) > old(buffer).bytes().len() ==> r == Err::<
            (),
            _,
        >(ClassFileParserError::CanNotFindArgumentsError(address)),
{
    let padding = 3 - address % 4;
    proof {
        bytes_ahead(buffer.bytes(), address + 1, 0);
    }
    match buffer.read_bytes(padding) {
        Ok(_) => Ok(()),
        Err(_) => Err(ClassFileParserError::CanNotFindArgumentsError(address)),
    }
}

#[verifier::loop_isolation(false)]
fn decode_table_switch(buffer: &mut Buffer, address: usize, len: usize) -> (r: Result<
    Operands,
    ClassFileParserError,
>)
    requires
        stands_at(old(buffer), old(buffer).bytes(), address + 1),
        len == old(buffer).bytes().len(),
        address < len,
    ensures
        decoded_as(
            r,
            table_switch_at(old(buffer).bytes(), address as int),
            old(buffer).bytes(),
            final(buffer),
            address,
        ),
{
    let ghost code = buffer.bytes();
    let ghost start = address + 1 + switch_padding(address as int);
    skip_padding(buffer, address)?;
    let default = long_jump(buffer, address, len)?;
    let low = operand_i32(buffer, address)?;
    let high = operand_i32(buffer, address)?;
    if high < low {
        return Err(ClassFileParserError::CanNotFindArgumentsError(address));
    }
    let count: u64 = (high as i64 - low as i64 + 1) as u64;
    let mut targets: Vec<usize> = Vec::new();
    let mut done: u64 = 0;
    let ghost first = start + 12;
    assert(prepended(targets@, table_targets(code, address as int, first, count as nat))
        == table_targets(code, address as int, first, count as nat)) by {
        match table_targets(code, address as int, first, count as nat) {
            Ok(all) => {
                assert(targets@ + all == all);
            },
            Err(_) => {},
        }
    }
    while done < count
        invariant
            stands_at(buffer, code, first + 4 * done),
            done <= count,
            len == code.len(),
            address < len,
            table_targets(code, address as int, first, count as nat) == prepended(
                targets@,
                table_targets(code, address as int, first + 4 * done, (count - done) as nat),
            ),
        decreases count - done,
    {
        let ghost before = targets@;
        let ghost at = first + 4 * done;
        let target = long_jump(buffer, address, len)?;
        targets.push(target);
        done = done + 1;
        proof {
            one_more(
                before,
                target,
                table_targets(code, address as int, at + 4, (count - done) as nat),
            );
        }
    }
    assert(targets@ + Seq::<usize>::empty() == targets@);
    Ok(Operands::TableSwitch { default, low, targets })
}

#[verifier::loop_isolation(false)]
fn decode_lookup_switch(buffer: &mut Buffer, address: usize, len: usize) -> (r: Result<
    Operands,
    ClassFileParserError,
>)
    requires
        stands_at(old(buffer), old(buffer).bytes(), address + 1),
        len == old(buffer).bytes().len(),
        address < len,
    ensures
        decoded_as(
            r,
            lookup_switch_at(old(buffer).bytes(), address as int),
            old(buffer).bytes(),
            final(buffer),
            address,
        ),
{
    let ghost code = buffer.bytes();
    let ghost start = address + 1 + switch_padding(address as int);
    skip_padding(buffer, address)?;
    let default = long_jump(buffer, address, len)?;
    let announced = operand_i32(buffer, address)?;
    if announced < 0 {
        return Err(ClassFileParserError::CanNotFindArgumentsError(address));
    }
    let count: u32 = announced as u32;
    let mut pairs: Vec<(i32, usize)> = Vec::new();
    let mut done: u32 = 0;
    let ghost first = start + 8;
    assert(prepended(pairs@, lookup_pairs(code, address as int, first, count as nat))
        == lookup_pairs(code, address as int, first, count as nat)) by {
        match lookup_pairs(code, address as int, first, count as nat) {
            Ok(all) => {
                assert(pairs@ + all == all);
            },
            Err(_) => {},
        }
    }
    while done < count
        invariant
            stands_at(buffer, code, first + 8 * done),
            done <= count,
            len == code.len(),
            address < len,
            lookup_pairs(code, address as int, first, count as nat) == prepended(
                pairs@,
                lookup_pairs(code, address as int, first + 8 * done, (count - done) as nat),
            ),
        decreases count - done,
    {
        let ghost before = pairs@;
        let ghost at = first + 8 * done;
        let key = operand_i32(buffer, address)?;
        let target = long_jump(buffer, address, len)?;
        pairs.push((key, target));
        done = done + 1;
        proof {
            one_more(
                before,
                (key, target),
                lookup_pairs(code, address as int, at + 8, (count - done) as nat),
            );
        }
    }
    assert(pairs@ + Seq::<(i32, usize)>::empty() == pairs@);
    Ok(Operands::LookupSwitch { default, pairs })
}

fn decode_wide(buffer: &mut Buffer, address: usize) -> (r: Result<Operands, ClassFileParserError>)
    requires
        stands_at(old(buffer), old(buffer).bytes(), address + 1),
    ensures
        decoded_as(
            r,
            wide_at(old(buffer).bytes(), address as int),
            old(buffer).bytes(),
            final(buffer),
            address,
        ),
{
    let widened = operand_u8(buffer, address)?;
    if (0x15 <= widened && widened <= 0x19) || (0x36 <= widened && widened <= 0x3a) || widened
        == 0xa9 {
        let index = operand_u16(buffer, address)?;
        Ok(Operands::Wide(widened, index))
    } else if widened == IINC {
        let index = operand_u16(buffer, address)?;
        let by = operand_i16(buffer, address)?;
        Ok(Operands::WideIncrement(index, by))
    } else {
        Err(ClassFileParserError::CanNotReadInstructionError(address))
    }
}

fn decode_operands(buffer: &mut Buffer, address: usize, len: usize, layout: OperandLayout) -> (r:
    Result<Operands, ClassFileParserError>)
    requires
        stands_at(old(buffer), old(buffer).bytes(), address + 1),
        len == old(buffer).bytes().len(),
        address < len,
    ensures
        decoded_as(
            r,
            operands_at(old(buffer).bytes(), address as int, layout),
            old(buffer).bytes(),
            final(buffer),
            address,
        ),
{
    match layout {
        OperandLayout::Nothing => Ok(Operands::Nothing),
        OperandLayout::Byte => Ok(Operands::Byte(operand_u8(buffer, address)?)),
        OperandLayout::SignedByte => Ok(Operands::SignedByte(operand_i8(buffer, address)?)),
        OperandLayout::Short => Ok(Operands::Short(operand_u16(buffer, address)?)),
        OperandLayout::SignedShort => Ok(Operands::SignedShort(operand_i16(buffer, address)?)),
        OperandLayout::Branch => Ok(Operands::Jump(short_jump(buffer, address, len)?)),
        OperandLayout::WideBranch => Ok(Operands::Jump(long_jump(buffer, address, len)?)),
        OperandLayout::Increment => {
            let index = operand_u8(buffer, address)?;
            let by = operand_i8(buffer, address)?;
            Ok(Operands::Increment(index, by))
        },
        OperandLayout::Interface => {
            let index = operand_u16(buffer, address)?;
            let count = operand_u8(buffer, address)?;
            let zero = operand_u8(buffer, address)?;
            if zero == 0 {
                Ok(Operands::Interface(index, count))
            } else {
                Err(
                    ClassFileParserError::InvalidInstructionData(
                        String::from_str("invokeinterface"),
                        address,
                    ),
                )
            }
        },
        OperandLayout::Dynamic => {
            let index = operand_u16(buffer, address)?;
            let zero = operand_u16(buffer, address)?;
            if zero == 0 {
                Ok(Operands::Short(index))
            } else {
                Err(
                    ClassFileParserError::InvalidInstructionData(
                        String::from_str("invokedynamic"),
                        address,
                    ),
                )
            }
        },
        OperandLayout::Array => {
            let index = operand_u16(buffer, address)?;
            let dimensions = operand_u8(buffer, address)?;
            Ok(Operands::Array(index, dimensions))
        },
        OperandLayout::TableSwitch => decode_table_switch(buffer, address, len),
        OperandLayout::LookupSwitch => decode_lookup_switch(buffer, address, len),
        OperandLayout::Wide => decode_wide(buffer, address),
    }
}

/// The layout of the operands of an opcode; `None` for a byte that is no
/// opcode.
pub fn operand_layout(opcode: u8) -> (layout: Option<OperandLayout>)
    ensures
        layout == layout_of(opcode),
{
    if opcode <= 0x0f {
        Some(OperandLayout::Nothing)
    } else if opcode == 0x10 {
        Some(OperandLayout::SignedByte)
    } else if opcode == 0x11 {
        Some(OperandLayout::SignedShort)
    } else if opcode == 0x12 {
        Some(OperandLayout::Byte)
    } else if opcode <= 0x14 {
        Some(OperandLayout::Short)
    } else if opcode <= 0x19 {
        Some(OperandLayout::Byte)
    } else if opcode <= 0x35 {
        Some(OperandLayout::Nothing)
    } else if opcode <= 0x3a {
        Some(OperandLayout::Byte)
    } else if opcode <= 0x83 {
        Some(OperandLayout::Nothing)
    } else if opcode == 0x84 {
        Some(OperandLayout::Increment)
    } else if opcode <= 0x98 {
        Some(OperandLayout::Nothing)
    } else if opcode <= 0xa8 {
        Some(OperandLayout::Branch)
    } else if opcode == 0xa9 {
        Some(OperandLayout::Byte)
    } else if opcode == 0xaa {
        Some(OperandLayout::TableSwitch)
    } else if opcode == 0xab {
        Some(OperandLayout::LookupSwitch)
    } else if opcode <= 0xb1 {
        Some(OperandLayout::Nothing)
    } else if opcode <= 0xb8 {
        Some(OperandLayout::Short)
    } else if opcode == 0xb9 {
        Some(OperandLayout::Interface)
    } else if opcode == 0xba {
        Some(OperandLayout::Dynamic)
    } else if opcode == 0xbb {
        Some(OperandLayout::Short)
    } else if opcode == 0xbc {
        Some(OperandLayout::Byte)
    } else if opcode == 0xbd {
        Some(OperandLayout::Short)
    } else if opcode <= 0xbf {
        Some(OperandLayout::Nothing)
    } else if opcode <= 0xc1 {
        Some(OperandLayout::Short)
    } else if opcode <= 0xc3 {
        Some(OperandLayout::Nothing)
    } else if opcode == 0xc4 {
        Some(OperandLayout::Wide)
    } else if opcode == 0xc5 {
        Some(OperandLayout::Array)
    } else if opcode <= 0xc7 {
        Some(OperandLayout::Branch)
    } else if opcode <= 0xc9 {
        Some(OperandLayout::WideBranch)
    } else {
        None
    }
}

/// An instruction ends behind its opcode and within the code.
pub proof fn instruction_ends_within(code: Seq<u8>, address: int)
    ensures
        instruction_at(code, address) matches Ok((_, next)) ==> address < next <= code.len(),
{
    if 0 <= address < code.len() {
        if let Some(layout) = layout_of(code[address]) {
            match layout {
                OperandLayout::TableSwitch => {
                    if let Ok((_, next)) = table_switch_at(code, address) {
                        let start = address + 1 + switch_padding(address);
                        let low = signed_at(code, start + 4, 4)->Ok_0;
                        let high = signed_at(code, start + 8, 4)->Ok_0;
                        table_targets_fit(code, address, start + 12, (high - low + 1) as nat);
                    }
                },
                OperandLayout::LookupSwitch => {
                    if let Ok((_, next)) = lookup_switch_at(code, address) {
                        let start = address + 1 + switch_padding(address);
                        let count = signed_at(code, start + 4, 4)->Ok_0;
                        lookup_pairs_fit(code, address, start + 8, count as nat);
                    }
                },
                _ => {},
            }
        }
    }
}

/// The jumps of a table switch that can be read lie within the code.
proof fn table_targets_fit(code: Seq<u8>, address: int, at: int, count: nat)
    requires
        table_targets(code, address, at, count) is Ok,
        0 <= at <= code.len(),
    ensures
        at + 4 * count <= code.len(),
    decreases count,
{
    if count > 0 {
        table_targets_fit(code, address, at + 4, (count - 1) as nat);
    }
}

/// The pairs of a lookup switch that can be read lie within the code.
proof fn lookup_pairs_fit(code: Seq<u8>, address: int, at: int, count: nat)
    requires
        lookup_pairs(code, address, at, count) is Ok,
        0 <= at <= code.len(),
    ensures
        at + 8 * count <= code.len(),
    decreases count,
{
    if count > 0 {
        lookup_pairs_fit(code, address, at + 8, (count - 1) as nat);
    }
}

/// The mathematical values of the decoded instructions, with their
/// addresses.
pub open spec fn listing_of(instructions: Seq<(usize, Instruction)>) -> Seq<
    (usize, InstructionView),
> {
    instructions.map_values(|entry: (usize, Instruction)| (entry.0, entry.1@))
}

/// The instructions read so far, put in front of what is read from here on.
spec fn continued(
    done: Seq<(usize, InstructionView)>,
    ahead: Result<Seq<(usize, InstructionView)>, (DecodeFault, int)>,
) -> Result<Seq<(usize, InstructionView)>, (DecodeFault, int)> {
    match ahead {
        Ok(others) => Ok(done + others),
        Err(fault) => Err(fault),
    }
}

impl Instruction {
    /// Decodes the instruction at the cursor, which stands at `address`.
    fn parse(buffer: &mut Buffer, address: usize, len: usize) -> (r: Result<
        Instruction,
        ClassFileParserError,
    >)
        requires
            stands_at(old(buffer), old(buffer).bytes(), address as int),
            len == old(buffer).bytes().len(),
            address < len,
        ensures
            match instruction_at(old(buffer).bytes(), address as int) {
                Ok((instruction, next)) => r is Ok && r->Ok_0@ == instruction && stands_at(
                    final(buffer),
                    old(buffer).bytes(),
                    next,
                ),
                Err(fault) => r is Err && reports(r->Err_0, fault, address as int),
            },
    {
        proof {
            bytes_ahead(buffer.bytes(), address as int, 1);
        }
        let opcode = match buffer.read_u8() {
            Ok(opcode) => opcode,
            Err(_) => {
                return Err(ClassFileParserError::CanNotReadInstructionError(address));
            },
        };
        let layout = match operand_layout(opcode) {
            Some(layout) => layout,
            None => {
                return Err(ClassFileParserError::CanNotReadInstructionError(address));
            },
        };
        let operands = decode_operands(buffer, address, len, layout)?;
        Ok(Instruction { opcode, operands })
    }

    /// Decodes the bytecode of a method from its start to its end.
    ///
    /// Gives every instruction with the address at which it starts, in
    /// order; or reports the first instruction that cannot be decoded, with
    /// its address: a byte that is no opcode, operands that the code does
    /// not hold, a byte that should be zero, or a jump out of the code.
    #[verifier::loop_isolation(false)]
    pub fn parse_instructions(raw_code: &[u8]) -> (r: Result<
        Vec<(usize, Instruction)>,
        ClassFileParserError,
    >)
        ensures
            match instructions_from(raw_code@, 0) {
                Ok(listing) => r is Ok && listing_of(r->Ok_0@) == listing,
                Err((fault, address)) => r is Err && reports(r->Err_0, fault, address),
            },
    {
        let len = raw_code.len();
        let mut buffer = Buffer::new(raw_code);
        let mut instructions: Vec<(usize, Instruction)> = Vec::new();
        let mut address: usize = 0;
        assert(continued(listing_of(instructions@), instructions_from(raw_code@, 0))
            == instructions_from(raw_code@, 0)) by {
            match instructions_from(raw_code@, 0) {
                Ok(all) => {
                    assert(listing_of(instructions@) + all == all);
                },
                Err(_) => {},
            }
        }
        while address < len
            invariant
                stands_at(&buffer, raw_code@, address as int),
                instructions_from(raw_code@, 0) == continued(
                    listing_of(instructions@),
                    instructions_from(raw_code@, address as int),
                ),
            decreases len - address,
        {
            let ghost before = listing_of(instructions@);
            proof {
                instruction_ends_within(raw_code@, address as int);
            }
            let instruction = Instruction::parse(&mut buffer, address, len)?;
            let ghost next = instruction_at(raw_code@, address as int)->Ok_0.1;
            let ghost ahead = instructions_from(raw_code@, next);
            proof {
                assert(listing_of(instructions@.push((address, instruction))) == before.push(
                    (address, instruction@),
                ));
                match ahead {
                    Ok(others) => {
                        assert(before.push((address, instruction@)) + others == before + (seq![
                            (address, instruction@),
                        ] + others));
                    },
                    Err(_) => {},
                }
            }
            instructions.push((address, instruction));
            address = buffer.consumed();
        }
        assert(listing_of(instructions@) + Seq::<(usize, InstructionView)>::empty() == listing_of(
            instructions@,
        ));
        Ok(instructions)
    }
}

} // verus!
