use vstd::prelude::*;

verus! {

/// Result of a decoding step.
pub type ClassFileParserResult<T> = Result<T, ClassFileParserError>;

/// Everything that can go wrong while a class file is decoded.
///
/// Failures are values: no decoding function of this crate panics.
#[derive(Debug, PartialEq)]
pub enum ClassFileParserError {
    /// The major version is not one of the known ones.
    ClassFileVersionError(u16, u16),
    /// A constant-pool index is zero or lies beyond the last slot.
    WrongConstantPoolIndexError(u16),
    /// A constant-pool index names the unusable second slot of a `Long` or
    /// `Double` constant.
    ConstantPoolIndexToPhantomEntryError(u16),
    /// A field type descriptor is malformed; carries the whole descriptor.
    InvalidFiledTypeDescriptor(String),
    /// A method descriptor is malformed; carries the whole descriptor.
    InvalidMethodTypeDescriptor(String),
    /// A zero byte was expected after the named instruction at the address.
    InvalidInstructionData(String, usize),
    /// No instruction could be read at the address.
    CanNotReadInstructionError(usize),
    /// The operands of the instruction at the address are missing.
    CanNotFindArgumentsError(usize),
    /// A jump at the address leads outside the code.
    InvalidOffsetError(usize),
    /// Fewer bytes are left than a read needs.
    UnexpectedEndOfData,
    /// Bytes that should hold modified UTF-8 text do not.
    InvalidCesu8String,
    /// Class data that makes no sense: says what is wrong, and whether an
    /// index into the constant pool is to blame.
    InvalidClassData { name: String, is_invalidate_constant_pool_idx: bool },
    /// A version that a user of the model declines to handle. The decoders
    /// of this crate report an unknown version as
    /// [`ClassFileVersionError`](Self::ClassFileVersionError).
    UnsupportedVersion(u16, u16),
    /// A type descriptor that a user of the model finds malformed. The
    /// decoders of this crate report the field or the method descriptor.
    InvalidTypeDescriptor(String),
}

} // verus!
