use vstd::prelude::*;

verus! {

/// An address in the bytecode of a method: the offset of a byte from the
/// start of the code.
#[derive(Debug, Default, Clone, Copy, PartialEq, Eq, PartialOrd, Ord, Hash, Structural)]
pub struct ProgramCounter(pub u16);

/// A line of the source file, counted from one.
#[derive(Debug, Clone, Copy, PartialEq, Eq, PartialOrd, Ord, Structural)]
pub struct LineNumber(pub u16);

} // verus!
